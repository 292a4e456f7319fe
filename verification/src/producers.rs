use vstd::prelude::*;
use std::collections::HashSet;
use crate::errors::{ApiError, ApiErrorView};
use crate::ids::DocId;
use crate::listing::{ascending_unless_desc, direction_of, sort_key, RegexFilter, SortKey, SortOrder};
use crate::text::{decimal, push_decimal};

verus! {

broadcast use vstd::std_specs::hash::group_hash_axioms;

/// A reference to a catalogue entity (producer, studio, genre) as the anime database gives it.
#[derive(Debug)]
pub struct CommonMalResponse {
    pub mal_id: u32,
    pub kind: String,
    pub name: String,
    pub url: String,
}

/// A producer as the local store keeps it.
#[derive(Debug)]
pub struct ProducerDTO {
    pub id: Option<DocId>,
    pub mal_id: u32,
    pub name: String,
    pub url: Option<String>,
}

/// Query of the producer listing.
#[derive(Debug)]
pub struct ProducerListParams {
    pub page: Option<u64>,
    pub limit: Option<u64>,
    pub name: Option<String>,
    pub sort_by: Option<ProducerSortBy>,
    pub order: Option<SortOrder>,
}

/// The fields the producer listing can be sorted by.
#[derive(Debug, Clone, Copy, PartialEq, Eq)]
pub enum ProducerSortBy {
    Name,
    MalId,
}

/// The body of a request that edits a producer by hand.
#[derive(Debug)]
pub struct UpdateProducerRequest {
    pub name: Option<String>,
    pub url: Option<String>,
}

/// A field that a producer edit sets.
#[derive(Debug)]
pub enum ProducerField {
    ManuallyEdited(bool),
    Name(String),
    Url(String),
}

impl CommonMalResponse {
    /// A copy of this reference.
    pub fn duplicate(&self) -> (r: CommonMalResponse)
        ensures
            r == *self,
    {
        CommonMalResponse {
            mal_id: self.mal_id,
            kind: self.kind.clone(),
            name: self.name.clone(),
            url: self.url.clone(),
        }
    }
}

/// The filter of the producer listing: a case-insensitive match of the name against the
/// `name` parameter as given, when there is one.
pub fn build_filter(params: &ProducerListParams) -> (r: Option<RegexFilter>)
    ensures
        match r {
            Some(f) => params.name matches Some(n) && f.field@ == "name"@ && f.pattern@ == n@,
            None => params.name is None,
        },
{
    match &params.name {
        Some(n) => Some(RegexFilter { field: String::from_str("name"), pattern: n.clone() }),
        None => None,
    }
}

/// The sort of the producer listing: by catalogue identifier when asked, else by name;
/// ascending unless descending order is asked for.
pub fn build_sort(params: &ProducerListParams) -> (k: SortKey)
    ensures
        k.field@ == (match params.sort_by {
            Some(ProducerSortBy::MalId) => "mal_id"@,
            _ => "name"@,
        }),
        k.direction == ascending_unless_desc(params.order),
{
    let direction = direction_of(params.order);
    match params.sort_by {
        Some(ProducerSortBy::MalId) => sort_key("mal_id", direction),
        _ => sort_key("name", direction),
    }
}

/// The record cached for a producer met in an anime listing: not yet stored, with the
/// reference's identifier, name and link.
pub fn producer_record(p: &CommonMalResponse) -> (r: ProducerDTO)
    ensures
        r.id is None,
        r.mal_id == p.mal_id,
        r.name == p.name,
        r.url == Some(p.url),
{
    ProducerDTO { id: None, mal_id: p.mal_id, name: p.name.clone(), url: Some(p.url.clone()) }
}

/// The catalogue identifiers of a list of references.
pub open spec fn mal_ids(s: Seq<CommonMalResponse>) -> Seq<u32> {
    s.map_values(|p: CommonMalResponse| p.mal_id)
}

/// The identifiers under which an anime's producers are stored with it.
pub fn producer_ids(producers: &Vec<CommonMalResponse>) -> (r: Vec<u32>)
    ensures
        r@ == mal_ids(producers@),
{
    let mut r: Vec<u32> = Vec::new();
    for i in 0..producers.len()
        invariant
            r@ == mal_ids(producers@.take(i as int)),
    {
        r.push(producers[i].mal_id);
        assert(mal_ids(producers@.take(i + 1)) =~= mal_ids(producers@.take(i as int)).push(
            producers@[i as int].mal_id,
        ));
    }
    assert(producers@.take(producers.len() as int) =~= producers@);
    r
}

/// The references of `s` whose identifier has not occurred before them: the first one of
/// each identifier, in order.
pub open spec fn first_by_mal_id(s: Seq<CommonMalResponse>) -> Seq<CommonMalResponse>
    decreases s.len(),
{
    if s.len() == 0 {
        Seq::empty()
    } else {
        let before = first_by_mal_id(s.drop_last());
        if mal_ids(s.drop_last()).contains(s.last().mal_id) {
            before
        } else {
            before.push(s.last())
        }
    }
}

/// The references of all the lists, one after another.
pub open spec fn all_references(lists: Seq<Vec<CommonMalResponse>>) -> Seq<CommonMalResponse> {
    lists.map_values(|l: Vec<CommonMalResponse>| l@).flatten()
}

/// The producers of a page of anime, each identifier once, in the order first met.
pub fn unique_producers(lists: &Vec<Vec<CommonMalResponse>>) -> (r: Vec<CommonMalResponse>)
    ensures
        r@ == first_by_mal_id(all_references(lists@)),
{
    let mut seen: HashSet<u32> = HashSet::new();
    let mut r: Vec<CommonMalResponse> = Vec::new();
    for i in 0..lists.len()
        invariant
            r@ == first_by_mal_id(all_references(lists@.take(i as int))),
            forall|x: u32| seen@.contains(x) <==> mal_ids(all_references(lists@.take(i as int))).contains(x),
    {
        let list = &lists[i];
        let ghost done = all_references(lists@.take(i as int));
        for j in 0..list.len()
            invariant
                list == lists@[i as int],
                done == all_references(lists@.take(i as int)),
                r@ == first_by_mal_id(done + list@.take(j as int)),
                forall|x: u32| seen@.contains(x) <==> mal_ids(done + list@.take(j as int)).contains(x),
        {
            let p = &list[j];
            let ghost flat = done + list@.take(j as int);
            assert((done + list@.take(j + 1)).drop_last() =~= flat);
            assert(mal_ids(flat.push(*p)) =~= mal_ids(flat).push(p.mal_id));
            assert(done + list@.take(j + 1) =~= flat.push(*p));
            assert(flat.push(*p).drop_last() =~= flat);
            assert(mal_ids(flat.push(*p))[flat.len() as int] == p.mal_id);
            if seen.insert(p.mal_id) {
                r.push(p.duplicate());
            }
            assert forall|x: u32| seen@.contains(x) <==> mal_ids(flat.push(*p)).contains(x) by {
                if mal_ids(flat).contains(x) {
                    let k = choose|k: int| 0 <= k < mal_ids(flat).len() && mal_ids(flat)[k] == x;
                    assert(mal_ids(flat.push(*p))[k] == x);
                }
                if mal_ids(flat.push(*p)).contains(x) && x != p.mal_id {
                    let k = choose|k: int|
                        0 <= k < mal_ids(flat.push(*p)).len() && mal_ids(flat.push(*p))[k] == x;
                    assert(mal_ids(flat)[k] == x);
                }
            }
        }
        proof {
            let f = |l: Vec<CommonMalResponse>| l@;
            assert(lists@.take(i + 1).map_values(f) =~= lists@.take(i as int).map_values(f).push(
                f(lists@[i as int]),
            ));
            lists@.take(i as int).map_values(f).lemma_flatten_push(f(lists@[i as int]));
            assert(list@.take(list@.len() as int) =~= list@);
        }
    }
    assert(lists@.take(lists.len() as int) =~= lists@);
    r
}

/// The deduplicated references hold each identifier of the input exactly once, and nothing
/// else.
pub proof fn lemma_first_by_mal_id_unique(s: Seq<CommonMalResponse>)
    ensures
        mal_ids(first_by_mal_id(s)).no_duplicates(),
        forall|x: u32| #[trigger] mal_ids(first_by_mal_id(s)).contains(x) <==> mal_ids(s).contains(x),
        forall|q: CommonMalResponse| #[trigger] first_by_mal_id(s).contains(q) ==> s.contains(q),
    decreases s.len(),
{
    if s.len() > 0 {
        let init = s.drop_last();
        lemma_first_by_mal_id_unique(init);
        let before = first_by_mal_id(init);
        assert(mal_ids(s) =~= mal_ids(init).push(s.last().mal_id));
        assert forall|q: CommonMalResponse| #[trigger] init.contains(q) implies s.contains(q) by {
            let k = choose|k: int| 0 <= k < init.len() && init[k] == q;
            assert(s[k] == q);
        }
        assert forall|x: u32| #[trigger] mal_ids(init).contains(x) implies mal_ids(s).contains(x) by {
            let k = choose|k: int| 0 <= k < mal_ids(init).len() && mal_ids(init)[k] == x;
            assert(mal_ids(s)[k] == x);
        }
        assert forall|x: u32| #[trigger] mal_ids(s).contains(x) && x != s.last().mal_id implies mal_ids(
            init,
        ).contains(x) by {
            let k = choose|k: int| 0 <= k < mal_ids(s).len() && mal_ids(s)[k] == x;
            assert(mal_ids(init)[k] == x);
        }
        assert(mal_ids(s)[s.len() - 1] == s.last().mal_id);
        if mal_ids(init).contains(s.last().mal_id) {
            assert forall|x: u32| #[trigger] mal_ids(first_by_mal_id(s)).contains(x) <==> mal_ids(
                s,
            ).contains(x) by {
                if mal_ids(s).contains(x) && x != s.last().mal_id {
                    assert(mal_ids(init).contains(x));
                }
            }
        }
        if !mal_ids(init).contains(s.last().mal_id) {
            let after = before.push(s.last());
            assert(mal_ids(after) =~= mal_ids(before).push(s.last().mal_id));
            assert forall|x: u32| #[trigger] mal_ids(before).contains(x) implies mal_ids(after).contains(x) by {
                let k = choose|k: int| 0 <= k < mal_ids(before).len() && mal_ids(before)[k] == x;
                assert(mal_ids(after)[k] == x);
            }
            assert forall|x: u32| #[trigger] mal_ids(after).contains(x) && x != s.last().mal_id implies mal_ids(
                before,
            ).contains(x) by {
                let k = choose|k: int| 0 <= k < mal_ids(after).len() && mal_ids(after)[k] == x;
                assert(mal_ids(before)[k] == x);
            }
            assert(mal_ids(after)[mal_ids(after).len() - 1] == s.last().mal_id);
            assert forall|x: u32| #[trigger] mal_ids(first_by_mal_id(s)).contains(x) <==> mal_ids(
                s,
            ).contains(x) by {
                if mal_ids(s).contains(x) && x != s.last().mal_id {
                    assert(mal_ids(init).contains(x));
                    assert(mal_ids(before).contains(x));
                }
                if mal_ids(after).contains(x) && x != s.last().mal_id {
                    assert(mal_ids(before).contains(x));
                    assert(mal_ids(init).contains(x));
                }
            }
            assert forall|q: CommonMalResponse| #[trigger] after.contains(q) implies s.contains(q) by {
                let k = choose|k: int| 0 <= k < after.len() && after[k] == q;
                if k < before.len() {
                    assert(before[k] == q);
                    assert(before.contains(q));
                } else {
                    assert(s[s.len() - 1] == q);
                }
            }
            assert forall|a: int, b: int|
                0 <= a < mal_ids(after).len() && 0 <= b < mal_ids(after).len() && a != b implies mal_ids(
                after,
            )[a] != mal_ids(after)[b] by {
                if a < mal_ids(before).len() && b < mal_ids(before).len() {
                    assert(mal_ids(after)[a] == mal_ids(before)[a]);
                    assert(mal_ids(after)[b] == mal_ids(before)[b]);
                } else if a < mal_ids(before).len() {
                    assert(mal_ids(before).contains(mal_ids(before)[a]));
                } else if b < mal_ids(before).len() {
                    assert(mal_ids(before).contains(mal_ids(before)[b]));
                }
            }
        }
    }
}

/// Whether `s[k]` is the first reference of `s` with its identifier.
pub open spec fn first_of_its_id(s: Seq<CommonMalResponse>, k: int) -> bool {
    0 <= k < s.len() && forall|m: int| 0 <= m < k ==> #[trigger] s[m].mal_id != s[k].mal_id
}

/// Whether `q` is, in `s`, the first reference with its identifier.
pub open spec fn met_first(s: Seq<CommonMalResponse>, q: CommonMalResponse) -> bool {
    exists|k: int| #![trigger s[k]] first_of_its_id(s, k) && s[k] == q
}

proof fn lemma_first_in_prefix(s: Seq<CommonMalResponse>, k: int)
    requires
        s.len() > 0,
        first_of_its_id(s.drop_last(), k),
    ensures
        first_of_its_id(s, k),
        s[k] == s.drop_last()[k],
{
    let init = s.drop_last();
    assert forall|m: int| 0 <= m < k implies #[trigger] s[m].mal_id != s[k].mal_id by {
        assert(s[m] == init[m] && s[k] == init[k]);
    }
}

proof fn lemma_last_is_first(s: Seq<CommonMalResponse>)
    requires
        s.len() > 0,
        !mal_ids(s.drop_last()).contains(s.last().mal_id),
    ensures
        first_of_its_id(s, s.len() - 1),
{
    let k = s.len() - 1;
    assert forall|m: int| 0 <= m < k implies #[trigger] s[m].mal_id != s[k].mal_id by {
        assert(mal_ids(s.drop_last())[m] == s[m].mal_id);
    }
}

/// Of the references that share an identifier, the first one met is the one kept.
pub proof fn lemma_first_by_mal_id_keeps_first(s: Seq<CommonMalResponse>)
    ensures
        forall|i: int|
            0 <= i < first_by_mal_id(s).len() ==> met_first(s, #[trigger] first_by_mal_id(s)[i]),
    decreases s.len(),
{
    if s.len() > 0 {
        let init = s.drop_last();
        lemma_first_by_mal_id_keeps_first(init);
        let before = first_by_mal_id(init);
        let r = first_by_mal_id(s);
        assert forall|i: int| 0 <= i < r.len() implies met_first(s, #[trigger] r[i]) by {
            if i < before.len() {
                assert(r[i] == before[i]);
                assert(met_first(init, before[i]));
                let k = choose|k: int| #![trigger init[k]] first_of_its_id(init, k) && init[k] == before[i];
                lemma_first_in_prefix(s, k);
                assert(s[k] == r[i]);
            } else {
                assert(r[i] == s.last());
                lemma_last_is_first(s);
                assert(s[s.len() - 1] == r[i]);
            }
        }
    }
}

/// Whether, in `s`, `q1` is met first with its identifier before `q2` is met first with its own.
pub open spec fn met_first_before(s: Seq<CommonMalResponse>, q1: CommonMalResponse, q2: CommonMalResponse) -> bool {
    exists|k1: int, k2: int|
        #![trigger s[k1], s[k2]]
        k1 < k2 && first_of_its_id(s, k1) && s[k1] == q1 && first_of_its_id(s, k2) && s[k2] == q2
}

/// The references kept come in the order in which their identifiers are first met.
#[verifier::rlimit(30)]
pub proof fn lemma_first_by_mal_id_in_order(s: Seq<CommonMalResponse>)
    ensures
        forall|i: int, j: int|
            0 <= i < j < first_by_mal_id(s).len() ==> met_first_before(
                s,
                #[trigger] first_by_mal_id(s)[i],
                #[trigger] first_by_mal_id(s)[j],
            ),
    decreases s.len(),
{
    if s.len() > 0 {
        let init = s.drop_last();
        lemma_first_by_mal_id_in_order(init);
        lemma_first_by_mal_id_keeps_first(init);
        let before = first_by_mal_id(init);
        let r = first_by_mal_id(s);
        assert forall|i: int, j: int| 0 <= i < j < r.len() implies met_first_before(
            s,
            #[trigger] r[i],
            #[trigger] r[j],
        ) by {
            assert(r[i] == before[i]);
            if j < before.len() {
                assert(r[j] == before[j]);
                assert(met_first_before(init, before[i], before[j]));
                let (k1, k2) = choose|k1: int, k2: int|
                    #![trigger init[k1], init[k2]]
                    k1 < k2 && first_of_its_id(init, k1) && init[k1] == before[i] && first_of_its_id(
                        init,
                        k2,
                    ) && init[k2] == before[j];
                lemma_first_in_prefix(s, k1);
                lemma_first_in_prefix(s, k2);
                assert(s[k1] == r[i] && s[k2] == r[j]);
            } else {
                assert(met_first(init, before[i]));
                let k1 = choose|k1: int| #![trigger init[k1]] first_of_its_id(init, k1) && init[k1] == before[i];
                lemma_first_in_prefix(s, k1);
                assert(r[j] == s.last());
                lemma_last_is_first(s);
                assert(s[k1] == r[i] && s[s.len() - 1] == r[j]);
            }
        }
    }
}

/// The fields a hand edit of a producer sets: it is marked as edited by hand, then the name and
/// link that the request carries.
pub fn update_fields(body: UpdateProducerRequest) -> (fields: Vec<ProducerField>)
    ensures
        fields@ == seq![ProducerField::ManuallyEdited(true)] + (match body.name {
            Some(n) => seq![ProducerField::Name(n)],
            None => Seq::empty(),
        }) + (match body.url {
            Some(u) => seq![ProducerField::Url(u)],
            None => Seq::empty(),
        }),
{
    let mut fields: Vec<ProducerField> = Vec::new();
    fields.push(ProducerField::ManuallyEdited(true));
    match body.name {
        Some(n) => fields.push(ProducerField::Name(n)),
        None => {},
    }
    match body.url {
        Some(u) => fields.push(ProducerField::Url(u)),
        None => {},
    }
    assert(fields@ =~= seq![ProducerField::ManuallyEdited(true)] + (match body.name {
        Some(n) => seq![ProducerField::Name(n)],
        None => Seq::empty(),
    }) + (match body.url {
        Some(u) => seq![ProducerField::Url(u)],
        None => Seq::empty(),
    }));
    fields
}

/// The answer to a lookup of the producer with catalogue identifier `mal_id`.
pub fn found_producer(found: Option<ProducerDTO>, mal_id: i64) -> (r: Result<ProducerDTO, ApiError>)
    ensures
        match r {
            Ok(p) => found == Some(p),
            Err(e) => found is None && e@ == ApiErrorView::NotFound(
                "Producer with mal_id "@ + decimal(mal_id as int) + " not found"@,
            ),
        },
{
    match found {
        Some(p) => Ok(p),
        None => {
            let mut msg = String::from_str("Producer with mal_id ");
            push_decimal(&mut msg, mal_id);
            msg.append(" not found");
            Err(ApiError::NotFound(msg))
        },
    }
}

/// The refusal of an edit of the producer with catalogue identifier `mal_id`, which is not
/// stored.
pub fn producer_missing(mal_id: u32) -> (e: ApiError)
    ensures
        e@ == ApiErrorView::NotFound("Producer "@ + decimal(mal_id as int) + " not found"@),
{
    let mut msg = String::from_str("Producer ");
    push_decimal(&mut msg, mal_id as i64);
    msg.append(" not found");
    ApiError::NotFound(msg)
}

} // verus!
