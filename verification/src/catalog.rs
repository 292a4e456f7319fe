use vstd::prelude::*;
use crate::errors::{ApiError, ApiErrorView};
use crate::listing::{sort_key, RegexFilter, SortKey, SortOrder};
use crate::pagination::{last_visible_page_of_count, page_count, Pagination, PaginationItems};
use crate::text::{
    chars_of, decimal, decimal_digits, digit_char, parse_u32_range, parse_u32_spec, push_decimal, split_on, trim,
    trim_bounds,
};

verus! {

/// The identifiers read from comma-separated pieces: each piece is trimmed and parsed as a
/// `u32`; pieces that do not parse are skipped.
pub open spec fn parsed_ids(pieces: Seq<Seq<char>>) -> Seq<u32>
    decreases pieces.len(),
{
    if pieces.len() == 0 {
        Seq::empty()
    } else {
        let before = parsed_ids(pieces.drop_last());
        match parse_u32_spec(trim(pieces.last())) {
            Some(v) => before.push(v),
            None => before,
        }
    }
}

/// The identifiers listed in `raw`, such as `"1, 2,x,3"`.
pub open spec fn id_list(raw: Seq<char>) -> Seq<u32> {
    parsed_ids(split_on(raw, ','))
}

/// Reads a comma-separated list of anime identifiers; fails when none of the pieces is one.
pub fn parse_id_list(raw: &str) -> (r: Result<Vec<u32>, ApiError>)
    ensures
        match r {
            Ok(ids) => ids@ == id_list(raw@) && ids@.len() > 0,
            Err(e) => id_list(raw@).len() == 0 && e@ == ApiErrorView::BadRequest(
                "No valid ids provided"@,
            ),
        },
{
    let chars = chars_of(raw);
    let mut ids: Vec<u32> = Vec::new();
    let mut start: usize = 0;
    let mut i: usize = 0;
    proof {
        assert(chars@.take(0) =~= Seq::<char>::empty());
        assert(split_on(chars@.take(0), ',') =~= seq![Seq::<char>::empty()]);
        assert(chars@.subrange(0, 0) =~= Seq::<char>::empty());
        assert(split_on(chars@.take(0), ',').drop_last() =~= Seq::<Seq<char>>::empty());
    }
    while i < chars.len()
        invariant
            start <= i <= chars.len(),
            chars@ == raw@,
            split_on(chars@.take(i as int), ',').len() >= 1,
            split_on(chars@.take(i as int), ',').last() == chars@.subrange(start as int, i as int),
            ids@ == parsed_ids(split_on(chars@.take(i as int), ',').drop_last()),
        decreases chars.len() - i,
    {
        let ghost before = split_on(chars@.take(i as int), ',');
        proof {
            assert(chars@.take(i + 1).drop_last() =~= chars@.take(i as int));
            assert(chars@.take(i + 1).last() == chars@[i as int]);
        }
        if chars[i] == ',' {
            let (lo, hi) = trim_bounds(&chars, start, i);
            let v = parse_u32_range(&chars, lo, hi);
            match v {
                Some(x) => ids.push(x),
                None => {},
            }
            proof {
                let after = split_on(chars@.take(i + 1), ',');
                assert(after == before.push(Seq::empty()));
                assert(after.drop_last() =~= before);
                assert(after.last() =~= chars@.subrange(i + 1, i + 1));
            }
            start = i + 1;
        } else {
            proof {
                let after = split_on(chars@.take(i + 1), ',');
                assert(after.drop_last() =~= before.drop_last());
                assert(after.last() =~= chars@.subrange(start as int, i + 1));
            }
        }
        i = i + 1;
    }
    let (lo, hi) = trim_bounds(&chars, start, chars.len());
    let v = parse_u32_range(&chars, lo, hi);
    match v {
        Some(x) => ids.push(x),
        None => {},
    }
    proof {
        assert(chars@.take(chars@.len() as int) =~= chars@);
    }
    if ids.len() == 0 {
        Err(ApiError::BadRequest(String::from_str("No valid ids provided")))
    } else {
        Ok(ids)
    }
}


/// Whether a comma-separated piece names an identifier once trimmed.
pub open spec fn piece_is_id(piece: Seq<char>) -> bool {
    parse_u32_spec(trim(piece)) is Some
}

/// The test that keeps the pieces naming an identifier.
pub open spec fn id_piece() -> spec_fn(Seq<char>) -> bool {
    |piece: Seq<char>| piece_is_id(piece)
}

/// The identifier a piece names once trimmed (0 when it names none).
pub open spec fn id_value() -> spec_fn(Seq<char>) -> u32 {
    |piece: Seq<char>|
        match parse_u32_spec(trim(piece)) {
            Some(v) => v,
            None => 0,
        }
}

proof fn lemma_parsed_ids_of_id_pieces(pieces: Seq<Seq<char>>)
    ensures
        parsed_ids(pieces) == pieces.filter(id_piece()).map_values(id_value()),
    decreases pieces.len(),
{
    reveal(Seq::filter);
    if pieces.len() > 0 {
        let init = pieces.drop_last();
        lemma_parsed_ids_of_id_pieces(init);
        let kept = pieces.filter(id_piece());
        if piece_is_id(pieces.last()) {
            assert(kept == init.filter(id_piece()).push(pieces.last()));
            assert(kept.map_values(id_value()) =~= init.filter(id_piece()).map_values(id_value()).push(
                id_value()(pieces.last()),
            ));
        } else {
            assert(kept == init.filter(id_piece()));
        }
    } else {
        assert(pieces.filter(id_piece()).map_values(id_value()) =~= Seq::<u32>::empty());
    }
}

/// Pieces that do not name an identifier are ignored: two lists whose pieces naming
/// identifiers name the same identifiers, in the same order, give the same list (such as
/// `" 5 , x,7"` and `"5,7"`).
pub proof fn lemma_unparsed_pieces_ignored(raw: Seq<char>, other: Seq<char>)
    requires
        split_on(raw, ',').filter(id_piece()).map_values(id_value()) == split_on(
            other,
            ',',
        ).filter(id_piece()).map_values(id_value()),
    ensures
        id_list(raw) == id_list(other),
{
    lemma_parsed_ids_of_id_pieces(split_on(raw, ','));
    lemma_parsed_ids_of_id_pieces(split_on(other, ','));
}

/// Identifiers written in decimal and separated by commas.
pub open spec fn joined_ids(ids: Seq<u32>) -> Seq<char>
    decreases ids.len(),
{
    if ids.len() == 0 {
        Seq::empty()
    } else if ids.len() == 1 {
        decimal(ids[0] as int)
    } else {
        joined_ids(ids.drop_last()) + seq![','] + decimal(ids.last() as int)
    }
}

proof fn lemma_split_without_separator(b: Seq<char>, sep: char)
    requires
        !b.contains(sep),
    ensures
        split_on(b, sep) == seq![b],
    decreases b.len(),
{
    if b.len() > 0 {
        let init = b.drop_last();
        assert(!init.contains(sep)) by {
            if init.contains(sep) {
                let k = choose|k: int| 0 <= k < init.len() && init[k] == sep;
                assert(b[k] == sep);
            }
        }
        lemma_split_without_separator(init, sep);
        assert(b[b.len() - 1] != sep);
        assert(init.push(b.last()) =~= b);
        assert(seq![init].update(0, init.push(b.last())) =~= seq![b]);
    } else {
        assert(b =~= Seq::<char>::empty());
    }
}

proof fn lemma_split_after_separator(a: Seq<char>, b: Seq<char>, sep: char)
    requires
        !b.contains(sep),
    ensures
        split_on(a + seq![sep] + b, sep) == split_on(a, sep).push(b),
    decreases b.len(),
{
    let whole = a + seq![sep] + b;
    if b.len() == 0 {
        assert(whole.drop_last() =~= a);
        assert(whole.last() == sep);
        assert(b =~= Seq::<char>::empty());
    } else {
        let init = b.drop_last();
        assert(!init.contains(sep)) by {
            if init.contains(sep) {
                let k = choose|k: int| 0 <= k < init.len() && init[k] == sep;
                assert(b[k] == sep);
            }
        }
        lemma_split_after_separator(a, init, sep);
        assert(whole.drop_last() =~= a + seq![sep] + init);
        assert(whole.last() == b.last());
        assert(b[b.len() - 1] != sep);
        let prev = split_on(a, sep).push(init);
        assert(init.push(b.last()) =~= b);
        assert(prev.update(prev.len() - 1, prev.last().push(b.last())) =~= split_on(a, sep).push(b));
    }
}

proof fn lemma_decimal_digits_shape(n: nat)
    ensures
        decimal_digits(n).len() >= 1,
        crate::text::all_digits(decimal_digits(n)),
        crate::text::digits_value(decimal_digits(n)) == n,
    decreases n,
{
    let d = decimal_digits(n);
    assert((n % 10) + 48 < 0xD800);
    assert(digit_char((n % 10) as int) as int == (n % 10) + 48);
    if n >= 10 {
        lemma_decimal_digits_shape(n / 10);
        assert(d.drop_last() =~= decimal_digits(n / 10));
        assert(n == (n / 10) * 10 + n % 10);
        assert(d.last() == digit_char((n % 10) as int));
        assert((d.last() as nat - 48) as nat == n % 10);
        assert(crate::text::digits_value(d) == crate::text::digits_value(d.drop_last()) * 10 + (
        d.last() as nat - 48) as nat);
        assert forall|i: int| 0 <= i < d.len() implies crate::text::is_digit(#[trigger] d[i]) by {
            if i < d.len() - 1 {
                assert(d[i] == decimal_digits(n / 10)[i]);
            }
        }
    } else {
        assert(d.drop_last() =~= Seq::<char>::empty());
        assert(n % 10 == n);
        assert(d.last() == digit_char(n as int));
        assert((d.last() as nat - 48) as nat == n);
        assert(crate::text::digits_value(d.drop_last()) == 0);
        assert(crate::text::digits_value(d) == crate::text::digits_value(d.drop_last()) * 10 + (
        d.last() as nat - 48) as nat);
    }
}

/// A `u32` written in decimal holds no comma and no surrounding white space, and parses back to
/// the same number.
pub proof fn lemma_decimal_reads_back(n: u32)
    ensures
        !decimal(n as int).contains(','),
        trim(decimal(n as int)) == decimal(n as int),
        parse_u32_spec(decimal(n as int)) == Some(n),
{
    let d = decimal(n as int);
    lemma_decimal_digits_shape(n as nat);
    assert(!d.contains(',')) by {
        if d.contains(',') {
            let k = choose|k: int| 0 <= k < d.len() && d[k] == ',';
            assert(crate::text::is_digit(d[k]));
        }
    }
    assert(crate::text::is_digit(d[0]));
    assert(crate::text::is_digit(d.last()));
    assert(crate::text::trim_start(d) == d);
    assert(crate::text::trim_end(d) == d);
}

/// Identifiers written in decimal and joined by commas are read back as the same list.
pub proof fn lemma_listed_ids_read_back(ids: Seq<u32>)
    requires
        ids.len() > 0,
    ensures
        id_list(joined_ids(ids)) == ids,
    decreases ids.len(),
{
    let last = ids.last();
    lemma_decimal_reads_back(last);
    if ids.len() == 1 {
        lemma_split_without_separator(decimal(last as int), ',');
        let pieces = seq![decimal(last as int)];
        assert(pieces.drop_last() =~= Seq::<Seq<char>>::empty());
        assert(parsed_ids(pieces.drop_last()) == Seq::<u32>::empty());
        assert(parsed_ids(pieces) =~= seq![last]);
        assert(ids =~= seq![last]);
    } else {
        let init = ids.drop_last();
        lemma_listed_ids_read_back(init);
        lemma_split_after_separator(joined_ids(init), decimal(last as int), ',');
        assert(joined_ids(ids) == joined_ids(init) + seq![','] + decimal(last as int));
        let pieces = split_on(joined_ids(ids), ',');
        assert(pieces == split_on(joined_ids(init), ',').push(decimal(last as int)));
        assert(pieces.drop_last() =~= split_on(joined_ids(init), ','));
        assert(pieces.last() == decimal(last as int));
        assert(parsed_ids(pieces) == parsed_ids(pieces.drop_last()).push(last));
        assert(ids =~= init.push(last));
    }
}

/// Query of the local anime listing.
#[derive(Debug, Clone, Copy, PartialEq, Eq)]
pub struct AnimeListParams {
    pub page: i32,
    pub limit: i32,
    pub sort_by: Option<AnimeListSortBy>,
    pub order: Option<SortOrder>,
}

/// The fields the local anime listing can be sorted by.
#[derive(Debug, Clone, Copy, PartialEq, Eq)]
pub enum AnimeListSortBy {
    Score,
    Rank,
    Popularity,
    Year,
    Episodes,
}

/// Query of an anime search.
#[derive(Debug)]
pub struct AnimeSearchParams {
    pub q: String,
}

/// The page of the local anime listing to read: the page number is at least 1, the page size
/// at most 100, and `skip` items come before the page.
#[derive(Debug, Clone, Copy, PartialEq, Eq)]
pub struct AnimeListWindow {
    pub page: i32,
    pub limit: i32,
    pub skip: i64,
}

/// The page number the local listing reads: at least 1.
pub open spec fn listing_page(params: AnimeListParams) -> int {
    if params.page < 1 {
        1
    } else {
        params.page as int
    }
}

/// The page size the local listing uses: at most 100.
pub open spec fn listing_limit(params: AnimeListParams) -> int {
    if params.limit > 100 {
        100
    } else {
        params.limit as int
    }
}

/// The local listing reads the page asked for when it is at least 1 and page 1 otherwise, and
/// uses the page size asked for up to 100, and 100 for a larger one.
pub proof fn lemma_listing_window_bounds(params: AnimeListParams)
    ensures
        listing_page(params) >= 1,
        params.page >= 1 ==> listing_page(params) == params.page,
        params.page < 1 ==> listing_page(params) == 1,
        listing_limit(params) <= 100,
        params.limit <= 100 ==> listing_limit(params) == params.limit,
        params.limit > 100 ==> listing_limit(params) == 100,
{
}

/// The page window of the local anime listing.
pub fn anime_list_window(params: &AnimeListParams) -> (w: AnimeListWindow)
    requires
        i32::MIN <= (listing_page(*params) - 1) * listing_limit(*params) <= i32::MAX,
    ensures
        w.page == listing_page(*params),
        w.limit == listing_limit(*params),
        w.skip == (w.page - 1) * w.limit,
{
    let limit = if params.limit > 100 {
        100
    } else {
        params.limit
    };
    let page = if params.page < 1 {
        1
    } else {
        params.page
    };
    let skip = (page - 1) * limit;
    AnimeListWindow { page, limit, skip: skip as i64 }
}

/// The document field of a local listing sort; by score when none is asked for.
pub open spec fn anime_sort_field(by: Option<AnimeListSortBy>) -> Seq<char> {
    match by {
        Some(AnimeListSortBy::Rank) => "rank"@,
        Some(AnimeListSortBy::Popularity) => "popularity"@,
        Some(AnimeListSortBy::Year) => "year"@,
        Some(AnimeListSortBy::Episodes) => "episodes"@,
        _ => "score"@,
    }
}

/// Each way of sorting the local listing sorts on the document field of its own name; with none
/// asked for, the listing is sorted by score.
pub proof fn lemma_sort_field_names(by: Option<AnimeListSortBy>)
    ensures
        by == Some(AnimeListSortBy::Score) ==> anime_sort_field(by) == "score"@,
        by == Some(AnimeListSortBy::Rank) ==> anime_sort_field(by) == "rank"@,
        by == Some(AnimeListSortBy::Popularity) ==> anime_sort_field(by) == "popularity"@,
        by == Some(AnimeListSortBy::Year) ==> anime_sort_field(by) == "year"@,
        by == Some(AnimeListSortBy::Episodes) ==> anime_sort_field(by) == "episodes"@,
        by is None ==> anime_sort_field(by) == anime_sort_field(Some(AnimeListSortBy::Score)),
{
}

/// Distinct ways of sorting sort on distinct fields.
pub proof fn lemma_sort_field_injective(a: AnimeListSortBy, b: AnimeListSortBy)
    ensures
        anime_sort_field(Some(a)) == anime_sort_field(Some(b)) ==> a == b,
{
    reveal_strlit("score");
    reveal_strlit("rank");
    reveal_strlit("popularity");
    reveal_strlit("year");
    reveal_strlit("episodes");
    let fa = anime_sort_field(Some(a));
    let fb = anime_sort_field(Some(b));
    if fa == fb {
        assert(fa.len() == fb.len());
        if fa.len() > 0 {
            assert(fa[0] == fb[0]);
        }
    }
}

/// The sort of the local anime listing: descending unless ascending order is asked for.
pub fn anime_list_sort(params: &AnimeListParams) -> (k: SortKey)
    ensures
        k.field@ == anime_sort_field(params.sort_by),
        k.direction == (match params.order {
            Some(SortOrder::Asc) => 1i32,
            _ => -1i32,
        }),
{
    let direction: i32 = match params.order {
        Some(SortOrder::Asc) => 1,
        _ => -1,
    };
    match params.sort_by {
        Some(AnimeListSortBy::Rank) => sort_key("rank", direction),
        Some(AnimeListSortBy::Popularity) => sort_key("popularity", direction),
        Some(AnimeListSortBy::Year) => sort_key("year", direction),
        Some(AnimeListSortBy::Episodes) => sort_key("episodes", direction),
        _ => sort_key("score", direction),
    }
}

/// The paging block of the local anime listing, for `total` stored anime of which `count`
/// are on this page.
pub fn anime_list_pagination(window: &AnimeListWindow, total: u64, count: usize) -> (p: Pagination)
    ensures
        p.last_visible_page == page_count(
            total as int,
            window.limit as int,
            i32::MIN as int,
            i32::MAX as int,
        ),
        p.has_next_page == (window.page < p.last_visible_page),
        p.current_page == window.page,
        p.items.count == count as i32,
        p.items.total == total as i32,
        p.items.per_page == window.limit,
{
    let last = last_visible_page_of_count(total, window.limit as i64);
    Pagination {
        last_visible_page: last,
        has_next_page: window.page < last,
        current_page: window.page,
        items: PaginationItems { count: count as i32, total: total as i32, per_page: window.limit },
    }
}

/// The filter of a search in the local store: a case-insensitive match of the English title
/// against the query as given.
pub fn local_search_filter(params: &AnimeSearchParams) -> (f: RegexFilter)
    ensures
        f.field@ == "titles.english"@,
        f.pattern@ == params.q@,
{
    RegexFilter { field: String::from_str("titles.english"), pattern: params.q.clone() }
}

/// The refusal of a lookup of the stored anime `id`, which is not there.
pub fn anime_not_found(id: i32) -> (e: ApiError)
    ensures
        e@ == ApiErrorView::NotFound("Anime "@ + decimal(id as int) + " not found"@),
{
    let mut msg = String::from_str("Anime ");
    push_decimal(&mut msg, id as i64);
    msg.append(" not found");
    ApiError::NotFound(msg)
}

/// The refusal of an update of the stored anime `id`, which is not there.
pub fn anime_update_target_missing(id: i32) -> (e: ApiError)
    ensures
        e@ == ApiErrorView::NotFound("Anime with id "@ + decimal(id as int) + " not found"@),
{
    let mut msg = String::from_str("Anime with id ");
    push_decimal(&mut msg, id as i64);
    msg.append(" not found");
    ApiError::NotFound(msg)
}

/// Whether an anime may be created under the catalogue identifier `mal_id`: only when none is
/// stored under it yet.
pub fn check_new_anime(already_stored: bool, mal_id: u32) -> (r: Result<(), ApiError>)
    ensures
        match r {
            Ok(()) => !already_stored,
            Err(e) => already_stored && e@ == ApiErrorView::Conflict(
                "Anime with mal_id "@ + decimal(mal_id as int) + " already exists"@,
            ),
        },
{
    if already_stored {
        let mut msg = String::from_str("Anime with mal_id ");
        push_decimal(&mut msg, mal_id as i64);
        msg.append(" already exists");
        Err(ApiError::Conflict(msg))
    } else {
        Ok(())
    }
}

/// Which fields of a stored anime an update request carries.
#[derive(Debug, Clone, Copy, PartialEq, Eq)]
pub struct AnimeChanges {
    pub url: bool,
    pub titles: bool,
    pub anime_type: bool,
    pub episodes: bool,
    pub status: bool,
    pub airing: bool,
    pub rating: bool,
    pub score: bool,
    pub scored_by: bool,
    pub rank: bool,
    pub popularity: bool,
    pub synopsis: bool,
    pub background: bool,
    pub year: bool,
    pub genres: bool,
    pub studios: bool,
    pub producers: bool,
}

/// Each field of an update request, whether it is set, with the document key it is stored
/// under, in the order of the request's fields; the producers are stored under `producer_ids`.
pub open spec fn change_list(c: AnimeChanges) -> Seq<(bool, Seq<char>)> {
    seq![
        (c.url, "url"@),
        (c.titles, "titles"@),
        (c.anime_type, "type"@),
        (c.episodes, "episodes"@),
        (c.status, "status"@),
        (c.airing, "airing"@),
        (c.rating, "rating"@),
        (c.score, "score"@),
        (c.scored_by, "scored_by"@),
        (c.rank, "rank"@),
        (c.popularity, "popularity"@),
        (c.synopsis, "synopsis"@),
        (c.background, "background"@),
        (c.year, "year"@),
        (c.genres, "genres"@),
        (c.studios, "studios"@),
        (c.producers, "producer_ids"@),
    ]
}

/// The keys of the fields that are set, in order.
pub open spec fn keys_set(l: Seq<(bool, Seq<char>)>) -> Seq<Seq<char>>
    decreases l.len(),
{
    if l.len() == 0 {
        Seq::empty()
    } else if l.last().0 {
        keys_set(l.drop_last()).push(l.last().1)
    } else {
        keys_set(l.drop_last())
    }
}

/// The document keys an anime update sets.
pub open spec fn update_keys(c: AnimeChanges) -> Seq<Seq<char>> {
    keys_set(change_list(c))
}

/// No two entries of `l` name the same key.
pub open spec fn distinct_keys(l: Seq<(bool, Seq<char>)>) -> bool {
    forall|i: int, j: int| 0 <= i < l.len() && 0 <= j < l.len() && i != j ==> #[trigger] l[i].1 != #[trigger] l[j].1
}

/// A key is among those set exactly when some entry that is set names it.
proof fn lemma_keys_set_contains(l: Seq<(bool, Seq<char>)>, k: Seq<char>)
    ensures
        keys_set(l).contains(k) <==> exists|i: int| 0 <= i < l.len() && #[trigger] l[i].0 && l[i].1 == k,
    decreases l.len(),
{
    if l.len() > 0 {
        let init = l.drop_last();
        lemma_keys_set_contains(init, k);
        if keys_set(l).contains(k) {
            if l.last().0 && l.last().1 == k {
                assert(l[l.len() - 1].0);
            } else {
                assert(keys_set(init).contains(k)) by {
                    if l.last().0 {
                        let m = choose|m: int| 0 <= m < keys_set(l).len() && keys_set(l)[m] == k;
                        assert(m < keys_set(init).len());
                        assert(keys_set(init)[m] == k);
                    }
                }
                let i = choose|i: int| 0 <= i < init.len() && #[trigger] init[i].0 && init[i].1 == k;
                assert(l[i] == init[i]);
            }
        }
        if exists|i: int| 0 <= i < l.len() && #[trigger] l[i].0 && l[i].1 == k {
            let i = choose|i: int| 0 <= i < l.len() && #[trigger] l[i].0 && l[i].1 == k;
            if i == l.len() - 1 {
                assert(keys_set(l)[keys_set(l).len() - 1] == k);
            } else {
                assert(init[i] == l[i]);
                assert(keys_set(init).contains(k));
                let m = choose|m: int| 0 <= m < keys_set(init).len() && keys_set(init)[m] == k;
                assert(keys_set(l)[m] == k);
            }
        }
    }
}

/// With distinct keys, no key is set twice.
proof fn lemma_keys_set_no_duplicates(l: Seq<(bool, Seq<char>)>)
    requires
        distinct_keys(l),
    ensures
        keys_set(l).no_duplicates(),
    decreases l.len(),
{
    if l.len() > 0 {
        let init = l.drop_last();
        assert(distinct_keys(init)) by {
            assert forall|i: int, j: int| 0 <= i < init.len() && 0 <= j < init.len() && i != j implies #[trigger] init[i].1
                != #[trigger] init[j].1 by {
                assert(init[i] == l[i] && init[j] == l[j]);
            }
        }
        lemma_keys_set_no_duplicates(init);
        if l.last().0 {
            lemma_keys_set_contains(init, l.last().1);
            if keys_set(init).contains(l.last().1) {
                let i = choose|i: int| 0 <= i < init.len() && #[trigger] init[i].0 && init[i].1 == l.last().1;
                assert(l[i] == init[i]);
                assert(l[i].1 != l[l.len() - 1].1);
            }
        }
    }
}

/// The keys of an update's fields are all different.
#[verifier::rlimit(30)]
proof fn lemma_change_keys_distinct(c: AnimeChanges)
    ensures
        distinct_keys(change_list(c)),
{
    reveal_strlit("airing");
    reveal_strlit("background");
    reveal_strlit("episodes");
    reveal_strlit("genres");
    reveal_strlit("popularity");
    reveal_strlit("producer_ids");
    reveal_strlit("rank");
    reveal_strlit("rating");
    reveal_strlit("score");
    reveal_strlit("scored_by");
    reveal_strlit("status");
    reveal_strlit("studios");
    reveal_strlit("synopsis");
    reveal_strlit("titles");
    reveal_strlit("type");
    reveal_strlit("url");
    reveal_strlit("year");
    let l = change_list(c);
    assert forall|i: int, j: int| 0 <= i < l.len() && 0 <= j < l.len() && i != j implies #[trigger] l[i].1
        != #[trigger] l[j].1 by {
        if l[i].1.len() == l[j].1.len() {
            assert(l[i].1[0] != l[j].1[0]);
        }
    }
}

/// The key of the `n`-th field of an update is set exactly when the update carries that field.
proof fn lemma_change_key_set_iff(c: AnimeChanges, n: int)
    requires
        0 <= n < change_list(c).len(),
    ensures
        update_keys(c).contains(change_list(c)[n].1) <==> change_list(c)[n].0,
{
    let l = change_list(c);
    lemma_change_keys_distinct(c);
    lemma_keys_set_contains(l, l[n].1);
    if keys_set(l).contains(l[n].1) {
        let i = choose|i: int| 0 <= i < l.len() && #[trigger] l[i].0 && l[i].1 == l[n].1;
        assert(i == n);
    }
}

/// An update sets the document key of each field it carries, named after the field (the
/// producers under `producer_ids`), and no key of a field it leaves out.
#[verifier::rlimit(30)]
pub proof fn lemma_update_keys_name_the_fields(c: AnimeChanges)
    ensures
        update_keys(c).contains("url"@) <==> c.url,
        update_keys(c).contains("titles"@) <==> c.titles,
        update_keys(c).contains("type"@) <==> c.anime_type,
        update_keys(c).contains("episodes"@) <==> c.episodes,
        update_keys(c).contains("status"@) <==> c.status,
        update_keys(c).contains("airing"@) <==> c.airing,
        update_keys(c).contains("rating"@) <==> c.rating,
        update_keys(c).contains("score"@) <==> c.score,
        update_keys(c).contains("scored_by"@) <==> c.scored_by,
        update_keys(c).contains("rank"@) <==> c.rank,
        update_keys(c).contains("popularity"@) <==> c.popularity,
        update_keys(c).contains("synopsis"@) <==> c.synopsis,
        update_keys(c).contains("background"@) <==> c.background,
        update_keys(c).contains("year"@) <==> c.year,
        update_keys(c).contains("genres"@) <==> c.genres,
        update_keys(c).contains("studios"@) <==> c.studios,
        update_keys(c).contains("producer_ids"@) <==> c.producers,
{
    let l = change_list(c);
    assert(l[0] == (c.url, "url"@));
    assert(l[1] == (c.titles, "titles"@));
    assert(l[2] == (c.anime_type, "type"@));
    assert(l[3] == (c.episodes, "episodes"@));
    assert(l[4] == (c.status, "status"@));
    assert(l[5] == (c.airing, "airing"@));
    assert(l[6] == (c.rating, "rating"@));
    assert(l[7] == (c.score, "score"@));
    assert(l[8] == (c.scored_by, "scored_by"@));
    assert(l[9] == (c.rank, "rank"@));
    assert(l[10] == (c.popularity, "popularity"@));
    assert(l[11] == (c.synopsis, "synopsis"@));
    assert(l[12] == (c.background, "background"@));
    assert(l[13] == (c.year, "year"@));
    assert(l[14] == (c.genres, "genres"@));
    assert(l[15] == (c.studios, "studios"@));
    assert(l[16] == (c.producers, "producer_ids"@));
    lemma_change_key_set_iff(c, 0);
    lemma_change_key_set_iff(c, 1);
    lemma_change_key_set_iff(c, 2);
    lemma_change_key_set_iff(c, 3);
    lemma_change_key_set_iff(c, 4);
    lemma_change_key_set_iff(c, 5);
    lemma_change_key_set_iff(c, 6);
    lemma_change_key_set_iff(c, 7);
    lemma_change_key_set_iff(c, 8);
    lemma_change_key_set_iff(c, 9);
    lemma_change_key_set_iff(c, 10);
    lemma_change_key_set_iff(c, 11);
    lemma_change_key_set_iff(c, 12);
    lemma_change_key_set_iff(c, 13);
    lemma_change_key_set_iff(c, 14);
    lemma_change_key_set_iff(c, 15);
    lemma_change_key_set_iff(c, 16);
}

/// An update sets no document key twice.
pub proof fn lemma_update_keys_distinct(c: AnimeChanges)
    ensures
        update_keys(c).no_duplicates(),
{
    lemma_change_keys_distinct(c);
    lemma_keys_set_no_duplicates(change_list(c));
}

impl AnimeChanges {
    /// The document keys the update sets; an update that sets nothing is refused.
    pub fn set_keys(&self) -> (r: Result<Vec<String>, ApiError>)
        ensures
            match r {
                Ok(keys) => keys@.map_values(|k: String| k@) == update_keys(*self) && keys@.len()
                    > 0,
                Err(e) => update_keys(*self).len() == 0 && e@ == ApiErrorView::BadRequest(
                    "No fields to update"@,
                ),
            },
    {
        let changes: Vec<(bool, &str)> = vec![
            (self.url, "url"),
            (self.titles, "titles"),
            (self.anime_type, "type"),
            (self.episodes, "episodes"),
            (self.status, "status"),
            (self.airing, "airing"),
            (self.rating, "rating"),
            (self.score, "score"),
            (self.scored_by, "scored_by"),
            (self.rank, "rank"),
            (self.popularity, "popularity"),
            (self.synopsis, "synopsis"),
            (self.background, "background"),
            (self.year, "year"),
            (self.genres, "genres"),
            (self.studios, "studios"),
            (self.producers, "producer_ids"),
        ];
        let ghost list = changes@.map_values(|p: (bool, &str)| (p.0, p.1@));
        assert(list =~= change_list(*self));
        let mut keys: Vec<String> = Vec::new();
        for i in 0..changes.len()
            invariant
                list == changes@.map_values(|p: (bool, &str)| (p.0, p.1@)),
                keys@.map_values(|k: String| k@) == keys_set(list.take(i as int)),
        {
            let ghost before = keys@;
            assert(list.take(i + 1).drop_last() =~= list.take(i as int));
            assert(list[i as int] == (changes@[i as int].0, changes@[i as int].1@));
            let (set, key) = changes[i];
            if set {
                keys.push(String::from_str(key));
                assert(keys@.map_values(|k: String| k@) =~= before.map_values(|k: String| k@).push(
                    key@,
                ));
            }
        }
        assert(list.take(changes.len() as int) =~= list);
        if keys.len() == 0 {
            Err(ApiError::BadRequest(String::from_str("No fields to update")))
        } else {
            Ok(keys)
        }
    }
}

} // verus!
