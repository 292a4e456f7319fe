use vstd::prelude::*;
use crate::text::{is_white_space, lemma_trim_shape, opt_view, trim, trimmed};

verus! {

/// Direction of a sorted listing.
#[derive(Debug, Clone, Copy, PartialEq, Eq)]
pub enum SortOrder {
    Asc,
    Desc,
}

/// A case-insensitive regular-expression match of a document field against a pattern.
#[derive(Debug, PartialEq, Eq)]
pub struct RegexFilter {
    pub field: String,
    pub pattern: String,
}

/// The field a listing is sorted by, and the direction: 1 ascending, -1 descending.
#[derive(Debug, PartialEq, Eq)]
pub struct SortKey {
    pub field: String,
    pub direction: i32,
}

/// The sort direction used when a listing asks for descending order and ascending otherwise.
pub open spec fn ascending_unless_desc(order: Option<SortOrder>) -> i32 {
    match order {
        Some(SortOrder::Desc) => -1i32,
        _ => 1,
    }
}

/// A listing runs in descending order (-1) only when that is asked for, and in ascending order
/// (1) otherwise, also when no order is given.
pub proof fn lemma_ascending_unless_desc(order: Option<SortOrder>)
    ensures
        order == Some(SortOrder::Desc) ==> ascending_unless_desc(order) == -1,
        order != Some(SortOrder::Desc) ==> ascending_unless_desc(order) == 1,
{
}

/// A case-insensitive match of `field` against the trimmed `value`, when something is left of
/// it after trimming.
pub open spec fn trimmed_match(value: Option<Seq<char>>) -> Option<Seq<char>> {
    match value {
        Some(v) => if trim(v).len() > 0 {
            Some(trim(v))
        } else {
            None
        },
        None => None,
    }
}

/// A filter value is matched without the white space around it: the pattern is a non-empty
/// part `v[a..b]` of the value, cut only of white space and neither starting nor ending with
/// it; a value that is absent or all white space gives no filter.
pub proof fn lemma_trimmed_match_shape(value: Option<Seq<char>>)
    ensures
        value is None ==> trimmed_match(value) is None,
        value matches Some(v) ==> match trimmed_match(value) {
            Some(p) => p.len() > 0 && !is_white_space(p[0]) && !is_white_space(p.last()) && exists|
                a: int,
                b: int,
            |
                0 <= a <= b <= v.len() && p == v.subrange(a, b) && (forall|i: int|
                    0 <= i < a ==> is_white_space(#[trigger] v[i])) && (forall|i: int|
                    b <= i < v.len() ==> is_white_space(#[trigger] v[i])),
            None => forall|i: int| 0 <= i < v.len() ==> is_white_space(#[trigger] v[i]),
        },
{
    if let Some(v) = value {
        let (a, b) = lemma_trim_shape(v);
        if trim(v).len() == 0 {
            assert forall|i: int| 0 <= i < v.len() implies is_white_space(#[trigger] v[i]) by {
                if a <= i < b {
                    assert(b - a == 0);
                }
            }
        }
    }
}

/// A filter on `field` that matches the trimmed `value`, unless nothing is left after trimming.
pub(crate) fn trimmed_filter(field: &str, value: &Option<String>) -> (r: Option<RegexFilter>)
    ensures
        match r {
            Some(f) => f.field@ == field@ && trimmed_match(opt_view(*value)) == Some(
                f.pattern@,
            ),
            None => trimmed_match(opt_view(*value)) is None,
        },
{
    match value {
        Some(v) => {
            let t = trimmed(v.as_str());
            if t.as_str().is_empty() {
                None
            } else {
                Some(RegexFilter { field: String::from_str(field), pattern: t })
            }
        },
        None => None,
    }
}

/// A sort key on `field` in direction `direction`.
pub(crate) fn sort_key(field: &str, direction: i32) -> (k: SortKey)
    ensures
        k.field@ == field@,
        k.direction == direction,
{
    SortKey { field: String::from_str(field), direction }
}

/// The direction of a listing that is ascending unless descending order is asked for.
pub(crate) fn direction_of(order: Option<SortOrder>) -> (d: i32)
    ensures
        d == ascending_unless_desc(order),
{
    match order {
        Some(SortOrder::Desc) => -1,
        _ => 1,
    }
}

} // verus!
