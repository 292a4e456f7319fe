use vstd::prelude::*;
use vstd::arithmetic::div_mod::{lemma_fundamental_div_mod, lemma_fundamental_div_mod_converse};

verus! {

/// Paging block of a list response, as the catalogue API returns it.
#[derive(Debug, Clone, Copy, PartialEq, Eq)]
pub struct Pagination {
    pub last_visible_page: i32,
    pub has_next_page: bool,
    pub current_page: i32,
    pub items: PaginationItems,
}

/// Item counts of a list response.
#[derive(Debug, Clone, Copy, PartialEq, Eq)]
pub struct PaginationItems {
    pub count: i32,
    pub total: i32,
    pub per_page: i32,
}

/// Paging block of the user and group listings, which report 64-bit numbers.
#[derive(Debug, Clone, Copy, PartialEq, Eq)]
pub struct PageSummary {
    pub last_visible_page: i64,
    pub has_next_page: bool,
    pub current_page: i64,
    pub count: usize,
    pub total: i64,
    pub per_page: i64,
}

/// The page to read: its number, its size and how many items come before it.
#[derive(Debug, Clone, Copy, PartialEq, Eq)]
pub struct PageWindow {
    pub per_page: i64,
    pub current_page: i64,
    pub skip: u64,
}

/// The least integer not below `t / p`, for `p != 0`.
pub open spec fn ceil_div(t: int, p: int) -> int {
    if p > 0 {
        -((-t) / p)
    } else {
        -(t / (-p))
    }
}

/// `x` brought into `[lo, hi]`.
pub open spec fn clamp(x: int, lo: int, hi: int) -> int {
    if x < lo {
        lo
    } else if x > hi {
        hi
    } else {
        x
    }
}

/// The number of the last page, `ceil(total / per_page)`, computed as the service does it: in
/// floating point, then converted to an integer type with range `[lo, hi]`, which saturates.
/// With no page size the quotient is infinite (saturating to `lo` or `hi` by the sign of
/// `total`), or undefined for an empty listing, which converts to 0.
pub open spec fn page_count(total: int, per_page: int, lo: int, hi: int) -> int {
    if per_page == 0 {
        if total > 0 {
            hi
        } else if total < 0 {
            lo
        } else {
            0
        }
    } else {
        clamp(ceil_div(total, per_page), lo, hi)
    }
}

proof fn lemma_neg_div(a: int, b: int)
    requires
        a >= 0,
        b > 0,
    ensures
        (-a) / b == -(a / b) - (if a % b == 0 {
            0int
        } else {
            1int
        }),
{
    lemma_fundamental_div_mod(a, b);
    let q = a / b;
    let r = a % b;
    assert(a == b * q + r);
    assert(0 <= r < b);
    if r == 0 {
        assert(-a == (-q) * b + 0) by (nonlinear_arith)
            requires
                a == b * q + r,
                r == 0,
        ;
        lemma_fundamental_div_mod_converse(-a, b, -q, 0);
    } else {
        assert(-a == (-q - 1) * b + (b - r)) by (nonlinear_arith)
            requires
                a == b * q + r,
        ;
        lemma_fundamental_div_mod_converse(-a, b, -q - 1, b - r);
    }
}

/// `ceil(t / p)` for a non-zero `p`, exactly.
fn ceil_quotient(t: i128, p: i64) -> (r: i128)
    requires
        p != 0,
        -0x1_0000_0000_0000_0000 < t < 0x1_0000_0000_0000_0000,
    ensures
        r == ceil_div(t as int, p as int),
{
    let a: u128 = if t >= 0 {
        t as u128
    } else {
        (-t) as u128
    };
    let b: u128 = if p > 0 {
        p as u128
    } else {
        (-(p as i128)) as u128
    };
    let q = a / b;
    let rem = a % b;
    assert(q <= a) by (nonlinear_arith)
        requires
            b >= 1,
            q == a / b,
    ;
    proof {
        lemma_neg_div(a as int, b as int);
    }
    if (t >= 0) == (p > 0) {
        if rem != 0 {
            q as i128 + 1
        } else {
            q as i128
        }
    } else {
        -(q as i128)
    }
}

/// The number of the last page as a 64-bit integer.
pub fn last_visible_page(total: i64, per_page: i64) -> (r: i64)
    ensures
        r == page_count(total as int, per_page as int, i64::MIN as int, i64::MAX as int),
{
    if per_page == 0 {
        if total > 0 {
            i64::MAX
        } else if total < 0 {
            i64::MIN
        } else {
            0
        }
    } else {
        let q = ceil_quotient(total as i128, per_page);
        if q > i64::MAX as i128 {
            i64::MAX
        } else if q < i64::MIN as i128 {
            i64::MIN
        } else {
            q as i64
        }
    }
}

/// The number of the last page as a 32-bit integer.
pub fn last_visible_page_i32(total: i64, per_page: i64) -> (r: i32)
    ensures
        r == page_count(total as int, per_page as int, i32::MIN as int, i32::MAX as int),
{
    if per_page == 0 {
        if total > 0 {
            i32::MAX
        } else if total < 0 {
            i32::MIN
        } else {
            0
        }
    } else {
        let q = ceil_quotient(total as i128, per_page);
        if q > i32::MAX as i128 {
            i32::MAX
        } else if q < i32::MIN as i128 {
            i32::MIN
        } else {
            q as i32
        }
    }
}

/// The number of the last page for a count of documents, as a 32-bit integer.
pub fn last_visible_page_of_count(total: u64, per_page: i64) -> (r: i32)
    ensures
        r == page_count(total as int, per_page as int, i32::MIN as int, i32::MAX as int),
{
    if per_page == 0 {
        if total > 0 {
            i32::MAX
        } else {
            0
        }
    } else {
        let q = ceil_quotient(total as i128, per_page);
        if q > i32::MAX as i128 {
            i32::MAX
        } else if q < i32::MIN as i128 {
            i32::MIN
        } else {
            q as i32
        }
    }
}

/// For a positive page size and a non-negative total, the last page is the first one whose end
/// reaches the total: every item falls on a page up to it, and the page before it does not
/// reach the last item.
pub proof fn lemma_last_page_covers_total(total: int, per_page: int)
    requires
        total >= 0,
        per_page > 0,
    ensures
        ceil_div(total, per_page) >= 0,
        ceil_div(total, per_page) * per_page >= total,
        (ceil_div(total, per_page) - 1) * per_page < total || total == 0,
{
    lemma_neg_div(total, per_page);
    lemma_fundamental_div_mod(total, per_page);
    let q = total / per_page;
    let r = total % per_page;
    assert(q >= 0) by (nonlinear_arith)
        requires
            total >= 0,
            per_page > 0,
            total == per_page * q + r,
            0 <= r < per_page,
    ;
    if r == 0 {
        assert(ceil_div(total, per_page) == q);
        assert(q * per_page >= total) by (nonlinear_arith)
            requires
                total == per_page * q + r,
                r == 0,
        ;
        assert((q - 1) * per_page < total || total == 0) by (nonlinear_arith)
            requires
                total == per_page * q + r,
                r == 0,
                per_page > 0,
        ;
    } else {
        assert(ceil_div(total, per_page) == q + 1);
        assert((q + 1) * per_page >= total) by (nonlinear_arith)
            requires
                total == per_page * q + r,
                0 <= r < per_page,
        ;
        assert(q * per_page < total) by (nonlinear_arith)
            requires
                total == per_page * q + r,
                0 < r,
        ;
    }
}

/// With a positive page size, a listing reports a next page exactly when items remain after
/// the current one: `current_page < last_visible_page` holds iff
/// `current_page * per_page < total` (for a total that the number type holds).
pub proof fn lemma_next_page_iff_items_remain(total: int, per_page: int, current_page: int, lo: int, hi: int)
    requires
        0 <= total <= hi,
        lo <= 0,
        per_page > 0,
    ensures
        page_count(total, per_page, lo, hi) == ceil_div(total, per_page),
        (current_page < page_count(total, per_page, lo, hi)) <==> (current_page * per_page < total),
{
    lemma_last_page_covers_total(total, per_page);
    let last = ceil_div(total, per_page);
    if total == 0 {
        assert(ceil_div(total, per_page) == 0) by {
            vstd::arithmetic::div_mod::lemma_div_basics(per_page);
            assert(-total == 0);
        }
    } else {
        assert(last <= total) by (nonlinear_arith)
            requires
                (last - 1) * per_page < total,
                per_page >= 1,
                total >= 1,
        ;
    }
    if current_page < last {
        if total == 0 {
            assert(current_page * per_page < 0) by (nonlinear_arith)
                requires
                    current_page < 0,
                    per_page > 0,
            ;
        } else {
            assert((last - 1) * per_page < total);
            assert(current_page * per_page <= (last - 1) * per_page) by (nonlinear_arith)
                requires
                    current_page <= last - 1,
                    per_page > 0,
            ;
        }
    } else {
        assert(current_page * per_page >= last * per_page) by (nonlinear_arith)
            requires
                current_page >= last,
                per_page > 0,
        ;
    }
}

/// Without a page size the page count saturates: a listing with items reports the largest
/// number the type holds, one with a negative total the smallest, and an empty one 0. With a
/// page size the count always lies in `[lo, hi]`.
pub proof fn lemma_page_count_saturates(total: int, per_page: int, lo: int, hi: int)
    requires
        lo <= 0 <= hi,
    ensures
        per_page == 0 && total > 0 ==> page_count(total, per_page, lo, hi) == hi,
        per_page == 0 && total < 0 ==> page_count(total, per_page, lo, hi) == lo,
        per_page == 0 && total == 0 ==> page_count(total, per_page, lo, hi) == 0,
        lo <= page_count(total, per_page, lo, hi) <= hi,
{
}

/// The page window of the user, group and producer listings: the page size defaults to 10 and
/// the page to 1, both taken as 64-bit signed numbers, and the items before the page are
/// skipped.
pub fn page_window(page: Option<u64>, limit: Option<u64>) -> (w: PageWindow)
    requires
        ({
            let pp = (match limit {
                Some(l) => l,
                None => 10u64,
            }) as i64;
            let cp = (match page {
                Some(p) => p,
                None => 1u64,
            }) as i64;
            cp > i64::MIN && i64::MIN <= (cp - 1) * pp <= i64::MAX
        }),
    ensures
        w.per_page == (match limit {
            Some(l) => l,
            None => 10u64,
        }) as i64,
        w.current_page == (match page {
            Some(p) => p,
            None => 1u64,
        }) as i64,
        w.skip == ((w.current_page - 1) * w.per_page) as u64,
{
    let per_page = match limit {
        Some(l) => l,
        None => 10u64,
    } as i64;
    let current_page = match page {
        Some(p) => p,
        None => 1u64,
    } as i64;
    let skip = ((current_page - 1) * per_page) as u64;
    PageWindow { per_page, current_page, skip }
}

/// The paging block of the user and group listings: `total` is the number of matching
/// documents and `count` the number on this page.
pub fn page_summary(window: &PageWindow, total: u64, count: usize) -> (s: PageSummary)
    ensures
        s.total == total as i64,
        s.last_visible_page == page_count(
            s.total as int,
            window.per_page as int,
            i64::MIN as int,
            i64::MAX as int,
        ),
        s.has_next_page == (window.current_page < s.last_visible_page),
        s.current_page == window.current_page,
        s.count == count,
        s.per_page == window.per_page,
{
    let total = total as i64;
    let last = last_visible_page(total, window.per_page);
    PageSummary {
        last_visible_page: last,
        has_next_page: window.current_page < last,
        current_page: window.current_page,
        count,
        total,
        per_page: window.per_page,
    }
}

/// The paging block of the producer listing, whose numbers are 32-bit.
pub fn producer_pagination(window: &PageWindow, total: u64, count: usize) -> (p: Pagination)
    ensures
        p.last_visible_page == page_count(
            (total as i64) as int,
            window.per_page as int,
            i32::MIN as int,
            i32::MAX as int,
        ),
        p.has_next_page == (window.current_page < p.last_visible_page as i64),
        p.current_page == window.current_page as i32,
        p.items.count == count as i32,
        p.items.total == (total as i64) as i32,
        p.items.per_page == window.per_page as i32,
{
    let total = total as i64;
    let last = last_visible_page_i32(total, window.per_page);
    Pagination {
        last_visible_page: last,
        has_next_page: window.current_page < last as i64,
        current_page: window.current_page as i32,
        items: PaginationItems {
            count: count as i32,
            total: total as i32,
            per_page: window.per_page as i32,
        },
    }
}

} // verus!
