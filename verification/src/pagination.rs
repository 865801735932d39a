//! Page selection over a sequence of results.

use vstd::prelude::*;
use vstd::slice::slice_subrange;

verus! {

/// A page request: both parts are optional, and a request that lacks either
/// one selects everything.
#[derive(Clone, Copy, Debug)]
pub struct Pagination {
    pub page: Option<u32>,
    pub per_page: Option<u32>,
}

/// How many results a window lets through.
#[derive(Clone, Copy, Debug, PartialEq, Eq, Structural)]
pub enum Limit {
    /// Every result from the offset on.
    Unbounded,
    /// At most this many results.
    AtMost(u32),
}

/// The window of results that a page request selects.
#[derive(Clone, Copy, Debug, PartialEq, Eq, Structural)]
pub struct Window {
    pub offset: u64,
    pub limit: Limit,
}

/// The window selected by `page` and `per_page`: everything when either is
/// absent, else `per_page` results starting at `page * per_page`.
pub open spec fn window_of(page: Option<u32>, per_page: Option<u32>) -> Window {
    match (page, per_page) {
        (Some(p), Some(k)) => Window { offset: (p * k) as u64, limit: Limit::AtMost(k) },
        _ => Window { offset: 0, limit: Limit::Unbounded },
    }
}

/// The results that a window lets through: those from the window's offset
/// on, as many as its limit allows, in their order. A window that starts
/// beyond the last result lets none through.
pub open spec fn page_of<T>(items: Seq<T>, window: Window) -> Seq<T> {
    let start = if window.offset <= items.len() {
        window.offset as int
    } else {
        items.len() as int
    };
    let end = match window.limit {
        Limit::Unbounded => items.len() as int,
        Limit::AtMost(k) => if start + k <= items.len() {
            start + k
        } else {
            items.len() as int
        },
    };
    items.subrange(start, end)
}

/// The window that a page request selects.
pub fn get_offset_and_limit(pagination: &Pagination) -> (r: Window)
    ensures
        r == window_of(pagination.page, pagination.per_page),
{
    match (pagination.page, pagination.per_page) {
        (Some(page), Some(per_page)) => {
            assert(page * per_page <= u64::MAX) by (nonlinear_arith)
                requires
                    page <= u32::MAX,
                    per_page <= u32::MAX,
            ;
            Window { offset: page as u64 * per_page as u64, limit: Limit::AtMost(per_page) }
        },
        _ => Window { offset: 0, limit: Limit::Unbounded },
    }
}

/// The part of `items` that `window` lets through.
pub fn window_slice<'a, T>(items: &'a [T], window: Window) -> (r: &'a [T])
    ensures
        r@ == page_of(items@, window),
{
    let n: usize = items.len();
    let start: usize = if window.offset <= n as u64 {
        window.offset as usize
    } else {
        n
    };
    let end: usize = match window.limit {
        Limit::Unbounded => n,
        Limit::AtMost(k) => if k as u64 <= (n - start) as u64 {
            start + k as usize
        } else {
            n
        },
    };
    slice_subrange(items, start, end)
}

/// The items from position `first` up to, not including, position `end`,
/// both positions clipped to the number of items.
pub open spec fn clipped<T>(items: Seq<T>, first: int, end: int) -> Seq<T> {
    items.subrange(
        if first <= items.len() {
            first
        } else {
            items.len() as int
        },
        if end <= items.len() {
            end
        } else {
            items.len() as int
        },
    )
}

/// The page of `items` that `page` and `per_page` select: the items at the
/// positions from `page * per_page` up to `page * per_page + per_page`,
/// clipped to the number of items, or all of `items` when either is absent.
/// A page beyond the last item is empty.
pub fn paginate<'a, T>(items: &'a [T], page: Option<u32>, per_page: Option<u32>) -> (r: &'a [T])
    ensures
        r@ == page_of(items@, window_of(page, per_page)),
        match (page, per_page) {
            (Some(p), Some(k)) => r@ == clipped(items@, p * k, p * k + k),
            _ => r@ == items@,
        },
{
    let window = get_offset_and_limit(&Pagination { page, per_page });
    let r = window_slice(items, window);
    proof {
        if let (Some(p), Some(k)) = (page, per_page) {
            assert(0 <= p * k <= u64::MAX) by (nonlinear_arith)
                requires
                    0 <= p <= u32::MAX,
                    0 <= k <= u32::MAX,
            ;
        }
    }
    r
}

} // verus!
