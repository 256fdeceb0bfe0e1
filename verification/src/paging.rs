//! Offset pagination shared by every listing query.
use vstd::prelude::*;

verus! {

/// The page size used when a query names none.
pub const DEFAULT_PAGE_SIZE: u32 = 20;

/// The largest page size a listing hands out.
pub const MAX_PAGE_SIZE: u32 = 200;

/// The page size a query asks for, defaulted to 20 and clamped into `1..=200`.
pub open spec fn page_limit(page_size: Option<u32>) -> u32 {
    let size = match page_size {
        Some(s) => s,
        None => 20u32,
    };
    if size < 1 {
        1u32
    } else if size > 200 {
        200u32
    } else {
        size
    }
}

/// The one-based page a query asks for, defaulted to 1 and raised to at least 1.
pub open spec fn page_index(page: Option<u32>) -> int {
    match page {
        Some(p) => if p < 1 {
            1
        } else {
            p as int
        },
        None => 1,
    }
}

/// How many items precede the requested page.
pub open spec fn page_offset(page: Option<u32>, page_size: Option<u32>) -> int {
    (page_index(page) - 1) * page_limit(page_size)
}

/// Whether the offset of a query fits the `u32` that carries it.
pub open spec fn offset_fits(page: Option<u32>, page_size: Option<u32>) -> bool {
    page_offset(page, page_size) <= u32::MAX
}

/// Whether page and page size lie inside the SDKWork offset-listing bounds:
/// a page, when given, is at least 1; a page size, when given, lies in `1..=200`.
pub open spec fn pagination_in_bounds(page: Option<u32>, page_size: Option<u32>) -> bool {
    &&& (page matches Some(p) ==> p >= 1)
    &&& (page_size matches Some(s) ==> 1 <= s <= 200)
}

/// The clamped page size of a query.
pub fn query_limit(page_size: Option<u32>) -> (r: u32)
    ensures
        r == page_limit(page_size),
        1 <= r <= 200,
{
    let size = match page_size {
        Some(s) => s,
        None => DEFAULT_PAGE_SIZE,
    };
    if size < 1 {
        1
    } else if size > MAX_PAGE_SIZE {
        MAX_PAGE_SIZE
    } else {
        size
    }
}

/// The offset of the requested page.
pub fn query_offset(page: Option<u32>, page_size: Option<u32>) -> (r: u32)
    requires
        offset_fits(page, page_size),
    ensures
        r == page_offset(page, page_size),
{
    let p = match page {
        Some(p) => if p < 1 {
            1
        } else {
            p
        },
        None => 1,
    };
    let limit = query_limit(page_size);
    assert((p - 1) * limit == page_offset(page, page_size));
    (p - 1) * limit
}

/// Whether the offset of a query fits the `u32` that carries it.
pub fn offset_within_u32(page: Option<u32>, page_size: Option<u32>) -> (r: bool)
    ensures
        r == offset_fits(page, page_size),
{
    let p: u64 = match page {
        Some(p) => if p < 1 {
            1
        } else {
            p as u64
        },
        None => 1,
    };
    let limit = query_limit(page_size) as u64;
    assert((p - 1) * limit == page_offset(page, page_size));
    assert((p - 1) * limit <= 0xffff_fffe * 200) by (nonlinear_arith)
        requires
            p - 1 <= 0xffff_fffe,
            limit <= 200,
    ;
    (p - 1) * limit <= u32::MAX as u64
}

/// Checks page and page size against the SDKWork offset-listing bounds.
pub fn pagination_within_bounds(page: Option<u32>, page_size: Option<u32>) -> (r: bool)
    ensures
        r == pagination_in_bounds(page, page_size),
{
    let page_ok = match page {
        Some(p) => p >= 1,
        None => true,
    };
    let size_ok = match page_size {
        Some(s) => 1 <= s && s <= MAX_PAGE_SIZE,
        None => true,
    };
    page_ok && size_ok
}

/// The one-based page number that a database page started at `offset` carries.
pub fn page_number(offset: i64, limit: i64) -> (r: u32)
    requires
        0 <= offset,
        1 <= limit,
        offset / limit < i64::MAX,
    ensures
        r == #[verifier::truncate] (((offset / limit) + 1) as u32),
{
    #[verifier::truncate] (((offset / limit) + 1) as u32)
}

/// The items of a page: those from `offset`, at most `limit` of them.
pub open spec fn page_window<T>(items: Seq<T>, offset: int, limit: int) -> Seq<T> {
    let start = if offset < items.len() {
        offset
    } else {
        items.len() as int
    };
    let end = if start + limit < items.len() {
        start + limit
    } else {
        items.len() as int
    };
    items.subrange(start, end)
}

/// Takes the page window out of `items`, as `skip(offset).take(limit)` does.
pub fn take_page<T>(items: Vec<T>, offset: usize, limit: usize) -> (r: Vec<T>)
    ensures
        r@ == page_window(items@, offset as int, limit as int),
{
    let ghost all = items@;
    let mut items = items;
    let n = items.len();
    let start = if offset < n {
        offset
    } else {
        n
    };
    let end = if limit <= n - start {
        start + limit
    } else {
        n
    };
    let mut tail = items.split_off(start);
    let _rest = tail.split_off(end - start);
    assert(tail@ =~= all.subrange(start as int, end as int));
    tail
}

} // verus!
