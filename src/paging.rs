use vstd::prelude::*;

verus! {

/// The first position of page `page` of `size` items in a list of `len`.
pub open spec fn window_start(len: int, page: int, size: int) -> int {
    if page * size < len {
        page * size
    } else {
        len
    }
}

/// One past the last position of that page.
pub open spec fn window_end(len: int, page: int, size: int) -> int {
    let lo = window_start(len, page, size);
    if lo + size < len {
        lo + size
    } else {
        len
    }
}

/// The positions that page `page` of `size` items covers in a list of `len`.
pub fn page_bounds(len: usize, page: i64, size: i64) -> (r: (usize, usize))
    requires
        page >= 0,
        size > 0,
    ensures
        r.0 as int == window_start(len as int, page as int, size as int),
        r.1 as int == window_end(len as int, page as int, size as int),
        r.0 <= r.1 <= len,
{
    assert(0 <= page as int * size as int <= i64::MAX as int * i64::MAX as int) by (nonlinear_arith)
        requires
            page >= 0,
            size > 0,
            page <= i64::MAX,
            size <= i64::MAX,
    ;
    let start: u128 = page as u128 * size as u128;
    let lo: usize = if start < len as u128 {
        start as usize
    } else {
        len
    };
    let hi: usize = if (lo as u128) + (size as u128) < len as u128 {
        lo + size as usize
    } else {
        len
    };
    (lo, hi)
}

} // verus!
