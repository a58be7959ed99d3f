//! Page arithmetic for 4 KiB pages.
use vstd::prelude::*;

verus! {

pub const PAGE_SHIFT: usize = 12;

pub const PAGE_SIZE: usize = 4096;

/// Returns the address of the page containing address `x`.
pub fn page_start(x: usize) -> (r: usize)
    ensures
        r == x - x % PAGE_SIZE,
        r % PAGE_SIZE == 0,
        r <= x,
{
    x - x % PAGE_SIZE
}

/// Returns the offset of address `x` in its page.
pub fn page_offset(x: usize) -> (r: usize)
    ensures
        r == x % PAGE_SIZE,
        r < PAGE_SIZE,
{
    x % PAGE_SIZE
}

/// Returns the address of the next page boundary at or after `x`.
pub fn page_end(x: usize) -> (r: usize)
    requires
        x + PAGE_SIZE - 1 <= usize::MAX,
    ensures
        r == (x + PAGE_SIZE - 1) - (x + PAGE_SIZE - 1) % (PAGE_SIZE as int),
        r % PAGE_SIZE == 0,
        x <= r,
        r < x + PAGE_SIZE,
{
    page_start(x + (PAGE_SIZE - 1))
}

} // verus!
