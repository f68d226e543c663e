//! Page-granular address arithmetic and the fixed layout of a task's user
//! address space.

use vstd::prelude::*;
use vstd::arithmetic::power2::pow2;
use vstd::bits::lemma_usize_shl_is_mul;
use vstd::arithmetic::div_mod::lemma_mod_decreases;

verus! {

/// Bytes in one page frame.
pub const PAGE_SIZE: u64 = 4096;
/// `PAGE_SIZE` as a number of bits.
pub const PAGE_SIZE_BITS: usize = 12;
/// Depth of the translation hierarchy: at most this many attempts are made
/// to map a page, each after installing one missing table.
pub const NUM_LEVELS: usize = 4;
/// Lowest address of the heap; the watermark starts here.
pub const USPACE_HEAP_BASE: u64 = 0x1_0000_0000;
/// Largest extent of the heap above its base.
pub const USPACE_HEAP_SIZE: u64 = 0x10_0000;
/// Highest address of the user stack.
pub const USPACE_STACK_TOP: u64 = 0x2_0000_0000;
/// Size of the user stack.
pub const USPACE_STACK_SIZE: u64 = 0x1_0000;
/// Where an anonymous mapping goes when the caller names no address.
pub const MMAP_DEFAULT_ADDR: u64 = 0x3_0000_0000;

/// `n` rounded down to a multiple of `b`.
pub open spec fn align_down(n: int, b: int) -> int {
    n - n % b
}

/// `n` rounded up to a multiple of `b`.
pub open spec fn align_up(n: int, b: int) -> int {
    if n % b == 0 {
        n
    } else {
        n - n % b + b
    }
}

/// The page that holds address `a`.
pub open spec fn page_of(a: u64) -> u64 {
    align_down(a as int, PAGE_SIZE as int) as u64
}

pub open spec fn page_aligned(a: u64) -> bool {
    a % PAGE_SIZE == 0
}

/// `n` rounded down to a multiple of `b`.
pub fn round_down(n: usize, b: usize) -> (r: usize)
    requires
        b > 0,
    ensures
        r == align_down(n as int, b as int),
{
    proof {
        lemma_mod_decreases(n as nat, b as nat);
    }
    n - n % b
}

/// The smallest range of whole `granularity` blocks that covers
/// `[start, end)`.
pub fn coarsen_footprint(start: usize, end: usize, granularity: usize) -> (r: (usize, usize))
    requires
        granularity > 0,
        align_up(end as int, granularity as int) <= usize::MAX,
    ensures
        r.0 == align_down(start as int, granularity as int),
        r.1 == align_up(end as int, granularity as int),
{
    proof {
        lemma_mod_decreases(end as nat, granularity as nat);
    }
    let rem = end % granularity;
    let up = if rem == 0 { end } else { end - rem + granularity };
    (round_down(start, granularity), up)
}

/// `a` with its low `b` bits cleared.
pub fn align_bits(a: usize, b: usize) -> (r: usize)
    requires
        b < usize::BITS,
    ensures
        r == align_down(a as int, pow2(b as nat) as int),
{
    proof {
        vstd::bits::lemma_usize_pow2_no_overflow(b as nat);
        lemma_usize_shl_is_mul(1, b);
    }
    let m: usize = 1usize << b;
    proof {
        lemma_mod_decreases(a as nat, m as nat);
    }
    a - a % m
}

/// The page that holds address `a`.
pub fn page_floor(a: u64) -> (r: u64)
    ensures
        r == page_of(a),
        page_aligned(r),
        r <= a,
        a - r < PAGE_SIZE,
{
    a - a % PAGE_SIZE
}

} // verus!
