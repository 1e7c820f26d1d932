//! The frame-supplying capability that the page-table mapper and the
//! buddy allocator are written against.

use vstd::prelude::*;

use crate::addr::{MmError, PageFrameCount, PageFrameUsage, PhysAddr, MAX_PHYS, PAGE_SIZE};

verus! {

/// Number of block orders the buddy allocator manages: orders `0` through
/// `NUM_ORDERS - 1`, where a block of order `k` spans `2^k` frames.
pub const NUM_ORDERS: usize = 31;

/// Largest frame count a single allocation may ask for: one block of the
/// highest order.
pub const MAX_ALLOC_FRAMES: u64 = 0x4000_0000;

/// True when `c` is a power of two.
pub open spec fn is_pow2_u64(c: u64) -> bool {
    c != 0 && c & ((c - 1) as u64) == 0
}

/// Runtime power-of-two test.
pub fn check_pow2_u64(c: u64) -> (r: bool)
    ensures
        r == is_pow2_u64(c),
{
    c != 0 && c & (c - 1) == 0
}

/// A source of physical page frames. During bootstrap this is the bump
/// allocator; afterwards it is the locked facade over the buddy allocator.
pub trait FrameAllocator: Sized {
    /// The allocator's own well-formedness; every operation preserves it.
    spec fn inv(&self) -> bool;

    /// How many frames the allocator could still hand out, for accounting;
    /// an allocator that keeps no refundable accounting reports zero.
    spec fn frames_free(&self) -> int;

    /// Whether a request for `count` frames can be served from the
    /// current state: `allocate` succeeds exactly when this holds.
    spec fn can_allocate(&self, count: u64) -> bool;

    /// Allocates `count` contiguous frames; `count` must already be a
    /// power of two. Succeeds if and only if the state admits the
    /// request; on success the base address is page-aligned, inside the
    /// architecture's physical address space, and exactly `count` frames
    /// were granted; on failure nothing changes.
    fn allocate(&mut self, count: PageFrameCount) -> (r: Option<(PhysAddr, PageFrameCount)>)
        requires
            old(self).inv(),
            is_pow2_u64(count.spec_data()),
            count.spec_data() <= MAX_ALLOC_FRAMES,
        ensures
            final(self).inv(),
            r is Some <==> old(self).can_allocate(count.spec_data()),
            match r {
                Some(p) => {
                    &&& p.1 == count
                    &&& p.0.spec_data() % PAGE_SIZE == 0
                    &&& p.0.spec_data() + count.spec_data() * PAGE_SIZE <= MAX_PHYS
                    &&& final(self).frames_free() <= old(self).frames_free()
                },
                None => *final(self) == *old(self),
            },
    ;

    /// Returns `count` frames at `address`. On success the free-space
    /// accounting grows by exactly `count`; on failure the allocator is
    /// unchanged and the error names the violated condition.
    fn free(&mut self, address: PhysAddr, count: PageFrameCount) -> (r: Result<(), MmError>)
        requires
            old(self).inv(),
        ensures
            final(self).inv(),
            match r {
                Ok(()) => final(self).frames_free() == old(self).frames_free()
                    + count.spec_data(),
                Err(_) => *final(self) == *old(self),
            },
    ;

    /// Occupancy accounting.
    fn usage(&self) -> (r: PageFrameUsage)
        requires
            self.inv(),
        ensures
            r.used <= r.total,
    ;
}

} // verus!
