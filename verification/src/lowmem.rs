//! The transient low-address identity window: a 1:1 mapping of the first
//! 32 MiB, required while secondary processors still execute with
//! physical addressing, and removed once every processor runs high-half.

use vstd::prelude::*;

use crate::addr::{MmError, PhysAddr, VirtAddr, PAGE_SIZE};
use crate::arch::{
    check_range_mapped, kernel_page_flags, spec_kernel_page_flags, X86_64MMBootstrapInfo,
};
use crate::entry::leaf_entry;
use crate::frame::FrameAllocator;
use crate::mapper::{lemma_page_gap, translate, PageMapper};

verus! {

/// Bytes covered by the identity window: 32 MiB.
pub const LOW_REMAP_SIZE: u64 = 0x200_0000;

/// Re-walks the window and confirms no page of it translates any more.
fn check_window_unmapped(mapper: &PageMapper, end: u64) -> (r: bool)
    requires
        mapper.wf(),
    ensures
        r ==> forall|pa: u64|
            pa < end && pa % PAGE_SIZE == 0 ==> #[trigger] translate(
                mapper.store,
                mapper.top,
                pa,
            ) is None,
{
    let mut cur: u64 = 0;
    while cur < end
        invariant
            mapper.wf(),
            cur % PAGE_SIZE == 0,
            forall|pa: u64|
                pa < cur && pa % PAGE_SIZE == 0 ==> #[trigger] translate(
                    mapper.store,
                    mapper.top,
                    pa,
                ) is None,
        decreases end + PAGE_SIZE - cur,
    {
        if cur > u64::MAX - PAGE_SIZE {
            return false;
        }
        if mapper.lookup(VirtAddr::new(cur)).is_some() {
            return false;
        }
        proof {
            assert forall|pa: u64|
                pa < cur + PAGE_SIZE && pa % PAGE_SIZE == 0 implies #[trigger] translate(
                mapper.store,
                mapper.top,
                pa,
            ) is None by {
                if pa >= cur {
                    lemma_page_gap(pa, cur);
                }
            }
        }
        cur = cur + PAGE_SIZE;
    }
    true
}

/// Manager of the low-address identity window.
pub struct LowAddressRemapping;

impl LowAddressRemapping {
    /// Maps every page of the window 1:1 with the default kernel flags,
    /// deferring every invalidation: the table is not active yet. On
    /// success the whole window translates, page for page.
    pub fn remap_at_low_address<A: FrameAllocator>(
        mapper: &mut PageMapper,
        alloc: &mut A,
        info: &X86_64MMBootstrapInfo,
        no_exec_reserved: bool,
    ) -> (r: Result<(), MmError>)
        requires
            old(mapper).wf(),
            old(alloc).inv(),
        ensures
            final(mapper).wf(),
            final(mapper).table_kind == old(mapper).table_kind,
            final(mapper).top == old(mapper).top,
            final(alloc).inv(),
            match r {
                Ok(()) => forall|pa: u64|
                    pa < LOW_REMAP_SIZE && pa % PAGE_SIZE == 0 ==> #[trigger] translate(
                        final(mapper).store,
                        final(mapper).top,
                        pa,
                    ) == Some(
                        leaf_entry(pa, spec_kernel_page_flags(*info, pa, no_exec_reserved)),
                    ),
                Err(e) => e == MmError::Oom || e == MmError::CorruptPageTable,
            },
    {
        let mut pa: u64 = 0;
        while pa < LOW_REMAP_SIZE
            invariant
                mapper.wf(),
                mapper.table_kind == old(mapper).table_kind,
                mapper.top == old(mapper).top,
                alloc.inv(),
                pa <= LOW_REMAP_SIZE,
                pa % PAGE_SIZE == 0,
            decreases LOW_REMAP_SIZE - pa,
        {
            proof {
                assert(LOW_REMAP_SIZE - pa >= 4096) by (nonlinear_arith)
                    requires
                        pa % 4096 == 0,
                        pa < 0x200_0000u64,
                        LOW_REMAP_SIZE == 0x200_0000u64,
                ;
            }
            let vaddr = VirtAddr::new(pa);
            let flags = kernel_page_flags(info, vaddr, no_exec_reserved);
            match mapper.map_phys(alloc, vaddr, PhysAddr::new(pa), flags) {
                Ok(flusher) => {
                    // Deferred: the caller invalidates in full later.
                    flusher.ignore();
                },
                Err(e) => { return Err(e); },
            }
            pa = pa + PAGE_SIZE;
        }
        // Turn the loop's page-by-page work into the whole-window
        // guarantee; a table graph that lost an earlier page is corrupt.
        if !check_range_mapped(mapper, info, no_exec_reserved, 0, LOW_REMAP_SIZE, 0) {
            return Err(MmError::CorruptPageTable);
        }
        proof {
            assert forall|pa: u64|
                pa < LOW_REMAP_SIZE && pa % PAGE_SIZE == 0 implies #[trigger] translate(
                mapper.store,
                mapper.top,
                pa,
            ) == Some(leaf_entry(pa, spec_kernel_page_flags(*info, pa, no_exec_reserved))) by {
                assert(translate(mapper.store, mapper.top, ((0 + pa) as u64)) == Some(
                    leaf_entry(
                        pa,
                        spec_kernel_page_flags(*info, ((0 + pa) as u64), no_exec_reserved),
                    ),
                ));
            }
        }
        Ok(())
    }

    /// Removes every page of the window from the live kernel mapper and
    /// hands each backing frame to the allocator: on success nothing in
    /// the window translates any more and the allocator's free-space
    /// accounting has grown by one frame per page. With `flush` the
    /// returned list names each address the caller must invalidate now;
    /// without it the list is empty and one full invalidation is owed
    /// later. Must run only after every processor has reached high-half
    /// execution: unmapping earlier pulls the ground from under any
    /// processor still running low-address code.
    pub fn unmap_at_low_address<A: FrameAllocator>(
        mapper: &mut PageMapper,
        alloc: &mut A,
        flush: bool,
    ) -> (r: Result<Vec<VirtAddr>, MmError>)
        requires
            old(mapper).wf(),
            old(alloc).inv(),
        ensures
            final(mapper).wf(),
            final(mapper).table_kind == old(mapper).table_kind,
            final(mapper).top == old(mapper).top,
            final(alloc).inv(),
            match r {
                Ok(v) => {
                    &&& (flush ==> v@.len() == LOW_REMAP_SIZE / PAGE_SIZE && forall|k: int|
                        0 <= k < v@.len() ==> (#[trigger] v@[k]).spec_data() == k * PAGE_SIZE)
                    &&& (!flush ==> v@.len() == 0)
                    &&& forall|pa: u64|
                        pa < LOW_REMAP_SIZE && pa % PAGE_SIZE == 0 ==> #[trigger] translate(
                            final(mapper).store,
                            final(mapper).top,
                            pa,
                        ) is None
                    &&& final(alloc).frames_free() == old(alloc).frames_free() + LOW_REMAP_SIZE
                        / PAGE_SIZE
                },
                Err(e) => e == MmError::NotMapped || e == MmError::CorruptPageTable,
            },
    {
        let mut to_flush: Vec<VirtAddr> = Vec::new();
        let mut pa: u64 = 0;
        while pa < LOW_REMAP_SIZE
            invariant
                mapper.wf(),
                mapper.table_kind == old(mapper).table_kind,
                mapper.top == old(mapper).top,
                alloc.inv(),
                pa <= LOW_REMAP_SIZE,
                pa % PAGE_SIZE == 0,
                alloc.frames_free() == old(alloc).frames_free() + pa / PAGE_SIZE,
                flush ==> to_flush@.len() == pa / PAGE_SIZE && forall|k: int|
                    0 <= k < to_flush@.len() ==> (#[trigger] to_flush@[k]).spec_data() == k
                        * PAGE_SIZE,
                !flush ==> to_flush@.len() == 0,
            decreases LOW_REMAP_SIZE - pa,
        {
            proof {
                assert(LOW_REMAP_SIZE - pa >= 4096) by (nonlinear_arith)
                    requires
                        pa % 4096 == 0,
                        pa < 0x200_0000u64,
                        LOW_REMAP_SIZE == 0x200_0000u64,
                ;
                assert((pa + 4096) as int / 4096 == pa as int / 4096 + 1) by (nonlinear_arith)
                    requires
                        pa % 4096 == 0,
                ;
                assert(pa as int == (pa as int / 4096) * 4096) by (nonlinear_arith)
                    requires
                        pa % 4096 == 0,
                ;
            }
            let vaddr = VirtAddr::new(pa);
            match mapper.unmap_phys(alloc, vaddr, true) {
                Ok(pair) => {
                    let flusher = pair.1;
                    if flush {
                        to_flush.push(flusher.flush());
                    } else {
                        // Deferred in favour of one full invalidation.
                        flusher.ignore();
                    }
                },
                Err(e) => { return Err(e); },
            }
            pa = pa + PAGE_SIZE;
        }
        // Turn the loop's page-by-page work into the whole-window
        // guarantee.
        if !check_window_unmapped(mapper, LOW_REMAP_SIZE) {
            return Err(MmError::CorruptPageTable);
        }
        Ok(to_flush)
    }
}

} // verus!
