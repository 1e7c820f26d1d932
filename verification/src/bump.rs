//! The bootstrap bump allocator: a single-threaded, never-freeing source
//! of monotonically increasing physical pages, used only during the
//! bootstrap window before the buddy allocator exists.

use vstd::prelude::*;

use crate::addr::{
    spec_page_align_up, MmError, PageFrameCount, PageFrameUsage, PhysAddr, PhysMemoryArea,
    MAX_PHYS, PAGE_SIZE,
};
use crate::addr::page_align_up;
use crate::frame::{FrameAllocator, MAX_ALLOC_FRAMES};

verus! {

/// Where an allocation from `a` would start, given the current watermark:
/// the page-rounded area base, or the watermark if that lies higher.
pub open spec fn bump_start(a: PhysMemoryArea, offset: u64) -> u64 {
    if spec_page_align_up(a.base.spec_data()) > offset {
        spec_page_align_up(a.base.spec_data())
    } else {
        offset
    }
}

/// One past the last whole page of `a` that lies inside the physical
/// address space.
pub open spec fn bump_end(a: PhysMemoryArea) -> u64 {
    let e: u64 = if a.base.spec_data() + a.size > MAX_PHYS {
        MAX_PHYS
    } else {
        (a.base.spec_data() + a.size) as u64
    };
    e & !4095u64
}

/// Whether `a` still has room for `need` bytes at or above the watermark.
pub open spec fn area_fits(a: PhysMemoryArea, offset: u64, need: u64) -> bool {
    a.base.spec_data() < MAX_PHYS && bump_start(a, offset) + need <= bump_end(a)
}

/// The base address the first-fit scan yields, or `None` when no area has
/// room.
pub open spec fn first_fit(areas: Seq<PhysMemoryArea>, offset: u64, need: u64) -> Option<u64>
    decreases areas.len(),
{
    if areas.len() == 0 {
        None
    } else if area_fits(areas[0], offset, need) {
        Some(bump_start(areas[0], offset))
    } else {
        first_fit(areas.drop_first(), offset, need)
    }
}

/// The bootstrap bump allocator. It scans the discovered area list for the
/// first fit at or above its watermark and never hands the same page out
/// twice; it offers no real free operation.
pub struct BumpAllocator {
    pub areas: Vec<PhysMemoryArea>,
    pub offset: u64,
}

impl BumpAllocator {
    pub open spec fn wf(self) -> bool {
        self.offset % PAGE_SIZE == 0 && self.offset <= MAX_PHYS
    }

    pub open spec fn spec_areas(self) -> Seq<PhysMemoryArea> {
        self.areas@
    }

    pub open spec fn spec_offset(self) -> u64 {
        self.offset
    }

    /// Binds the allocator to the discovered areas, starting at a caller
    /// given page-aligned watermark (everything below it is already in
    /// use by the kernel image).
    pub fn new(areas: Vec<PhysMemoryArea>, offset: u64) -> (r: Self)
        requires
            offset % PAGE_SIZE == 0,
            offset <= MAX_PHYS,
        ensures
            r.wf(),
            r.spec_areas() == areas@,
            r.spec_offset() == offset,
    {
        BumpAllocator { areas, offset }
    }

    /// Bytes consumed so far: everything below the watermark counts as
    /// handed out.
    pub fn offset(&self) -> (r: u64)
        ensures
            r == self.spec_offset(),
    {
        self.offset
    }

    /// First-fit scan for `count` contiguous frames at or above the
    /// watermark; on success the watermark moves to the end of the grant,
    /// so later grants lie strictly above earlier ones.
    pub fn allocate_frames(&mut self, count: PageFrameCount) -> (r: Option<(
        PhysAddr,
        PageFrameCount,
    )>)
        requires
            old(self).wf(),
            1 <= count.spec_data() <= MAX_ALLOC_FRAMES,
        ensures
            final(self).wf(),
            final(self).spec_areas() == old(self).spec_areas(),
            final(self).spec_offset() >= old(self).spec_offset(),
            match r {
                Some(p) => {
                    &&& first_fit(
                        old(self).spec_areas(),
                        old(self).spec_offset(),
                        (count.spec_data() * PAGE_SIZE) as u64,
                    ) == Some(p.0.spec_data())
                    &&& p.1 == count
                    &&& p.0.spec_data() % PAGE_SIZE == 0
                    &&& p.0.spec_data() >= old(self).spec_offset()
                    &&& p.0.spec_data() + count.spec_data() * PAGE_SIZE <= MAX_PHYS
                    &&& final(self).spec_offset() == p.0.spec_data() + count.spec_data()
                        * PAGE_SIZE
                },
                None => {
                    &&& first_fit(
                        old(self).spec_areas(),
                        old(self).spec_offset(),
                        (count.spec_data() * PAGE_SIZE) as u64,
                    ) is None
                    &&& *final(self) == *old(self)
                },
            },
    {
        let need: u64 = count.data() * PAGE_SIZE;
        proof {
            assert(need % PAGE_SIZE == 0) by (nonlinear_arith)
                requires
                    need == count.spec_data() * PAGE_SIZE,
            ;
        }
        let ghost off0: u64 = self.offset;
        proof {
            assert(self.areas@.skip(0) =~= self.areas@);
        }
        let mut i: usize = 0;
        while i < self.areas.len()
            invariant
                0 <= i <= self.areas@.len(),
                *self == *old(self),
                self.wf(),
                need == count.spec_data() * PAGE_SIZE,
                need % PAGE_SIZE == 0,
                1 <= count.spec_data() <= MAX_ALLOC_FRAMES,
                off0 == self.offset,
                first_fit(self.areas@, off0, need) == first_fit(
                    self.areas@.skip(i as int),
                    off0,
                    need,
                ),
            decreases self.areas@.len() - i,
        {
            let a = self.areas[i];
            proof {
                assert(self.areas@.skip(i as int)[0] == self.areas@[i as int]);
                assert(self.areas@.skip(i as int).drop_first() =~= self.areas@.skip(i + 1));
            }
            let base = a.base.data();
            let mut hit: bool = false;
            let mut start: u64 = 0;
            if base < MAX_PHYS {
                let start0 = page_align_up(base);
                start = if self.offset > start0 {
                    self.offset
                } else {
                    start0
                };
                let end_raw: u64 = if a.size > MAX_PHYS - base {
                    MAX_PHYS
                } else {
                    base + a.size
                };
                let end: u64 = end_raw & !(PAGE_SIZE - 1);
                proof {
                    assert(end <= end_raw && end % 4096 == 0) by (bit_vector)
                        requires
                            end == end_raw & !4095u64,
                    ;
                    assert(end_raw == (if a.base.spec_data() + a.size > MAX_PHYS {
                        MAX_PHYS
                    } else {
                        (a.base.spec_data() + a.size) as u64
                    }));
                    assert(end == bump_end(a));
                    assert(start == bump_start(a, off0));
                }
                if start <= end && need <= end - start {
                    hit = true;
                    proof {
                        assert(area_fits(a, off0, need));
                        assert(first_fit(self.areas@.skip(i as int), off0, need) == Some(
                            bump_start(a, off0),
                        ));
                    }
                } else {
                    proof {
                        assert(!area_fits(a, off0, need));
                    }
                }
            } else {
                proof {
                    assert(!area_fits(a, off0, need));
                }
            }
            if hit {
                proof {
                    assert((start + need) % (PAGE_SIZE as int) == 0) by (nonlinear_arith)
                        requires
                            start % PAGE_SIZE == 0,
                            need % PAGE_SIZE == 0,
                    ;
                }
                self.offset = start + need;
                return Some((PhysAddr::new(start), count));
            }
            i = i + 1;
        }
        proof {
            assert(self.areas@.skip(self.areas@.len() as int) =~= Seq::<
                PhysMemoryArea,
            >::empty());
        }
        None
    }
}

impl FrameAllocator for BumpAllocator {
    open spec fn inv(&self) -> bool {
        self.wf()
    }

    /// The bump allocator keeps no refundable accounting.
    open spec fn frames_free(&self) -> int {
        0
    }

    /// A request is served exactly when the first-fit scan finds room at
    /// or above the watermark.
    open spec fn can_allocate(&self, count: u64) -> bool {
        first_fit(self.areas@, self.offset, (count * PAGE_SIZE) as u64) is Some
    }

    fn allocate(&mut self, count: PageFrameCount) -> (r: Option<(PhysAddr, PageFrameCount)>) {
        self.allocate_frames(count)
    }

    /// By construction the bump allocator cannot take pages back.
    fn free(&mut self, address: PhysAddr, count: PageFrameCount) -> (r: Result<(), MmError>) {
        Err(MmError::FreeUnsupported)
    }

    fn usage(&self) -> (r: PageFrameUsage) {
        PageFrameUsage { used: 0, total: 0 }
    }
}

} // verus!
