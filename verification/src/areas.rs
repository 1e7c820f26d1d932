//! Bootstrap memory discovery: turns the firmware memory map into the
//! fixed-capacity list of usable physical areas.

use vstd::prelude::*;

use crate::addr::{MmError, PhysAddr, PhysMemoryArea};

verus! {

/// Capacity of the physical-memory-area list.
pub const MEMORY_AREA_CAPACITY: usize = 512;

/// The firmware memory-map kind denoting usable RAM.
pub const MEMORY_KIND_USABLE: u32 = 1;

/// One `(address, length, kind)` triple delivered by the firmware
/// memory-map iterator.
#[derive(Clone, Copy, Debug, PartialEq, Eq, Structural)]
pub struct MemoryMapEntry {
    pub addr: u64,
    pub len: u64,
    pub kind: u32,
}

impl MemoryMapEntry {
    pub fn new(addr: u64, len: u64, kind: u32) -> (r: Self)
        ensures
            r == (MemoryMapEntry { addr, len, kind }),
    {
        MemoryMapEntry { addr, len, kind }
    }
}

/// An entry is kept exactly when it denotes usable RAM and is not empty.
pub open spec fn entry_usable(e: MemoryMapEntry) -> bool {
    e.kind == MEMORY_KIND_USABLE && e.len > 0
}

pub open spec fn area_of(e: MemoryMapEntry) -> PhysMemoryArea {
    PhysMemoryArea { base: PhysAddr { value: e.addr }, size: e.len }
}

/// The usable areas of a firmware map, in iteration order, without
/// deduplication or merging.
pub open spec fn usable_areas(s: Seq<MemoryMapEntry>) -> Seq<PhysMemoryArea>
    decreases s.len(),
{
    if s.len() == 0 {
        Seq::empty()
    } else {
        let pre = usable_areas(s.drop_last());
        if entry_usable(s.last()) {
            pre.push(area_of(s.last()))
        } else {
            pre
        }
    }
}

/// A prefix of the map never yields more usable areas than the whole map.
proof fn lemma_usable_prefix(s: Seq<MemoryMapEntry>, i: int)
    requires
        0 <= i <= s.len(),
    ensures
        usable_areas(s.take(i)).len() <= usable_areas(s).len(),
    decreases s.len(),
{
    if i == s.len() {
        assert(s.take(i) =~= s);
    } else {
        assert(s.drop_last().take(i) =~= s.take(i));
        lemma_usable_prefix(s.drop_last(), i);
    }
}

/// Populates the area list from the firmware map: entries whose kind is
/// usable RAM and whose length is positive are appended in iteration
/// order; all others are skipped. More usable entries than the list can
/// hold is a fatal condition.
pub fn discover_areas(entries: &Vec<MemoryMapEntry>) -> (r: Result<
    Vec<PhysMemoryArea>,
    MmError,
>)
    ensures
        match r {
            Ok(v) => {
                &&& v@ == usable_areas(entries@)
                &&& v@.len() <= MEMORY_AREA_CAPACITY
            },
            Err(e) => {
                &&& e == MmError::TooManyAreas
                &&& usable_areas(entries@).len() > MEMORY_AREA_CAPACITY
            },
        },
{
    let mut out: Vec<PhysMemoryArea> = Vec::new();
    let mut i: usize = 0;
    while i < entries.len()
        invariant
            0 <= i <= entries@.len(),
            out@ == usable_areas(entries@.take(i as int)),
            out@.len() <= MEMORY_AREA_CAPACITY,
        decreases entries@.len() - i,
    {
        let e = entries[i];
        proof {
            assert(entries@.take(i + 1).drop_last() =~= entries@.take(i as int));
            assert(entries@.take(i + 1).last() == entries@[i as int]);
        }
        if e.kind == MEMORY_KIND_USABLE && e.len > 0 {
            if out.len() == MEMORY_AREA_CAPACITY {
                proof {
                    lemma_usable_prefix(entries@, i + 1);
                }
                return Err(MmError::TooManyAreas);
            }
            out.push(PhysMemoryArea::new(PhysAddr::new(e.addr), e.len));
        }
        i = i + 1;
    }
    proof {
        assert(entries@.take(entries@.len() as int) =~= entries@);
    }
    Ok(out)
}

} // verus!
