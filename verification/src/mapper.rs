//! The 4-level page-table mapper: walks and builds the radix structure
//! over a store of page tables held as plain data, generic over any
//! frame-supplying capability.

use vstd::prelude::*;

use crate::addr::{MmError, PageFrameCount, PhysAddr, VirtAddr, MAX_PHYS, PAGE_SIZE};
use crate::entry::{
    entry_address, entry_present, leaf_entry, PageEntry, PageFlags,
    ENTRY_ADDR_MASK, ENTRY_FLAG_DEFAULT_PAGE, ENTRY_FLAG_DEFAULT_TABLE, ENTRY_FLAG_PRESENT,
};
use crate::frame::FrameAllocator;

verus! {

/// Which half of the address space a top-level table serves.
#[derive(Clone, Copy, Debug, PartialEq, Eq, Structural)]
pub enum PageTableKind {
    Kernel,
    User,
}

/// Hard cap on the number of tables one store can hold.
pub const MAX_TABLES: usize = 0x10_0000;

/// Entries per table.
pub const TABLE_ENTRIES: usize = 512;

/// The page tables a mapper owns, as plain data: table `i` occupies
/// `entries[512 * i .. 512 * (i + 1)]` and stands for the physical frame
/// `phys_ids[i]`.
pub struct TableStore {
    pub phys_ids: Vec<u64>,
    pub entries: Vec<u64>,
}

/// There is a table for frame `p`.
pub open spec fn has_table(s: TableStore, p: u64) -> bool {
    exists|i: int| 0 <= i < s.phys_ids@.len() && s.phys_ids@[i] == p
}

/// The slot of the table for frame `p` (meaningful when `has_table`).
pub open spec fn slot_of(s: TableStore, p: u64) -> int {
    choose|i: int| 0 <= i < s.phys_ids@.len() && s.phys_ids@[i] == p
}

/// Entry `idx` of the table for frame `p`.
pub open spec fn table_entry(s: TableStore, p: u64, idx: int) -> u64 {
    s.entries@[slot_of(s, p) * 512 + idx]
}

impl TableStore {
    pub open spec fn wf(self) -> bool {
        &&& self.phys_ids@.len() <= MAX_TABLES
        &&& self.entries@.len() == self.phys_ids@.len() * 512
        &&& forall|i: int, j: int|
            0 <= i < j < self.phys_ids@.len() ==> self.phys_ids@[i] != self.phys_ids@[j]
        &&& forall|i: int|
            0 <= i < self.phys_ids@.len() ==> (#[trigger] self.phys_ids@[i]) % PAGE_SIZE == 0
                && self.phys_ids@[i] + PAGE_SIZE <= MAX_PHYS
    }

    pub fn new() -> (r: Self)
        ensures
            r.wf(),
            r.phys_ids@.len() == 0,
    {
        TableStore { phys_ids: Vec::new(), entries: Vec::new() }
    }

    /// The slot holding the table for `p`, if any.
    pub fn find_slot(&self, p: u64) -> (r: Option<usize>)
        requires
            self.wf(),
        ensures
            match r {
                Some(i) => has_table(*self, p) && i < self.phys_ids@.len()
                    && self.phys_ids@[i as int] == p && slot_of(*self, p) == i,
                None => !has_table(*self, p),
            },
    {
        let n = self.phys_ids.len();
        let mut i: usize = 0;
        while i < n
            invariant
                self.wf(),
                n == self.phys_ids@.len(),
                i <= n,
                forall|j: int| 0 <= j < i ==> self.phys_ids@[j] != p,
            decreases n - i,
        {
            if self.phys_ids[i] == p {
                proof {
                    self.lemma_slot_unique(i as int);
                }
                return Some(i);
            }
            i = i + 1;
        }
        None
    }

    /// In a well-formed store each frame has one slot.
    pub proof fn lemma_slot_unique(self, i: int)
        requires
            self.wf(),
            0 <= i < self.phys_ids@.len(),
        ensures
            slot_of(self, self.phys_ids@[i]) == i,
            has_table(self, self.phys_ids@[i]),
    {
        let p = self.phys_ids@[i];
        assert(has_table(self, p));
        let j = slot_of(self, p);
        if j < i {
            assert(self.phys_ids@[j] != self.phys_ids@[i]);
        } else if j > i {
            assert(self.phys_ids@[i] != self.phys_ids@[j]);
        }
    }

    /// Distinct frames sit in distinct slots.
    pub proof fn lemma_slots_distinct(self, p: u64, q: u64)
        requires
            self.wf(),
            has_table(self, p),
            has_table(self, q),
            p != q,
        ensures
            slot_of(self, p) != slot_of(self, q),
            0 <= slot_of(self, p) < self.phys_ids@.len(),
            self.phys_ids@[slot_of(self, p)] == p,
    {
    }

    /// Reads entry `idx` of the table in `slot`.
    pub fn read_entry(&self, slot: usize, idx: usize) -> (r: u64)
        requires
            self.wf(),
            slot < self.phys_ids@.len(),
            idx < TABLE_ENTRIES,
        ensures
            r == table_entry(*self, self.phys_ids@[slot as int], idx as int),
    {
        proof {
            self.lemma_slot_unique(slot as int);
            lemma_flat_index_bounds(slot as int, idx as int, self.phys_ids@.len() as int);
        }
        self.entries[slot * TABLE_ENTRIES + idx]
    }

    /// Writes entry `idx` of the table in `slot`.
    pub fn write_entry(&mut self, slot: usize, idx: usize, e: u64)
        requires
            old(self).wf(),
            slot < old(self).phys_ids@.len(),
            idx < TABLE_ENTRIES,
        ensures
            final(self).wf(),
            final(self).phys_ids == old(self).phys_ids,
            final(self).entries@ == old(self).entries@.update(slot as int * 512 + idx, e),
    {
        proof {
            lemma_flat_index_bounds(slot as int, idx as int, self.phys_ids@.len() as int);
        }
        let flat = slot * TABLE_ENTRIES + idx;
        self.entries.set(flat, e);
    }

    /// Adds a zeroed table for the fresh frame `p`.
    pub fn push_table(&mut self, p: u64)
        requires
            old(self).wf(),
            !has_table(*old(self), p),
            old(self).phys_ids@.len() < MAX_TABLES,
            p % PAGE_SIZE == 0,
            p + PAGE_SIZE <= MAX_PHYS,
        ensures
            final(self).wf(),
            final(self).phys_ids@ == old(self).phys_ids@.push(p),
            final(self).entries@ == old(self).entries@ + Seq::new(512, |x: int| 0u64),
            has_table(*final(self), p),
            slot_of(*final(self), p) == old(self).phys_ids@.len(),
    {
        let ghost old_entries = self.entries@;
        let mut j: usize = 0;
        while j < TABLE_ENTRIES
            invariant
                j <= TABLE_ENTRIES,
                self.phys_ids == old(self).phys_ids,
                self.entries@ == old_entries + Seq::new(j as nat, |x: int| 0u64),
            decreases TABLE_ENTRIES - j,
        {
            self.entries.push(0);
            proof {
                assert(self.entries@ =~= old_entries + Seq::new((j + 1) as nat, |x: int| 0u64));
            }
            j = j + 1;
        }
        self.phys_ids.push(p);
        proof {
            let n = old(self).phys_ids@.len() as int;
            assert(self.phys_ids@[n] == p);
            assert forall|i: int, k: int|
                0 <= i < k < self.phys_ids@.len() implies self.phys_ids@[i]
                != self.phys_ids@[k] by {
                if k < n {
                } else {
                    assert(self.phys_ids@[i] == old(self).phys_ids@[i]);
                }
            }
            assert((n + 1) * 512 == n * 512 + 512) by (nonlinear_arith);
            self.lemma_slot_unique(n);
        }
    }
}

/// The table index a virtual address selects at a level of the walk.
pub open spec fn pt_index(v: u64, level: int) -> int {
    ((v >> ((12 + 9 * level) as u64)) & 0x1ff) as int
}

/// What the 4-level walk finds for `v`: the leaf entry, or `None` at the
/// first non-present entry or link that leaves the store.
pub open spec fn translate(s: TableStore, top: u64, v: u64) -> Option<u64> {
    if !has_table(s, top) {
        None
    } else {
        let e3 = table_entry(s, top, pt_index(v, 3));
        if !entry_present(e3) || !has_table(s, entry_address(e3)) {
            None
        } else {
            let e2 = table_entry(s, entry_address(e3), pt_index(v, 2));
            if !entry_present(e2) || !has_table(s, entry_address(e2)) {
                None
            } else {
                let e1 = table_entry(s, entry_address(e2), pt_index(v, 1));
                if !entry_present(e1) || !has_table(s, entry_address(e1)) {
                    None
                } else {
                    let e0 = table_entry(s, entry_address(e1), pt_index(v, 0));
                    if entry_present(e0) {
                        Some(e0)
                    } else {
                        None
                    }
                }
            }
        }
    }
}

/// The four cells `(table, index)` the walk for `v` reads, as the pair
/// of the table's frame address and the entry index, pairwise distinct.
/// Meaningful when `translate` succeeds; a walk whose cells alias cannot
/// be mutated safely.
pub open spec fn walk_cells_distinct(s: TableStore, top: u64, v: u64) -> bool {
    let p3 = top;
    let p2 = entry_address(table_entry(s, p3, pt_index(v, 3)));
    let p1 = entry_address(table_entry(s, p2, pt_index(v, 2)));
    let p0 = entry_address(table_entry(s, p1, pt_index(v, 1)));
    let i3 = pt_index(v, 3);
    let i2 = pt_index(v, 2);
    let i1 = pt_index(v, 1);
    let i0 = pt_index(v, 0);
    &&& !(p3 == p2 && i3 == i2)
    &&& !(p3 == p1 && i3 == i1)
    &&& !(p3 == p0 && i3 == i0)
    &&& !(p2 == p1 && i2 == i1)
    &&& !(p2 == p0 && i2 == i0)
    &&& !(p1 == p0 && i1 == i0)
}

/// Between two page-aligned values less than one page apart there is no
/// third: a scan stepping by whole pages visits every aligned address.
pub proof fn lemma_page_gap(x: u64, y: u64)
    by (bit_vector)
    requires
        x % 4096 == 0,
        y % 4096 == 0,
        y <= x,
        x < y + 4096,
    ensures
        x == y,
{
}

proof fn lemma_pt_index_bound(v: u64, s: u64)
    by (bit_vector)
    requires
        s < 64,
    ensures
        ((v >> s) & 0x1ff) < 512,
{
}

/// Computes `pt_index` for a level of the walk.
fn pt_index_exec(v: u64, level: u64) -> (r: usize)
    requires
        level < 4,
    ensures
        r == pt_index(v, level as int),
        r < TABLE_ENTRIES,
{
    let shift = 12 + 9 * level;
    proof {
        lemma_pt_index_bound(v, shift);
    }
    ((v >> shift) & 0x1ff) as usize
}

proof fn lemma_table_entry_bits(p: u64)
    by (bit_vector)
    requires
        p % 4096u64 == 0,
        p + 4096u64 <= 0x10_0000_0000_0000u64,
    ensures
        ((p & 0x000f_ffff_ffff_f000u64) | 0x3u64) & 0x1u64 == 0x1u64,
        ((p & 0x000f_ffff_ffff_f000u64) | 0x3u64) & 0x000f_ffff_ffff_f000u64 == p,
{
}

proof fn lemma_leaf_present(pa: u64, fl: u64)
    by (bit_vector)
    ensures
        (((pa & 0x000f_ffff_ffff_f000u64) | fl | 0x1u64) & 0x1u64) == 0x1u64,
{
}

proof fn lemma_zero_not_present()
    by (bit_vector)
    ensures
        0u64 & 0x1u64 != 0x1u64,
        1u64 & ((1u64 - 1) as u64) == 0u64,
{
}

/// A one-time-use deferred-invalidation token: every mapping mutation
/// returns one, and the caller must either flush the address (feed it to
/// the hardware single-address invalidation) or discard it explicitly in
/// favour of a later full invalidation.
#[must_use]
pub struct PageFlusher {
    pub addr: VirtAddr,
}

impl PageFlusher {
    pub fn new(addr: VirtAddr) -> (r: Self)
        ensures
            r.addr == addr,
    {
        PageFlusher { addr }
    }

    /// Consumes the token, handing back the address the caller must
    /// invalidate now.
    pub fn flush(self) -> (r: VirtAddr)
        ensures
            r == self.addr,
    {
        self.addr
    }

    /// Consumes the token without flushing: the caller takes over the
    /// duty with a later full invalidation.
    pub fn ignore(self) {
    }
}

/// The mapper: a top-level table bound to a store of tables it owns. The
/// frame-supplying capability is passed to each operation.
pub struct PageMapper {
    pub table_kind: PageTableKind,
    pub top: u64,
    pub store: TableStore,
}

impl PageMapper {
    pub open spec fn wf(self) -> bool {
        &&& self.store.wf()
        &&& has_table(self.store, self.top)
    }

    /// Allocates and zeroes a fresh top-level table; fails with
    /// out-of-memory when the underlying allocation fails.
    pub fn create<A: FrameAllocator>(kind: PageTableKind, alloc: &mut A) -> (r: Option<
        PageMapper,
    >)
        requires
            old(alloc).inv(),
        ensures
            final(alloc).inv(),
            r is Some <==> old(alloc).can_allocate(1),
            match r {
                Some(m) => {
                    &&& m.wf()
                    &&& m.table_kind == kind
                    &&& m.store.phys_ids@.len() == 1
                    &&& m.top % PAGE_SIZE == 0
                    &&& forall|i: int|
                        0 <= i < 512 ==> #[trigger] table_entry(m.store, m.top, i) == 0
                },
                None => *final(alloc) == *old(alloc),
            },
    {
        proof {
            lemma_zero_not_present();
        }
        match alloc.allocate(PageFrameCount::new(1)) {
            None => None,
            Some(pair) => {
                let p = pair.0.data();
                let mut store = TableStore::new();
                store.push_table(p);
                proof {
                    store.lemma_slot_unique(0);
                    assert forall|i: int| 0 <= i < 512 implies #[trigger] table_entry(
                        store,
                        p,
                        i,
                    ) == 0 by {
                        assert(store.entries@[i] == 0);
                    }
                }
                Some(PageMapper { table_kind: kind, top: p, store })
            },
        }
    }

    /// The physical address of the top-level table.
    pub fn table_phys(&self) -> (r: PhysAddr)
        ensures
            r.spec_data() == self.top,
    {
        PhysAddr::new(self.top)
    }

    /// Reads one entry of the top-level table.
    pub fn top_entry(&self, i: usize) -> (r: PageEntry)
        requires
            self.wf(),
            i < TABLE_ENTRIES,
        ensures
            r.data == table_entry(self.store, self.top, i as int),
    {
        let slot = match self.store.find_slot(self.top) {
            Some(s) => s,
            None => 0,
        };
        PageEntry::from_data(self.store.read_entry(slot, i))
    }

    /// Overwrites one entry of the top-level table; every other entry of
    /// every table is untouched.
    pub fn set_top_entry(&mut self, i: usize, e: PageEntry)
        requires
            old(self).wf(),
            i < TABLE_ENTRIES,
        ensures
            final(self).wf(),
            final(self).table_kind == old(self).table_kind,
            final(self).top == old(self).top,
            final(self).store.phys_ids == old(self).store.phys_ids,
            table_entry(final(self).store, final(self).top, i as int) == e.data,
            forall|p: u64, j: int|
                has_table(old(self).store, p) && 0 <= j < 512 && !(p == old(self).top && j == i)
                    ==> #[trigger] table_entry(final(self).store, p, j) == table_entry(
                    old(self).store,
                    p,
                    j,
                ),
    {
        let slot = match self.store.find_slot(self.top) {
            Some(s) => s,
            None => 0,
        };
        self.store.write_entry(slot, i, e.data());
        proof {
            let os = old(self).store;
            let ns = self.store;
            let top = old(self).top;
            assert forall|p: u64, j: int|
                has_table(os, p) && 0 <= j < 512 && !(p == top && j == i) implies #[trigger]
            table_entry(ns, p, j) == table_entry(os, p, j) by {
                assert(slot_of(ns, p) == slot_of(os, p));
                if p == top {
                    lemma_flat_index_distinct(slot as int, i as int, slot as int, j);
                } else {
                    os.lemma_slots_distinct(p, top);
                    lemma_flat_index_bounds(
                        slot_of(os, p),
                        j,
                        os.phys_ids@.len() as int,
                    );
                    lemma_flat_index_distinct(slot as int, i as int, slot_of(os, p), j);
                }
            }
        }
    }

    /// Follows a link entry down one level, allocating, zeroing and
    /// registering a fresh table when the entry is not present. A frame
    /// that already holds a live table, or a present link that leaves the
    /// store, signals a corrupted table graph.
    fn resolve_child<A: FrameAllocator>(&mut self, alloc: &mut A, e: u64) -> (r: Result<
        (usize, u64, bool),
        MmError,
    >)
        requires
            old(self).wf(),
            old(alloc).inv(),
        ensures
            final(self).wf(),
            final(alloc).inv(),
            final(self).table_kind == old(self).table_kind,
            final(self).top == old(self).top,
            match r {
                Ok(t) => {
                    &&& (t.0 as int) < final(self).store.phys_ids@.len()
                    &&& final(self).store.phys_ids@[t.0 as int] == t.1
                    &&& has_table(final(self).store, t.1)
                    &&& slot_of(final(self).store, t.1) == t.0 as int
                    &&& t.2 == !entry_present(e)
                    &&& (!t.2 ==> t.1 == entry_address(e) && *final(self) == *old(self)
                        && *final(alloc) == *old(alloc))
                    &&& (t.2 ==> !has_table(old(self).store, t.1)
                        && final(self).store.phys_ids@ == old(self).store.phys_ids@.push(t.1)
                        && final(self).store.entries@ == old(self).store.entries@ + Seq::new(
                        512,
                        |x: int| 0u64,
                    ))
                },
                Err(er) => (er == MmError::Oom || er == MmError::CorruptPageTable)
                    && *final(self) == *old(self),
            },
            entry_present(e) && has_table(old(self).store, entry_address(e)) ==> r is Ok,
    {
        if e & ENTRY_FLAG_PRESENT == ENTRY_FLAG_PRESENT {
            let p = e & ENTRY_ADDR_MASK;
            match self.store.find_slot(p) {
                Some(slot) => Ok((slot, p, false)),
                None => Err(MmError::CorruptPageTable),
            }
        } else {
            proof {
                lemma_zero_not_present();
            }
            let pair = match alloc.allocate(PageFrameCount::new(1)) {
                Some(pr) => pr,
                None => { return Err(MmError::Oom); },
            };
            let p = pair.0.data();
            match self.store.find_slot(p) {
                Some(_s) => Err(MmError::CorruptPageTable),
                None => {
                    if self.store.phys_ids.len() >= MAX_TABLES {
                        return Err(MmError::Oom);
                    }
                    proof {
                        let it = slot_of(old(self).store, old(self).top);
                        assert(old(self).store.phys_ids@[it] == old(self).top);
                    }
                    self.store.push_table(p);
                    proof {
                        let it = slot_of(old(self).store, old(self).top);
                        assert(self.store.phys_ids@[it] == old(self).top);
                        assert(has_table(self.store, self.top));
                    }
                    let slot = self.store.phys_ids.len() - 1;
                    Ok((slot, p, true))
                },
            }
        }
    }

    /// Walks down from the top level, building any missing intermediate
    /// table via the bound allocator, and installs the leaf entry for
    /// `vaddr` mapping `paddr` with `flags` plus the default page flag;
    /// an already-present leaf is overwritten unconditionally. The token
    /// returned is bound to `vaddr`.
    #[verifier::rlimit(100)]
    pub fn map_phys<A: FrameAllocator>(
        &mut self,
        alloc: &mut A,
        vaddr: VirtAddr,
        paddr: PhysAddr,
        flags: PageFlags,
    ) -> (r: Result<PageFlusher, MmError>)
        requires
            old(self).wf(),
            old(alloc).inv(),
        ensures
            final(self).wf(),
            final(self).table_kind == old(self).table_kind,
            final(self).top == old(self).top,
            final(alloc).inv(),
            match r {
                Ok(f) => f.addr == vaddr && translate(
                    final(self).store,
                    final(self).top,
                    vaddr.spec_data(),
                ) == Some(leaf_entry(paddr.spec_data(), flags.data)),
                Err(e) => e == MmError::Oom || e == MmError::CorruptPageTable,
            },
            translate(old(self).store, old(self).top, vaddr.spec_data()) is Some
                && walk_cells_distinct(old(self).store, old(self).top, vaddr.spec_data())
                ==> r is Ok,
    {
        let v = vaddr.data();
        let i3 = pt_index_exec(v, 3);
        let i2 = pt_index_exec(v, 2);
        let i1 = pt_index_exec(v, 1);
        let i0 = pt_index_exec(v, 0);
        let top = self.top;
        let slot3 = match self.store.find_slot(top) {
            Some(s) => s,
            None => { return Err(MmError::CorruptPageTable); },
        };
        let e3 = self.store.read_entry(slot3, i3);
        let (slot2, p2, fresh2) = match self.resolve_child(alloc, e3) {
            Ok(t) => t,
            Err(er) => { return Err(er); },
        };
        proof {
            self.store.lemma_slot_unique(slot3 as int);
        }
        let e2 = self.store.read_entry(slot2, i2);
        let (slot1, p1, fresh1) = match self.resolve_child(alloc, e2) {
            Ok(t) => t,
            Err(er) => { return Err(er); },
        };
        proof {
            self.store.lemma_slot_unique(slot3 as int);
            self.store.lemma_slot_unique(slot2 as int);
        }
        let e1 = self.store.read_entry(slot1, i1);
        let (slot0, p0, fresh0) = match self.resolve_child(alloc, e1) {
            Ok(t) => t,
            Err(er) => { return Err(er); },
        };
        proof {
            self.store.lemma_slot_unique(slot3 as int);
            self.store.lemma_slot_unique(slot2 as int);
            self.store.lemma_slot_unique(slot1 as int);
        }
        // The four cells of the walk must be pairwise distinct: an
        // aliased table graph cannot be mutated safely.
        if (slot3 == slot2 && i3 == i2) || (slot3 == slot1 && i3 == i1) || (slot3 == slot0 && i3
            == i0) || (slot2 == slot1 && i2 == i1) || (slot2 == slot0 && i2 == i0) || (slot1
            == slot0 && i1 == i0) {
            proof {
                // Two colliding slots name the same table frame, so the
                // walk's cells alias and the hypothesis of the
                // owed-success clause cannot hold.
                assert(self.store.phys_ids@[slot3 as int] == top);
                assert(self.store.phys_ids@[slot2 as int] == p2);
                assert(self.store.phys_ids@[slot1 as int] == p1);
                assert(self.store.phys_ids@[slot0 as int] == p0);
            }
            return Err(MmError::CorruptPageTable);
        }
        let ghost s_a = self.store;
        let ghost f3 = slot3 as int * 512 + i3 as int;
        let ghost f2 = slot2 as int * 512 + i2 as int;
        let ghost f1 = slot1 as int * 512 + i1 as int;
        let ghost f0 = slot0 as int * 512 + i0 as int;
        proof {
            let n = s_a.phys_ids@.len() as int;
            lemma_flat_index_bounds(slot3 as int, i3 as int, n);
            lemma_flat_index_bounds(slot2 as int, i2 as int, n);
            lemma_flat_index_bounds(slot1 as int, i1 as int, n);
            lemma_flat_index_bounds(slot0 as int, i0 as int, n);
            lemma_flat_index_distinct(slot3 as int, i3 as int, slot2 as int, i2 as int);
            lemma_flat_index_distinct(slot3 as int, i3 as int, slot1 as int, i1 as int);
            lemma_flat_index_distinct(slot3 as int, i3 as int, slot0 as int, i0 as int);
            lemma_flat_index_distinct(slot2 as int, i2 as int, slot1 as int, i1 as int);
            lemma_flat_index_distinct(slot2 as int, i2 as int, slot0 as int, i0 as int);
            lemma_flat_index_distinct(slot1 as int, i1 as int, slot0 as int, i0 as int);
        }
        if fresh2 {
            self.store.write_entry(slot3, i3, (p2 & ENTRY_ADDR_MASK) | ENTRY_FLAG_DEFAULT_TABLE);
        }
        if fresh1 {
            self.store.write_entry(slot2, i2, (p1 & ENTRY_ADDR_MASK) | ENTRY_FLAG_DEFAULT_TABLE);
        }
        if fresh0 {
            self.store.write_entry(slot1, i1, (p0 & ENTRY_ADDR_MASK) | ENTRY_FLAG_DEFAULT_TABLE);
        }
        let leaf = (paddr.data() & ENTRY_ADDR_MASK) | flags.data() | ENTRY_FLAG_DEFAULT_PAGE;
        self.store.write_entry(slot0, i0, leaf);
        proof {
            let fs = self.store;
            assert(fs.phys_ids == s_a.phys_ids);
            fs.lemma_slot_unique(slot3 as int);
            fs.lemma_slot_unique(slot2 as int);
            fs.lemma_slot_unique(slot1 as int);
            fs.lemma_slot_unique(slot0 as int);
            if fresh2 {
                lemma_table_entry_bits(p2);
            }
            if fresh1 {
                lemma_table_entry_bits(p1);
            }
            if fresh0 {
                lemma_table_entry_bits(p0);
            }
            lemma_leaf_present(paddr.spec_data(), flags.data);
            assert(fs.entries@[f0] == leaf);
            assert(fs.entries@[f3] == (if fresh2 {
                (p2 & ENTRY_ADDR_MASK) | ENTRY_FLAG_DEFAULT_TABLE
            } else {
                e3
            }));
            assert(fs.entries@[f2] == (if fresh1 {
                (p1 & ENTRY_ADDR_MASK) | ENTRY_FLAG_DEFAULT_TABLE
            } else {
                e2
            }));
            assert(fs.entries@[f1] == (if fresh0 {
                (p0 & ENTRY_ADDR_MASK) | ENTRY_FLAG_DEFAULT_TABLE
            } else {
                e1
            }));
            assert(entry_present(table_entry(fs, top, i3 as int)) && entry_address(
                table_entry(fs, top, i3 as int),
            ) == p2);
            assert(entry_present(table_entry(fs, p2, i2 as int)) && entry_address(
                table_entry(fs, p2, i2 as int),
            ) == p1);
            assert(entry_present(table_entry(fs, p1, i1 as int)) && entry_address(
                table_entry(fs, p1, i1 as int),
            ) == p0);
            assert(table_entry(fs, p0, i0 as int) == leaf_entry(
                paddr.spec_data(),
                flags.data,
            ));
            assert(translate(fs, top, vaddr.spec_data()) == Some(leaf_entry(
                paddr.spec_data(),
                flags.data,
            )));
        }
        Ok(PageFlusher::new(vaddr))
    }

    /// Walks to the leaf for `vaddr` and clears it; fails with
    /// `NotMapped` exactly when the walk finds nothing present. With
    /// `free_backing` the leaf's frame goes back to the allocator; an
    /// allocator that refuses it is a corrupted-state outcome. Returns
    /// the removed entry and a token bound to `vaddr`.
    pub fn unmap_phys<A: FrameAllocator>(
        &mut self,
        alloc: &mut A,
        vaddr: VirtAddr,
        free_backing: bool,
    ) -> (r: Result<(PageEntry, PageFlusher), MmError>)
        requires
            old(self).wf(),
            old(alloc).inv(),
        ensures
            final(self).wf(),
            final(self).table_kind == old(self).table_kind,
            final(self).top == old(self).top,
            final(alloc).inv(),
            (r == Result::<(PageEntry, PageFlusher), MmError>::Err(MmError::NotMapped))
                <==> translate(old(self).store, old(self).top, vaddr.spec_data()) is None,
            match r {
                Ok(t) => {
                    &&& translate(old(self).store, old(self).top, vaddr.spec_data()) == Some(
                        t.0.data,
                    )
                    &&& entry_present(t.0.data)
                    &&& translate(final(self).store, final(self).top, vaddr.spec_data()) is None
                    &&& t.1.addr == vaddr
                    &&& final(self).store.phys_ids == old(self).store.phys_ids
                    &&& (free_backing ==> final(alloc).frames_free() == old(alloc).frames_free()
                        + 1)
                    &&& (!free_backing ==> *final(alloc) == *old(alloc))
                },
                Err(er) => {
                    &&& (er == MmError::NotMapped || er == MmError::CorruptPageTable)
                    &&& (er == MmError::NotMapped ==> *final(self) == *old(self) && *final(alloc)
                        == *old(alloc))
                    &&& (er == MmError::CorruptPageTable ==> translate(
                        final(self).store,
                        final(self).top,
                        vaddr.spec_data(),
                    ) is None)
                },
            },
    {
        let v = vaddr.data();
        let i3 = pt_index_exec(v, 3);
        let i2 = pt_index_exec(v, 2);
        let i1 = pt_index_exec(v, 1);
        let i0 = pt_index_exec(v, 0);
        let top = self.top;
        let slot3 = match self.store.find_slot(top) {
            Some(s) => s,
            None => { return Err(MmError::NotMapped); },
        };
        let e3 = self.store.read_entry(slot3, i3);
        if e3 & ENTRY_FLAG_PRESENT != ENTRY_FLAG_PRESENT {
            return Err(MmError::NotMapped);
        }
        let slot2 = match self.store.find_slot(e3 & ENTRY_ADDR_MASK) {
            Some(s) => s,
            None => { return Err(MmError::NotMapped); },
        };
        let e2 = self.store.read_entry(slot2, i2);
        if e2 & ENTRY_FLAG_PRESENT != ENTRY_FLAG_PRESENT {
            return Err(MmError::NotMapped);
        }
        let slot1 = match self.store.find_slot(e2 & ENTRY_ADDR_MASK) {
            Some(s) => s,
            None => { return Err(MmError::NotMapped); },
        };
        let e1 = self.store.read_entry(slot1, i1);
        if e1 & ENTRY_FLAG_PRESENT != ENTRY_FLAG_PRESENT {
            return Err(MmError::NotMapped);
        }
        let slot0 = match self.store.find_slot(e1 & ENTRY_ADDR_MASK) {
            Some(s) => s,
            None => { return Err(MmError::NotMapped); },
        };
        let e0 = self.store.read_entry(slot0, i0);
        if e0 & ENTRY_FLAG_PRESENT != ENTRY_FLAG_PRESENT {
            return Err(MmError::NotMapped);
        }
        let ghost s_a = self.store;
        self.store.write_entry(slot0, i0, 0);
        proof {
            lemma_zero_not_present();
            let fs = self.store;
            fs.lemma_slot_unique(slot3 as int);
            fs.lemma_slot_unique(slot2 as int);
            fs.lemma_slot_unique(slot1 as int);
            fs.lemma_slot_unique(slot0 as int);
            assert(translate(fs, top, vaddr.spec_data()) is None);
        }
        if free_backing {
            match alloc.free(PhysAddr::new(e0 & ENTRY_ADDR_MASK), PageFrameCount::new(1)) {
                Ok(()) => {},
                Err(_er) => { return Err(MmError::CorruptPageTable); },
            }
        }
        Ok((PageEntry::from_data(e0), PageFlusher::new(vaddr)))
    }

    /// Looks the address up in the mapper's own tables.
    pub fn lookup(&self, vaddr: VirtAddr) -> (r: Option<PageEntry>)
        requires
            self.wf(),
        ensures
            match r {
                Some(e) => translate(self.store, self.top, vaddr.spec_data()) == Some(e.data)
                    && entry_present(e.data),
                None => translate(self.store, self.top, vaddr.spec_data()) is None,
            },
    {
        let v = vaddr.data();
        let slot3 = match self.store.find_slot(self.top) {
            Some(s) => s,
            None => { return None; },
        };
        let e3 = self.store.read_entry(slot3, pt_index_exec(v, 3));
        if e3 & ENTRY_FLAG_PRESENT != ENTRY_FLAG_PRESENT {
            return None;
        }
        let slot2 = match self.store.find_slot(e3 & ENTRY_ADDR_MASK) {
            Some(s) => s,
            None => { return None; },
        };
        let e2 = self.store.read_entry(slot2, pt_index_exec(v, 2));
        if e2 & ENTRY_FLAG_PRESENT != ENTRY_FLAG_PRESENT {
            return None;
        }
        let slot1 = match self.store.find_slot(e2 & ENTRY_ADDR_MASK) {
            Some(s) => s,
            None => { return None; },
        };
        let e1 = self.store.read_entry(slot1, pt_index_exec(v, 1));
        if e1 & ENTRY_FLAG_PRESENT != ENTRY_FLAG_PRESENT {
            return None;
        }
        let slot0 = match self.store.find_slot(e1 & ENTRY_ADDR_MASK) {
            Some(s) => s,
            None => { return None; },
        };
        let e0 = self.store.read_entry(slot0, pt_index_exec(v, 0));
        if e0 & ENTRY_FLAG_PRESENT != ENTRY_FLAG_PRESENT {
            return None;
        }
        Some(PageEntry::from_data(e0))
    }
}

/// Law: unmapping an address right after mapping it undoes the mapping
/// and returns its frame. `map_phys` leaves `translate` at the installed
/// leaf; `unmap_phys` with backing-frame return then removes exactly that
/// entry — so the removed entry is the installed leaf, the frame handed
/// back to the allocator (whose accounting `unmap_phys` grows by one) is
/// the frame just mapped, and the address translates to nothing.
pub proof fn lemma_map_then_unmap(s: TableStore, top: u64, v: u64, pa: u64, fl: u64, rem: u64)
    requires
        pa % PAGE_SIZE == 0,
        pa + PAGE_SIZE <= MAX_PHYS,
        fl & ENTRY_ADDR_MASK == 0,
        translate(s, top, v) == Some(leaf_entry(pa, fl)),
        translate(s, top, v) == Some(rem),
    ensures
        rem == leaf_entry(pa, fl),
        entry_address(rem) == pa,
{
    assert(((pa & 0x000f_ffff_ffff_f000u64) | fl | 0x1u64) & 0x000f_ffff_ffff_f000u64 == pa)
        by (bit_vector)
        requires
            pa % 4096u64 == 0,
            pa + 4096u64 <= 0x10_0000_0000_0000u64,
            fl & 0x000f_ffff_ffff_f000u64 == 0,
    ;
}

/// Flat indices of distinct `(slot, entry)` cells never collide.
proof fn lemma_flat_index_distinct(s1: int, i1: int, s2: int, i2: int)
    by (nonlinear_arith)
    requires
        0 <= i1 < 512,
        0 <= i2 < 512,
        s1 >= 0,
        s2 >= 0,
        !(s1 == s2 && i1 == i2),
    ensures
        s1 * 512 + i1 != s2 * 512 + i2,
{
}

/// The flat index of a cell lies inside the store.
proof fn lemma_flat_index_bounds(slot: int, idx: int, n: int)
    by (nonlinear_arith)
    requires
        0 <= slot < n <= 0x10_0000,
        0 <= idx < 512,
    ensures
        0 <= slot * 512 + idx < n * 512,
        slot * 512 + idx < 0x10_0000 * 512,
{
}

} // verus!
