//! The long-lived buddy frame allocator: power-of-two blocks salvaged from
//! the bump allocator's unconsumed capacity, split on allocation and merged
//! with their address-derived buddies on free.

use vstd::prelude::*;

use crate::addr::{
    MmError, PageFrameCount, PageFrameUsage, PhysAddr, PhysMemoryArea, MAX_PHYS, PAGE_SIZE,
};
use crate::addr::page_align_up;
use crate::bump::{bump_end, bump_start, BumpAllocator};
use crate::frame::{check_pow2_u64, is_pow2_u64, FrameAllocator, MAX_ALLOC_FRAMES, NUM_ORDERS};

verus! {

/// Every frame the architecture can address: the accounting never needs to
/// go past this.
pub const MAX_TOTAL_FRAMES: u64 = 0x100_0000_0000;

/// The whole-page bytes of `a` at or above the watermark: what a
/// one-way transfer from the bump allocator salvages out of this area.
pub open spec fn area_salvage_bytes(a: PhysMemoryArea, off: u64) -> int {
    if a.base.spec_data() < MAX_PHYS && bump_start(a, off) < bump_end(a) {
        bump_end(a) - bump_start(a, off)
    } else {
        0
    }
}

/// The whole-page bytes all areas hold at or above the watermark.
pub open spec fn salvage_bytes(areas: Seq<PhysMemoryArea>, off: u64) -> int
    decreases areas.len(),
{
    if areas.len() == 0 {
        0
    } else {
        salvage_bytes(areas.drop_last(), off) + area_salvage_bytes(areas.last(), off)
    }
}

/// One free block: `2^order` contiguous frames starting at `base`.
#[derive(Clone, Copy, Debug, PartialEq, Eq, Structural)]
pub struct FreeBlock {
    pub base: u64,
    pub order: usize,
}

/// Frames in a block of the given order.
pub open spec fn order_frames(o: int) -> u64 {
    1u64 << (o as u64)
}

/// Bytes in a block of the given order.
pub open spec fn order_bytes(o: int) -> u64 {
    4096u64 << (o as u64)
}

/// A block is well formed when its order is managed, its base is aligned
/// to its own size, and it lies inside the physical address space.
pub open spec fn wf_block(b: FreeBlock) -> bool {
    &&& b.order < NUM_ORDERS
    &&& b.base % order_bytes(b.order as int) == 0
    &&& b.base + order_bytes(b.order as int) <= MAX_PHYS
}

/// The free-space accounting: total frames held by a list of free blocks.
pub open spec fn free_frames_of(s: Seq<FreeBlock>) -> int
    decreases s.len(),
{
    if s.len() == 0 {
        0
    } else {
        free_frames_of(s.drop_last()) + order_frames(s.last().order as int)
    }
}

proof fn lemma_pow2_pos(k: u64)
    by (bit_vector)
    requires
        k < 64,
    ensures
        (1u64 << k) >= 1,
{
}

proof fn lemma_shift_zero()
    by (bit_vector)
    ensures
        1u64 << 0u64 == 1u64,
        4096u64 << 0u64 == 4096u64,
{
}

proof fn lemma_bytes_pos(k: u64)
    by (bit_vector)
    requires
        k < 32,
    ensures
        (4096u64 << k) >= 4096,
{
}

proof fn lemma_pow2_double(k: u64)
    by (bit_vector)
    requires
        k < 63,
    ensures
        (1u64 << ((k + 1) as u64)) == (1u64 << k) + (1u64 << k),
{
}

proof fn lemma_bytes_double(k: u64)
    by (bit_vector)
    requires
        k < 50,
    ensures
        (4096u64 << ((k + 1) as u64)) == (4096u64 << k) + (4096u64 << k),
{
}

proof fn lemma_bytes_frames(k: u64)
    by (bit_vector)
    requires
        k < 31,
    ensures
        (4096u64 << k) == (1u64 << k) * 4096,
{
}

proof fn lemma_pow2_mono(a: u64, b: u64)
    by (bit_vector)
    requires
        a <= b,
        b < 64,
    ensures
        (1u64 << a) <= (1u64 << b),
        a < b ==> (1u64 << a) < (1u64 << b),
{
}

proof fn lemma_pow2_next(c: u64, k: u64)
    by (bit_vector)
    requires
        c != 0,
        c & ((c - 1) as u64) == 0,
        k < 62,
        (1u64 << k) < c,
    ensures
        (1u64 << ((k + 1) as u64)) <= c,
{
}

proof fn lemma_pow2_within(k: u64)
    by (bit_vector)
    requires
        k < 63,
        (1u64 << ((k + 1) as u64)) <= 0x4000_0000u64,
    ensures
        k + 1 <= 30,
{
}

#[verifier::rlimit(100)]
#[verifier::spinoff_prover]
proof fn lemma_align_split(b: u64, k: u64)
    by (bit_vector)
    requires
        k < 30,
        b % (4096u64 << ((k + 1) as u64)) == 0,
        b + (4096u64 << ((k + 1) as u64)) <= 0x10_0000_0000_0000u64,
    ensures
        b % (4096u64 << k) == 0,
        ((b + (4096u64 << k)) as u64) % (4096u64 << k) == 0,
        b + (4096u64 << k) + (4096u64 << k) <= 0x10_0000_0000_0000u64,
{
}

proof fn lemma_align_to_page(b: u64, k: u64)
    by (bit_vector)
    requires
        k < 31,
        b % (4096u64 << k) == 0,
    ensures
        b % 4096u64 == 0,
{
}

#[verifier::rlimit(100)]
#[verifier::spinoff_prover]
proof fn lemma_buddy_xor(b: u64, bb: u64, k: u64)
    by (bit_vector)
    requires
        k < 30,
        b % (4096u64 << k) == 0,
        bb == b ^ (4096u64 << k),
    ensures
        bb != b,
        bb % (4096u64 << k) == 0,
        (b & !(4096u64 << k)) == b ==> bb == b + (4096u64 << k),
        (b & !(4096u64 << k)) != b ==> (b & !(4096u64 << k)) == bb && b == bb + (4096u64 << k),
{
}

#[verifier::rlimit(100)]
#[verifier::spinoff_prover]
proof fn lemma_clear_bit_align(b: u64, k: u64)
    by (bit_vector)
    requires
        k < 30,
        b % (4096u64 << k) == 0,
    ensures
        (b & !(4096u64 << k)) % (4096u64 << ((k + 1) as u64)) == 0,
{
}

proof fn lemma_buddy_merge(b: u64, bb: u64, m: u64, k: u64)
    requires
        k < 30,
        b % (4096u64 << k) == 0,
        bb == b ^ (4096u64 << k),
        m == b & !(4096u64 << k),
        b + (4096u64 << k) <= 0x10_0000_0000_0000u64,
        bb + (4096u64 << k) <= 0x10_0000_0000_0000u64,
    ensures
        bb != b,
        bb % (4096u64 << k) == 0,
        m % (4096u64 << ((k + 1) as u64)) == 0,
        m + (4096u64 << ((k + 1) as u64)) <= 0x10_0000_0000_0000u64,
        m == b || m == bb,
{
    lemma_buddy_xor(b, bb, k);
    lemma_clear_bit_align(b, k);
    lemma_bytes_double(k);
    if m == b {
        assert(bb == b + (4096u64 << k));
    } else {
        assert(m == bb && b == bb + (4096u64 << k));
    }
}

proof fn lemma_ff_nonneg(s: Seq<FreeBlock>)
    ensures
        free_frames_of(s) >= 0,
    decreases s.len(),
{
    if s.len() > 0 {
        lemma_ff_nonneg(s.drop_last());
    }
}

proof fn lemma_ff_push(s: Seq<FreeBlock>, x: FreeBlock)
    ensures
        free_frames_of(s.push(x)) == free_frames_of(s) + order_frames(x.order as int),
{
    assert(s.push(x).drop_last() =~= s);
    assert(s.push(x).last() == x);
}

proof fn lemma_ff_elem(s: Seq<FreeBlock>, i: int)
    requires
        0 <= i < s.len(),
    ensures
        free_frames_of(s) >= order_frames(s[i].order as int),
    decreases s.len(),
{
    if i == s.len() - 1 {
        lemma_ff_nonneg(s.drop_last());
    } else {
        lemma_ff_elem(s.drop_last(), i);
        assert(order_frames(s.last().order as int) >= 0);
    }
}

proof fn lemma_ff_update(s: Seq<FreeBlock>, i: int, x: FreeBlock)
    requires
        0 <= i < s.len(),
    ensures
        free_frames_of(s.update(i, x)) == free_frames_of(s) - order_frames(s[i].order as int)
            + order_frames(x.order as int),
    decreases s.len(),
{
    if i == s.len() - 1 {
        assert(s.update(i, x).drop_last() =~= s.drop_last());
        assert(s.update(i, x).last() == x);
    } else {
        assert(s.update(i, x).drop_last() =~= s.drop_last().update(i, x));
        assert(s.update(i, x).last() == s.last());
        lemma_ff_update(s.drop_last(), i, x);
    }
}

proof fn lemma_ff_swap_remove(s: Seq<FreeBlock>, i: int)
    requires
        0 <= i < s.len(),
    ensures
        free_frames_of(s.update(i, s.last()).drop_last()) == free_frames_of(s) - order_frames(
            s[i].order as int,
        ),
{
    lemma_ff_update(s, i, s.last());
    let s2 = s.update(i, s.last());
    assert(s2.last() == s.last());
    assert(free_frames_of(s2) == free_frames_of(s2.drop_last()) + order_frames(
        s2.last().order as int,
    ));
}

/// Finds the order whose block holds exactly `count` frames.
fn order_of(count: u64) -> (r: usize)
    requires
        is_pow2_u64(count),
        count <= MAX_ALLOC_FRAMES,
    ensures
        r < NUM_ORDERS,
        order_frames(r as int) == count,
{
    let mut k: usize = 0;
    proof {
        lemma_shift_zero();
    }
    while (1u64 << k) < count
        invariant
            k < NUM_ORDERS,
            (1u64 << (k as u64)) <= count,
            is_pow2_u64(count),
            count <= MAX_ALLOC_FRAMES,
        decreases NUM_ORDERS - k,
    {
        proof {
            lemma_pow2_next(count, k as u64);
            lemma_pow2_within(k as u64);
        }
        k = k + 1;
    }
    k
}

/// The buddy allocator: the sole post-boot frame source. The embedding
/// kernel serializes every call behind one interrupt-safe lock.
pub struct BuddyAllocator {
    /// The free blocks, every one well formed.
    pub blocks: Vec<FreeBlock>,
    /// Frames currently free: kept equal to the accounting over `blocks`.
    pub free_count: u64,
    /// Frames handed over at construction.
    pub total_frames: u64,
}

impl BuddyAllocator {
    pub open spec fn wf(self) -> bool {
        &&& forall|i: int| 0 <= i < self.blocks@.len() ==> wf_block(#[trigger] self.blocks@[i])
        &&& self.free_count == free_frames_of(self.blocks@)
        &&& self.free_count <= MAX_TOTAL_FRAMES
    }

    pub open spec fn spec_free_frames(self) -> int {
        free_frames_of(self.blocks@)
    }

    /// A request for `count` frames can be served exactly when some free
    /// block is at least that large.
    pub open spec fn spec_can_allocate(self, count: u64) -> bool {
        exists|i: int|
            0 <= i < self.blocks@.len() && #[trigger] order_frames(self.blocks@[i].order as int)
                >= count
    }

    /// An allocator holding no memory at all.
    pub fn empty() -> (r: Self)
        ensures
            r.wf(),
            r.blocks@.len() == 0,
            r.spec_free_frames() == 0,
            r.total_frames == 0,
    {
        BuddyAllocator { blocks: Vec::new(), free_count: 0, total_frames: 0 }
    }

    /// Builds the allocator by consuming the bump allocator: every whole
    /// page of the discovered areas at or above the watermark is salvaged
    /// into power-of-two blocks, larger blocks formed where alignment and
    /// contiguous capacity allow. Fails only when the salvage would exceed
    /// the architecture's addressable frame count.
    pub fn new(bump: BumpAllocator) -> (r: Option<Self>)
        requires
            bump.wf(),
        ensures
            match r {
                Some(b) => {
                    &&& b.wf()
                    &&& b.total_frames == b.free_count
                    &&& b.free_count * PAGE_SIZE == salvage_bytes(
                        bump.spec_areas(),
                        bump.spec_offset(),
                    )
                    &&& forall|i: int|
                        0 <= i < b.blocks@.len() ==> (#[trigger] b.blocks@[i]).base
                            >= bump.spec_offset()
                },
                None => true,
            },
    {
        let mut out = BuddyAllocator::empty();
        let offset = bump.offset();
        let ghost off0 = bump.spec_offset();
        let areas = bump.areas;
        proof {
            assert(areas@.take(0) =~= Seq::<PhysMemoryArea>::empty());
        }
        let mut i: usize = 0;
        while i < areas.len()
            invariant
                out.wf(),
                offset % PAGE_SIZE == 0,
                offset == off0,
                i <= areas@.len(),
                out.free_count * PAGE_SIZE == salvage_bytes(areas@.take(i as int), off0),
                forall|j: int|
                    0 <= j < out.blocks@.len() ==> (#[trigger] out.blocks@[j]).base >= off0,
            decreases areas@.len() - i,
        {
            let a = areas[i];
            proof {
                assert(areas@.take(i + 1).drop_last() =~= areas@.take(i as int));
                assert(areas@.take(i + 1).last() == areas@[i as int]);
            }
            let base = a.base.data();
            if base < MAX_PHYS {
                let start0 = page_align_up(base);
                let start = if offset > start0 {
                    offset
                } else {
                    start0
                };
                let end_raw: u64 = if a.size > MAX_PHYS - base {
                    MAX_PHYS
                } else {
                    base + a.size
                };
                let end: u64 = end_raw & !(PAGE_SIZE - 1);
                proof {
                    assert(end <= end_raw && end % 4096 == 0) by (bit_vector)
                        requires
                            end == end_raw & !4095u64,
                    ;
                    assert(end_raw == (if a.base.spec_data() + a.size > MAX_PHYS {
                        MAX_PHYS
                    } else {
                        (a.base.spec_data() + a.size) as u64
                    }));
                    assert(end == bump_end(a));
                    assert(start == bump_start(a, off0));
                }
                if start >= end {
                    proof {
                        assert(area_salvage_bytes(a, off0) == 0);
                    }
                    i = i + 1;
                    continue ;
                }
                let mut cur = start;
                while cur < end
                    invariant
                        out.wf(),
                        cur % PAGE_SIZE == 0,
                        start <= cur <= end,
                        cur >= off0,
                        end % PAGE_SIZE == 0,
                        end <= MAX_PHYS,
                        out.free_count * PAGE_SIZE == salvage_bytes(areas@.take(i as int), off0)
                            + (cur - start),
                        forall|j: int|
                            0 <= j < out.blocks@.len() ==> (#[trigger] out.blocks@[j]).base
                                >= off0,
                    decreases end - cur,
                {
                    // Largest aligned block that still fits in [cur, end).
                    let mut k: usize = 0;
                    let mut grow = true;
                    proof {
                        assert((end - cur) >= 4096) by (nonlinear_arith)
                            requires
                                cur % 4096 == 0,
                                end % 4096 == 0,
                                cur < end,
                        ;
                        lemma_shift_zero();
                    }
                    while grow
                        invariant
                            k < NUM_ORDERS,
                            cur % (4096u64 << (k as u64)) == 0,
                            cur + (4096u64 << (k as u64)) <= end,
                            cur < end,
                            end <= MAX_PHYS,
                        decreases NUM_ORDERS - k, (if grow {
                            1int
                        } else {
                            0int
                        }),
                    {
                        if k + 1 < NUM_ORDERS {
                            proof {
                                lemma_bytes_pos((k + 1) as u64);
                            }
                            let next_bytes = PAGE_SIZE << (k + 1);
                            if cur % next_bytes == 0 && next_bytes <= end - cur {
                                k = k + 1;
                            } else {
                                grow = false;
                            }
                        } else {
                            grow = false;
                        }
                    }
                    let bytes = PAGE_SIZE << k;
                    let frames = 1u64 << k;
                    proof {
                        lemma_bytes_frames(k as u64);
                        lemma_pow2_pos(k as u64);
                    }
                    if out.free_count > MAX_TOTAL_FRAMES - frames {
                        return None;
                    }
                    let blk = FreeBlock { base: cur, order: k };
                    proof {
                        lemma_ff_push(out.blocks@, blk);
                    }
                    out.blocks.push(blk);
                    out.free_count = out.free_count + frames;
                    proof {
                        assert((cur + bytes) % 4096 == 0) by (nonlinear_arith)
                            requires
                                cur % 4096 == 0,
                                bytes % 4096 == 0,
                        ;
                    }
                    cur = cur + bytes;
                }
                proof {
                    assert(cur == end);
                    assert(area_salvage_bytes(a, off0) == end - start);
                }
            } else {
                proof {
                    assert(area_salvage_bytes(a, off0) == 0);
                }
            }
            i = i + 1;
        }
        proof {
            assert(areas@.take(areas@.len() as int) =~= areas@);
        }
        out.total_frames = out.free_count;
        Some(out)
    }

    /// Allocates `count` frames, `count` a power of two: takes the
    /// smallest free block that is large enough and splits it down,
    /// keeping the lower half at each step. The grant is aligned to its
    /// own size and lowers the free-space accounting by exactly `count`;
    /// the request fails only when no free block is large enough.
    pub fn allocate_frames(&mut self, count: PageFrameCount) -> (r: Option<(
        PhysAddr,
        PageFrameCount,
    )>)
        requires
            old(self).wf(),
            is_pow2_u64(count.spec_data()),
            count.spec_data() <= MAX_ALLOC_FRAMES,
        ensures
            final(self).wf(),
            final(self).total_frames == old(self).total_frames,
            r is Some <==> old(self).spec_can_allocate(count.spec_data()),
            match r {
                Some(p) => {
                    &&& p.1 == count
                    &&& p.0.spec_data() % PAGE_SIZE == 0
                    &&& (p.0.spec_data() as int) % (count.spec_data() * PAGE_SIZE) == 0
                    &&& p.0.spec_data() + count.spec_data() * PAGE_SIZE <= MAX_PHYS
                    &&& final(self).spec_free_frames() == old(self).spec_free_frames()
                        - count.spec_data()
                    &&& final(self).free_count == old(self).free_count - count.spec_data()
                },
                None => {
                    &&& *final(self) == *old(self)
                    &&& forall|i: int|
                        0 <= i < old(self).blocks@.len() ==> #[trigger] order_frames(
                            old(self).blocks@[i].order as int,
                        ) < count.spec_data()
                },
            },
    {
        let count_u = count.data();
        let ord = order_of(count_u);
        // Find the smallest block of order at least `ord`.
        let mut best: usize = self.blocks.len();
        let mut i: usize = 0;
        while i < self.blocks.len()
            invariant
                *self == *old(self),
                self.wf(),
                i <= self.blocks@.len(),
                best <= self.blocks@.len(),
                ord < NUM_ORDERS,
                best < self.blocks@.len() ==> self.blocks@[best as int].order >= ord,
                best == self.blocks@.len() ==> forall|j: int|
                    0 <= j < i ==> (#[trigger] self.blocks@[j].order) < ord,
            decreases self.blocks@.len() - i,
        {
            let b = &self.blocks[i];
            if b.order >= ord {
                if best == self.blocks.len() {
                    best = i;
                } else if b.order < self.blocks[best].order {
                    best = i;
                }
            }
            i = i + 1;
        }
        if best == self.blocks.len() {
            proof {
                assert forall|j: int| 0 <= j < self.blocks@.len() implies #[trigger] order_frames(
                    self.blocks@[j].order as int,
                ) < count.spec_data() by {
                    lemma_pow2_mono(self.blocks@[j].order as u64, ord as u64);
                }
                assert(!self.spec_can_allocate(count.spec_data()));
            }
            return None;
        }
        let ghost ff0 = free_frames_of(self.blocks@);
        proof {
            lemma_ff_swap_remove(self.blocks@, best as int);
        }
        let blk = self.blocks.swap_remove(best);
        let mut b = blk.base;
        let mut j = blk.order;
        while j > ord
            invariant
                self.wf_blocks_only(),
                ord <= j <= blk.order,
                blk.order < NUM_ORDERS,
                b % order_bytes(j as int) == 0,
                b + order_bytes(j as int) <= MAX_PHYS,
                free_frames_of(self.blocks@) == ff0 - order_frames(j as int),
                self.free_count == old(self).free_count,
                self.total_frames == old(self).total_frames,
            decreases j,
        {
            j = j - 1;
            let half = PAGE_SIZE << j;
            proof {
                lemma_align_split(b, j as u64);
                lemma_bytes_double(j as u64);
                lemma_pow2_double(j as u64);
            }
            let upper = b + half;
            let blk2 = FreeBlock { base: upper, order: j };
            proof {
                lemma_ff_push(self.blocks@, blk2);
            }
            self.blocks.push(blk2);
        }
        proof {
            lemma_ff_elem(old(self).blocks@, best as int);
            lemma_pow2_mono(ord as u64, blk.order as u64);
            lemma_bytes_frames(ord as u64);
            lemma_align_to_page(b, ord as u64);
            assert(order_frames(old(self).blocks@[best as int].order as int)
                >= count.spec_data());
        }
        self.free_count = self.free_count - count_u;
        Some((PhysAddr::new(b), count))
    }

    /// The well-formedness of the blocks alone, without the accounting tie.
    pub open spec fn wf_blocks_only(self) -> bool {
        forall|i: int| 0 <= i < self.blocks@.len() ==> wf_block(#[trigger] self.blocks@[i])
    }

    /// Index of a free block with exactly this base and order, if any.
    fn find_block(&self, base: u64, order: usize) -> (r: Option<usize>)
        ensures
            match r {
                Some(i) => i < self.blocks@.len() && self.blocks@[i as int].base == base
                    && self.blocks@[i as int].order == order,
                None => true,
            },
    {
        let mut i: usize = 0;
        while i < self.blocks.len()
            invariant
                i <= self.blocks@.len(),
            decreases self.blocks@.len() - i,
        {
            let b = &self.blocks[i];
            if b.base == base && b.order == order {
                return Some(i);
            }
            i = i + 1;
        }
        None
    }

    /// Returns a block of `count` frames at `address`, merging it with its
    /// address-derived buddy while the buddy is also free. `count` must be
    /// a power of two: any other count is the fatal `NonPowerOfTwoFree`
    /// outcome and changes nothing, never a silent success. The two other
    /// failures are equally fatal invariant violations; on success the
    /// free-space accounting grows by exactly `count`.
    pub fn free_frames(&mut self, address: PhysAddr, count: PageFrameCount) -> (r: Result<
        (),
        MmError,
    >)
        requires
            old(self).wf(),
        ensures
            final(self).wf(),
            final(self).total_frames == old(self).total_frames,
            if !is_pow2_u64(count.spec_data()) {
                r == Result::<(), MmError>::Err(MmError::NonPowerOfTwoFree) && *final(self)
                    == *old(self)
            } else if count.spec_data() > MAX_ALLOC_FRAMES {
                r == Result::<(), MmError>::Err(MmError::FreeTooLarge) && *final(self) == *old(
                    self,
                )
            } else if (address.spec_data() as int) % (count.spec_data() * PAGE_SIZE) != 0
                || address.spec_data() + count.spec_data() * PAGE_SIZE > MAX_PHYS {
                r == Result::<(), MmError>::Err(MmError::MisalignedFree) && *final(self) == *old(
                    self,
                )
            } else if old(self).free_count + count.spec_data() > MAX_TOTAL_FRAMES {
                r == Result::<(), MmError>::Err(MmError::AccountingOverflow) && *final(self)
                    == *old(self)
            } else {
                r == Result::<(), MmError>::Ok(()) && final(self).spec_free_frames() == old(
                    self,
                ).spec_free_frames() + count.spec_data() && final(self).free_count == old(
                    self,
                ).free_count + count.spec_data()
            },
    {
        let count_u = count.data();
        if !check_pow2_u64(count_u) {
            return Err(MmError::NonPowerOfTwoFree);
        }
        if count_u > MAX_ALLOC_FRAMES {
            return Err(MmError::FreeTooLarge);
        }
        let need = count_u * PAGE_SIZE;
        if address.data() % need != 0 || address.data() > MAX_PHYS - need {
            return Err(MmError::MisalignedFree);
        }
        if self.free_count > MAX_TOTAL_FRAMES - count_u {
            return Err(MmError::AccountingOverflow);
        }
        let ord = order_of(count_u);
        proof {
            lemma_bytes_frames(ord as u64);
        }
        let ghost ff0 = free_frames_of(self.blocks@);
        let mut b = address.data();
        let mut k = ord;
        let mut done = false;
        while !done
            invariant
                self.wf_blocks_only(),
                ord <= k < NUM_ORDERS,
                b % order_bytes(k as int) == 0,
                b + order_bytes(k as int) <= MAX_PHYS,
                free_frames_of(self.blocks@) == ff0 - (order_frames(k as int) - order_frames(
                    ord as int,
                )),
                self.free_count == old(self).free_count,
                self.total_frames == old(self).total_frames,
                order_frames(k as int) >= order_frames(ord as int),
            decreases NUM_ORDERS - k, (if done { 0int } else { 1int }),
        {
            if k + 1 >= NUM_ORDERS {
                done = true;
            } else {
                let size = PAGE_SIZE << k;
                let buddy = b ^ size;
                match self.find_block(buddy, k) {
                    Some(idx) => {
                        proof {
                            lemma_buddy_merge(b, buddy, b & !(4096u64 << (k as u64)), k as u64);
                            lemma_bytes_double(k as u64);
                            lemma_pow2_double(k as u64);
                            lemma_pow2_mono(ord as u64, (k + 1) as u64);
                            lemma_ff_swap_remove(self.blocks@, idx as int);
                        }
                        self.blocks.swap_remove(idx);
                        b = b & !size;
                        k = k + 1;
                    },
                    None => {
                        done = true;
                    },
                }
            }
        }
        let blk = FreeBlock { base: b, order: k };
        proof {
            lemma_ff_push(self.blocks@, blk);
            lemma_ff_nonneg(old(self).blocks@);
            lemma_ff_nonneg(self.blocks@);
        }
        self.blocks.push(blk);
        self.free_count = self.free_count + count_u;
        Ok(())
    }

    /// Occupancy: how many of the frames handed over at construction are
    /// currently out. A free-space count past the construction total (the
    /// result of freeing frames this allocator never granted) reports as
    /// fully free.
    pub fn usage_frames(&self) -> (r: PageFrameUsage)
        requires
            self.wf(),
        ensures
            r.total == self.total_frames,
            r.used == if self.free_count > self.total_frames {
                0u64
            } else {
                (self.total_frames - self.free_count) as u64
            },
    {
        if self.free_count > self.total_frames {
            PageFrameUsage { used: 0, total: self.total_frames }
        } else {
            PageFrameUsage { used: self.total_frames - self.free_count, total: self.total_frames }
        }
    }
}

/// Law: allocating a power-of-two block and freeing it back returns the
/// free-space accounting to its pre-call state. The two premises are
/// exactly what `allocate_frames` and `free_frames` ensure on success.
pub proof fn lemma_allocate_then_free_restores(
    pre: BuddyAllocator,
    mid: BuddyAllocator,
    post: BuddyAllocator,
    count: u64,
)
    requires
        mid.spec_free_frames() == pre.spec_free_frames() - count,
        post.spec_free_frames() == mid.spec_free_frames() + count,
    ensures
        post.spec_free_frames() == pre.spec_free_frames(),
{
}

impl FrameAllocator for BuddyAllocator {
    open spec fn inv(&self) -> bool {
        self.wf()
    }

    open spec fn frames_free(&self) -> int {
        self.spec_free_frames()
    }

    open spec fn can_allocate(&self, count: u64) -> bool {
        self.spec_can_allocate(count)
    }

    fn allocate(&mut self, count: PageFrameCount) -> (r: Option<(PhysAddr, PageFrameCount)>) {
        self.allocate_frames(count)
    }

    fn free(&mut self, address: PhysAddr, count: PageFrameCount) -> (r: Result<(), MmError>) {
        self.free_frames(address, count)
    }

    fn usage(&self) -> (r: PageFrameUsage) {
        self.usage_frames()
    }
}

} // verus!
