//! Addresses, paging constants, and the subsystem's error type.

use vstd::prelude::*;

verus! {

/// Log2 of the page size: 4 KiB pages.
pub const PAGE_SHIFT: u64 = 12;

/// Size of one page / frame in bytes.
pub const PAGE_SIZE: u64 = 4096;

/// Entries per page table: each entry is 8 bytes, one table is one page.
pub const PAGE_ENTRY_NUM: u64 = 512;

/// Number of levels of the radix page-table structure.
pub const PAGE_LEVELS: u64 = 4;

/// Fixed offset between a kernel-half virtual address and the physical
/// address it maps: the base of the high (kernel) half.
pub const PHYS_OFFSET: u64 = 0xffff_8000_0000_0000;

/// One past the largest physical address the architecture can address
/// (bits 0..=51 of a page-table entry carry the frame address).
pub const MAX_PHYS: u64 = 0x10_0000_0000_0000;

/// Largest physical address that the fixed-offset kernel window can reach.
pub const MAX_LINEAR_PHYS: u64 = 0x8000_0000_0000;

/// Last valid user-half virtual address.
pub const USER_END_VADDR: u64 = 0x0000_7eff_ffff_ffff;

/// Bottom of the user heap region.
pub const USER_BRK_START: u64 = 0x7000_0000_0000;

/// Top of the user stack region.
pub const USER_STACK_START: u64 = 0x6fff_f0a0_0000;

/// Outcomes of the subsystem's fallible operations. `Oom` and `NotMapped`
/// are recoverable; every other variant reports a violated invariant that
/// the embedding kernel must treat as fatal.
#[derive(Clone, Copy, Debug, PartialEq, Eq, Structural)]
pub enum MmError {
    /// No frame was available for an allocation.
    Oom,
    /// `unmap_phys` found no present leaf entry at the given address.
    NotMapped,
    /// A set-once value (bootstrap state, table root, allocator singleton)
    /// was written a second time.
    AlreadyInitialized,
    /// The firmware reported more usable areas than the fixed-capacity list
    /// can hold.
    TooManyAreas,
    /// A frame count handed to `free` was not a power of two.
    NonPowerOfTwoFree,
    /// A frame count handed to `free` was larger than the largest block
    /// order the allocator manages.
    FreeTooLarge,
    /// Freeing this block would push the free-space accounting past the
    /// number of frames the architecture can address.
    AccountingOverflow,
    /// The address handed to `free` was not aligned to the block being
    /// freed, or the block would reach past the physical address space.
    MisalignedFree,
    /// The allocator offers no free operation (bootstrap bump allocator).
    FreeUnsupported,
    /// The page-table graph is not a tree, or an allocator handed out a
    /// frame that already holds a live table.
    CorruptPageTable,
    /// An address fell outside the domain of a required conversion.
    InvalidAddress,
}

/// A physical address: an opaque integer wrapper.
#[derive(Clone, Copy, Debug, PartialEq, Eq, Structural, Hash)]
pub struct PhysAddr {
    pub value: u64,
}

impl PhysAddr {
    /// The raw address, for use in specifications.
    pub open spec fn spec_data(self) -> u64 {
        self.value
    }

    pub fn new(value: u64) -> (r: Self)
        ensures
            r.spec_data() == value,
    {
        PhysAddr { value }
    }

    pub fn data(self) -> (r: u64)
        ensures
            r == self.spec_data(),
    {
        self.value
    }

    /// True when the address is a page boundary.
    pub fn check_page_aligned(self) -> (r: bool)
        ensures
            r == (self.spec_data() % PAGE_SIZE == 0),
    {
        self.value % PAGE_SIZE == 0
    }
}

/// A virtual address: an opaque integer wrapper.
#[derive(Clone, Copy, Debug, PartialEq, Eq, Structural, Hash)]
pub struct VirtAddr {
    pub value: u64,
}

/// A virtual address is canonical when its bits above the 47th are either
/// uniformly zero (user half) or uniformly one, i.e. uniformly equal to the
/// high bits of `PHYS_OFFSET` (kernel half).
pub open spec fn is_canonical_addr(v: u64) -> bool {
    v >> 47 == 0 || v >> 47 == 0x1ffff
}

impl VirtAddr {
    /// The raw address, for use in specifications.
    pub open spec fn spec_data(self) -> u64 {
        self.value
    }

    pub fn new(value: u64) -> (r: Self)
        ensures
            r.spec_data() == value,
    {
        VirtAddr { value }
    }

    pub fn data(self) -> (r: u64)
        ensures
            r == self.spec_data(),
    {
        self.value
    }

    /// True when the address is a page boundary.
    pub fn check_page_aligned(self) -> (r: bool)
        ensures
            r == (self.spec_data() % PAGE_SIZE == 0),
    {
        self.value % PAGE_SIZE == 0
    }

    /// True exactly when every bit above the 47th is zero, or every bit
    /// above the 47th is one: a mixed pattern is never canonical.
    pub fn is_canonical(self) -> (r: bool)
        ensures
            r == is_canonical_addr(self.spec_data()),
    {
        let v = self.value;
        let x = v & PHYS_OFFSET;
        proof {
            assert((x == 0 || x == 0xffff_8000_0000_0000u64) == (v >> 47 == 0
                || v >> 47 == 0x1ffff)) by (bit_vector)
                requires
                    x == v & 0xffff_8000_0000_0000u64,
            ;
        }
        x == 0 || x == PHYS_OFFSET
    }
}

/// One contiguous region of usable physical memory reported by firmware.
#[derive(Clone, Copy, Debug, PartialEq, Eq, Structural)]
pub struct PhysMemoryArea {
    pub base: PhysAddr,
    pub size: u64,
}

impl PhysMemoryArea {
    pub fn new(base: PhysAddr, size: u64) -> (r: Self)
        ensures
            r.base == base,
            r.size == size,
    {
        PhysMemoryArea { base, size }
    }
}

/// A number of page frames.
#[derive(Clone, Copy, Debug, PartialEq, Eq, Structural, Hash)]
pub struct PageFrameCount {
    pub frames: u64,
}

impl PageFrameCount {
    pub open spec fn spec_data(self) -> u64 {
        self.frames
    }

    pub fn new(frames: u64) -> (r: Self)
        ensures
            r.spec_data() == frames,
    {
        PageFrameCount { frames }
    }

    pub fn data(self) -> (r: u64)
        ensures
            r == self.spec_data(),
    {
        self.frames
    }

    /// Converts a byte count to a frame count; the byte count must be a
    /// whole number of pages.
    pub fn from_bytes(bytes: u64) -> (r: Option<Self>)
        ensures
            match r {
                Some(c) => bytes % PAGE_SIZE == 0 && c.spec_data() * PAGE_SIZE == bytes,
                None => bytes % PAGE_SIZE != 0,
            },
    {
        if bytes % PAGE_SIZE == 0 {
            Some(PageFrameCount { frames: bytes / PAGE_SIZE })
        } else {
            None
        }
    }
}

/// Frame-allocator occupancy: `used` of `total` frames are handed out.
#[derive(Clone, Copy, Debug, PartialEq, Eq, Structural)]
pub struct PageFrameUsage {
    pub used: u64,
    pub total: u64,
}

/// The page-rounded-up value of `x`, meaningful for
/// `x <= u64::MAX - (PAGE_SIZE - 1)`.
pub open spec fn spec_page_align_up(x: u64) -> u64 {
    ((x + 4095) as u64) & !4095u64
}

/// Rounds a byte count or address up to the next page boundary.
pub fn page_align_up(addr: u64) -> (r: u64)
    requires
        addr + PAGE_SIZE - 1 <= u64::MAX,
    ensures
        r == spec_page_align_up(addr),
        r % PAGE_SIZE == 0,
        addr <= r < addr + PAGE_SIZE,
{
    let r = (addr + (PAGE_SIZE - 1)) & !(PAGE_SIZE - 1);
    proof {
        assert(r % 4096 == 0 && addr <= r < addr + 4096) by (bit_vector)
            requires
                r == ((addr + 4095) as u64) & !4095u64,
                addr <= u64::MAX - 4095,
        ;
    }
    r
}

/// Translates a physical address through the fixed-offset kernel window;
/// fails for addresses beyond the window.
pub fn phys_2_virt(phys: PhysAddr) -> (r: Option<VirtAddr>)
    ensures
        match r {
            Some(v) => phys.spec_data() < MAX_LINEAR_PHYS
                && v.spec_data() == phys.spec_data() + PHYS_OFFSET,
            None => phys.spec_data() >= MAX_LINEAR_PHYS,
        },
{
    if phys.data() < MAX_LINEAR_PHYS {
        Some(VirtAddr::new(phys.data() + PHYS_OFFSET))
    } else {
        None
    }
}

/// Translates a kernel-window virtual address back to its physical address;
/// fails for addresses below the window.
pub fn virt_2_phys(virt: VirtAddr) -> (r: Option<PhysAddr>)
    ensures
        match r {
            Some(p) => virt.spec_data() >= PHYS_OFFSET
                && p.spec_data() == virt.spec_data() - PHYS_OFFSET,
            None => virt.spec_data() < PHYS_OFFSET,
        },
{
    if virt.data() >= PHYS_OFFSET {
        Some(PhysAddr::new(virt.data() - PHYS_OFFSET))
    } else {
        None
    }
}

} // verus!
