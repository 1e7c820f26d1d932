//! The x86-64 architecture descriptor: set-once bootstrap state, the
//! default kernel page-protection classification, the locked facade over
//! the buddy allocator, and composition of new address spaces.

use vstd::prelude::*;

use crate::addr::{
    is_canonical_addr, MmError, PageFrameCount, PageFrameUsage, PhysAddr, PhysMemoryArea,
    VirtAddr, MAX_LINEAR_PHYS, MAX_PHYS, PAGE_SIZE, PHYS_OFFSET,
};
use crate::addr::{page_align_up, phys_2_virt, virt_2_phys};
use crate::areas::{discover_areas, usable_areas, MemoryMapEntry};
use crate::buddy::BuddyAllocator;
use crate::buddy::MAX_TOTAL_FRAMES;
use crate::bump::BumpAllocator;
use crate::entry::{
    leaf_entry, PageFlags, ENTRY_ADDR_MASK, ENTRY_FLAG_DEFAULT_PAGE, ENTRY_FLAG_NO_EXEC,
    ENTRY_FLAG_READWRITE,
};
use crate::frame::{is_pow2_u64, FrameAllocator, MAX_ALLOC_FRAMES};
use crate::lowmem::{LowAddressRemapping, LOW_REMAP_SIZE};
use crate::mapper::{lemma_page_gap, table_entry, translate, PageMapper, PageTableKind};

verus! {

/// Index of the first kernel-half entry of a top-level table: entries
/// `[256, 512)` belong to the kernel, derived from the kernel's virtual
/// offset.
pub const KERNEL_PML4E_NO: usize = 256;

/// Kernel image boundaries captured once from linker-provided symbols.
#[derive(Clone, Copy, Debug, PartialEq, Eq, Structural)]
pub struct X86_64MMBootstrapInfo {
    pub kernel_code_start: u64,
    pub kernel_code_end: u64,
    pub kernel_data_end: u64,
    pub kernel_rodata_end: u64,
    pub start_brk: u64,
}

/// The flag word with execution allowed, honouring a reserved XD bit.
pub open spec fn exec_allowed(d: u64, no_exec_reserved: bool) -> u64 {
    if no_exec_reserved {
        d
    } else {
        d & !ENTRY_FLAG_NO_EXEC
    }
}

/// The default kernel flag word for a virtual address: kernel code is
/// executable and writable, the rodata span executable and read-only,
/// everything else executable and writable.
pub open spec fn spec_kernel_page_flags(
    info: X86_64MMBootstrapInfo,
    v: u64,
    no_exec_reserved: bool,
) -> u64 {
    if info.kernel_code_start <= v < info.kernel_code_end {
        exec_allowed(ENTRY_FLAG_DEFAULT_PAGE, no_exec_reserved) | ENTRY_FLAG_READWRITE
    } else if info.kernel_data_end <= v < info.kernel_rodata_end {
        exec_allowed(ENTRY_FLAG_DEFAULT_PAGE, no_exec_reserved)
    } else {
        exec_allowed(ENTRY_FLAG_DEFAULT_PAGE | ENTRY_FLAG_READWRITE, no_exec_reserved)
    }
}

/// Re-walks every page-sized step of `[base, end)` and confirms it is
/// mapped at `voff + pa` to frame `pa` with the default kernel flags:
/// turns the per-page work of a bulk-mapping loop into one quantified
/// guarantee over the finished tables.
pub fn check_range_mapped(
    mapper: &PageMapper,
    info: &X86_64MMBootstrapInfo,
    no_exec_reserved: bool,
    base: u64,
    end: u64,
    voff: u64,
) -> (r: bool)
    requires
        mapper.wf(),
        voff == 0 || voff == PHYS_OFFSET,
    ensures
        r ==> forall|pa: u64|
            base <= pa < end && (pa - base) % 4096 == 0 ==> #[trigger] translate(
                mapper.store,
                mapper.top,
                (voff + pa) as u64,
            ) == Some(
                leaf_entry(
                    pa,
                    spec_kernel_page_flags(*info, (voff + pa) as u64, no_exec_reserved),
                ),
            ),
{
    let mut cur = base;
    while cur < end
        invariant
            mapper.wf(),
            voff == 0 || voff == PHYS_OFFSET,
            base <= cur,
            (cur - base) % 4096 == 0,
            forall|pa: u64|
                base <= pa < cur && (pa - base) % 4096 == 0 ==> #[trigger] translate(
                    mapper.store,
                    mapper.top,
                    (voff + pa) as u64,
                ) == Some(
                    leaf_entry(
                        pa,
                        spec_kernel_page_flags(*info, (voff + pa) as u64, no_exec_reserved),
                    ),
                ),
        decreases end + PAGE_SIZE - cur,
    {
        if cur >= MAX_LINEAR_PHYS {
            return false;
        }
        let vaddr = VirtAddr::new(voff + cur);
        let flags = kernel_page_flags(info, vaddr, no_exec_reserved);
        let expected = (cur & ENTRY_ADDR_MASK) | flags.data() | ENTRY_FLAG_DEFAULT_PAGE;
        match mapper.lookup(vaddr) {
            Some(e) => {
                if e.data() != expected {
                    return false;
                }
            },
            None => {
                return false;
            },
        }
        proof {
            assert forall|pa: u64|
                base <= pa < cur + PAGE_SIZE && (pa - base) % 4096 == 0 implies #[trigger]
            translate(mapper.store, mapper.top, (voff + pa) as u64) == Some(
                leaf_entry(
                    pa,
                    spec_kernel_page_flags(*info, (voff + pa) as u64, no_exec_reserved),
                ),
            ) by {
                if pa >= cur {
                    lemma_page_gap((pa - base) as u64, (cur - base) as u64);
                }
            }
        }
        cur = cur + PAGE_SIZE;
    }
    true
}

/// The default page flags for a kernel virtual address.
pub fn kernel_page_flags(
    info: &X86_64MMBootstrapInfo,
    virt: VirtAddr,
    no_exec_reserved: bool,
) -> (r: PageFlags)
    ensures
        r.no_exec_reserved == no_exec_reserved,
        r.data == spec_kernel_page_flags(*info, virt.spec_data(), no_exec_reserved),
{
    let v = virt.data();
    if v >= info.kernel_code_start && v < info.kernel_code_end {
        PageFlags::new(no_exec_reserved).set_execute(true).set_write(true)
    } else if v >= info.kernel_data_end && v < info.kernel_rodata_end {
        PageFlags::new(no_exec_reserved).set_execute(true)
    } else {
        PageFlags::new(no_exec_reserved).set_write(true).set_execute(true)
    }
}

/// The serialized post-boot frame source: the buddy allocator behind the
/// one facade every caller shares. The embedding kernel wraps it in its
/// interrupt-safe lock and holds the lock for each whole call.
pub struct LockedFrameAllocator {
    /// Whether the one-shot installation has happened.
    pub installed: bool,
    /// The buddy allocator; empty until installed.
    pub buddy: BuddyAllocator,
}

impl LockedFrameAllocator {
    pub fn new() -> (r: Self)
        ensures
            !r.installed,
            r.buddy.wf(),
            r.inv(),
    {
        LockedFrameAllocator { installed: false, buddy: BuddyAllocator::empty() }
    }

    /// Installs the buddy allocator: a strict unset-to-set transition;
    /// a second attempt is refused as fatal.
    pub fn set_inner_allocator(&mut self, b: BuddyAllocator) -> (r: Result<(), MmError>)
        requires
            old(self).inv(),
            b.wf(),
        ensures
            final(self).inv(),
            if old(self).installed {
                r == Result::<(), MmError>::Err(MmError::AlreadyInitialized) && *final(self)
                    == *old(self)
            } else {
                r == Result::<(), MmError>::Ok(()) && final(self).installed && final(self).buddy
                    == b
            },
    {
        if self.installed {
            return Err(MmError::AlreadyInitialized);
        }
        self.buddy = b;
        self.installed = true;
        Ok(())
    }

    /// Allocates through the installed buddy allocator. Succeeds exactly
    /// when the singleton is installed and a large-enough block is free;
    /// the grant is aligned to its own whole-block size and lowers the
    /// free-space accounting by exactly `count`; a refused request
    /// changes nothing.
    pub fn allocate_frames(&mut self, count: PageFrameCount) -> (r: Option<(
        PhysAddr,
        PageFrameCount,
    )>)
        requires
            old(self).inv(),
            is_pow2_u64(count.spec_data()),
            count.spec_data() <= MAX_ALLOC_FRAMES,
        ensures
            final(self).inv(),
            final(self).installed == old(self).installed,
            final(self).buddy.total_frames == old(self).buddy.total_frames,
            r is Some <==> old(self).installed && old(self).buddy.spec_can_allocate(
                count.spec_data(),
            ),
            match r {
                Some(p) => {
                    &&& p.1 == count
                    &&& p.0.spec_data() % PAGE_SIZE == 0
                    &&& (p.0.spec_data() as int) % (count.spec_data() * PAGE_SIZE) == 0
                    &&& p.0.spec_data() + count.spec_data() * PAGE_SIZE <= MAX_PHYS
                    &&& final(self).frames_free() == old(self).frames_free()
                        - count.spec_data()
                },
                None => *final(self) == *old(self),
            },
    {
        if !self.installed {
            return None;
        }
        self.buddy.allocate_frames(count)
    }

    /// Frees through the installed buddy allocator, with the buddy's
    /// exact outcome tiers; before installation every free is refused
    /// unchanged. A non-power-of-two count is the fatal
    /// `NonPowerOfTwoFree` outcome and never a silent success.
    pub fn free_frames(&mut self, address: PhysAddr, count: PageFrameCount) -> (r: Result<
        (),
        MmError,
    >)
        requires
            old(self).inv(),
        ensures
            final(self).inv(),
            final(self).installed == old(self).installed,
            final(self).buddy.total_frames == old(self).buddy.total_frames,
            if !old(self).installed {
                r == Result::<(), MmError>::Err(MmError::FreeUnsupported) && *final(self)
                    == *old(self)
            } else if !is_pow2_u64(count.spec_data()) {
                r == Result::<(), MmError>::Err(MmError::NonPowerOfTwoFree) && *final(self)
                    == *old(self)
            } else if count.spec_data() > MAX_ALLOC_FRAMES {
                r == Result::<(), MmError>::Err(MmError::FreeTooLarge) && *final(self) == *old(
                    self,
                )
            } else if (address.spec_data() as int) % (count.spec_data() * PAGE_SIZE) != 0
                || address.spec_data() + count.spec_data() * PAGE_SIZE > MAX_PHYS {
                r == Result::<(), MmError>::Err(MmError::MisalignedFree) && *final(self) == *old(
                    self,
                )
            } else if old(self).buddy.free_count + count.spec_data() > MAX_TOTAL_FRAMES {
                r == Result::<(), MmError>::Err(MmError::AccountingOverflow) && *final(self)
                    == *old(self)
            } else {
                r == Result::<(), MmError>::Ok(()) && final(self).frames_free() == old(
                    self,
                ).frames_free() + count.spec_data()
            },
    {
        if !self.installed {
            return Err(MmError::FreeUnsupported);
        }
        self.buddy.free_frames(address, count)
    }
}

/// Law: at the locked facade — the sole post-boot frame source — an
/// allocation of a power-of-two count followed by freeing the same block
/// returns the free-space accounting to its pre-call state. The premises
/// are exactly what `allocate_frames` and `free_frames` ensure on
/// success.
pub proof fn lemma_facade_allocate_then_free_restores(
    pre: LockedFrameAllocator,
    mid: LockedFrameAllocator,
    post: LockedFrameAllocator,
    count: u64,
)
    requires
        mid.frames_free() == pre.frames_free() - count,
        post.frames_free() == mid.frames_free() + count,
    ensures
        post.frames_free() == pre.frames_free(),
{
}

impl FrameAllocator for LockedFrameAllocator {
    open spec fn inv(&self) -> bool {
        self.buddy.wf()
    }

    open spec fn frames_free(&self) -> int {
        if self.installed {
            self.buddy.spec_free_frames()
        } else {
            0
        }
    }

    /// A request is served exactly when the singleton is installed and
    /// the buddy allocator has a large-enough free block.
    open spec fn can_allocate(&self, count: u64) -> bool {
        self.installed && self.buddy.spec_can_allocate(count)
    }

    fn allocate(&mut self, count: PageFrameCount) -> (r: Option<(PhysAddr, PageFrameCount)>) {
        self.allocate_frames(count)
    }

    fn free(&mut self, address: PhysAddr, count: PageFrameCount) -> (r: Result<(), MmError>) {
        self.free_frames(address, count)
    }

    fn usage(&self) -> (r: PageFrameUsage) {
        if !self.installed {
            return PageFrameUsage { used: 0, total: 0 };
        }
        self.buddy.usage_frames()
    }
}

/// An owning handle on a fresh address space: the user half and every
/// table reachable below it belong to the holder; the kernel half is
/// shared with every other address space and never freed through this
/// handle.
pub struct UserMapper {
    pub mapper: PageMapper,
}

/// The x86-64 architecture descriptor: paging constants plus the
/// process-wide bootstrap state, every piece of which follows a strict
/// set-once lifecycle.
pub struct X86_64MMArch {
    /// Whether `init` has run; a second run is refused as fatal.
    pub initialized: bool,
    /// Whether the XD (no-execute) bit is reserved on this machine,
    /// recorded from the capability probe at `init`.
    pub xd_reserved: bool,
    /// Kernel image boundaries, written exactly once at `init`.
    pub bootstrap: Option<X86_64MMBootstrapInfo>,
    /// Usable physical areas, written exactly once at `init`.
    pub areas: Vec<PhysMemoryArea>,
    /// Root of the first kernel page table, written exactly once.
    pub initial_cr3: Option<PhysAddr>,
}

impl X86_64MMArch {
    pub fn new() -> (r: Self)
        ensures
            !r.initialized,
            !r.xd_reserved,
            r.bootstrap is None,
            r.initial_cr3 is None,
            r.areas@.len() == 0,
    {
        X86_64MMArch {
            initialized: false,
            xd_reserved: false,
            bootstrap: None,
            areas: Vec::new(),
            initial_cr3: None,
        }
    }

    /// One-shot initialization: records the kernel image boundaries and
    /// the no-execute capability probe, and fills the memory-area list
    /// from the firmware map. Returns how many areas were accepted. A
    /// second call, or a firmware map with more usable areas than the
    /// list can hold, is fatal.
    pub fn init(
        &mut self,
        info: X86_64MMBootstrapInfo,
        entries: &Vec<MemoryMapEntry>,
        no_execute_enabled: bool,
    ) -> (r: Result<usize, MmError>)
        ensures
            match r {
                Ok(n) => {
                    &&& !old(self).initialized
                    &&& final(self).initialized
                    &&& final(self).xd_reserved == !no_execute_enabled
                    &&& final(self).bootstrap == Some(info)
                    &&& final(self).areas@ == usable_areas(entries@)
                    &&& n == final(self).areas@.len()
                    &&& final(self).initial_cr3 == old(self).initial_cr3
                },
                Err(e) => {
                    &&& *final(self) == *old(self)
                    &&& (e == MmError::AlreadyInitialized || e == MmError::TooManyAreas)
                    &&& (e == MmError::AlreadyInitialized <==> old(self).initialized)
                    &&& (e == MmError::TooManyAreas ==> usable_areas(entries@).len() > 512)
                },
            },
    {
        if self.initialized {
            return Err(MmError::AlreadyInitialized);
        }
        let areas = match discover_areas(entries) {
            Ok(v) => v,
            Err(e) => { return Err(e); },
        };
        let n = areas.len();
        self.xd_reserved = !no_execute_enabled;
        self.bootstrap = Some(info);
        self.areas = areas;
        self.initialized = true;
        Ok(n)
    }

    /// Whether the XD flag bit is reserved (unusable) on this machine.
    pub fn is_xd_reserved(&self) -> (r: bool)
        ensures
            r == self.xd_reserved,
    {
        self.xd_reserved
    }

    /// A virtual address is usable exactly when it is canonical.
    pub fn virt_is_valid(virt: VirtAddr) -> (r: bool)
        ensures
            r == is_canonical_addr(virt.spec_data()),
    {
        virt.is_canonical()
    }

    /// Root of the first kernel page table built at initialization, or
    /// the zero address while none has been recorded.
    pub fn initial_page_table(&self) -> (r: PhysAddr)
        ensures
            r.spec_data() == match self.initial_cr3 {
                Some(p) => p.spec_data(),
                None => 0,
            },
    {
        match self.initial_cr3 {
            Some(p) => p,
            None => PhysAddr::new(0),
        }
    }

    /// Records the first kernel table root: a strict unset-to-set
    /// transition; a second attempt is refused as fatal.
    pub fn set_initial_page_table(&mut self, p: PhysAddr) -> (r: Result<(), MmError>)
        ensures
            match r {
                Ok(()) => {
                    &&& old(self).initial_cr3 is None
                    &&& final(self).initial_cr3 == Some(p)
                    &&& final(self).initialized == old(self).initialized
                    &&& final(self).xd_reserved == old(self).xd_reserved
                    &&& final(self).bootstrap == old(self).bootstrap
                    &&& final(self).areas == old(self).areas
                },
                Err(e) => e == MmError::AlreadyInitialized && old(self).initial_cr3 is Some
                    && *final(self) == *old(self),
            },
    {
        if self.initial_cr3.is_some() {
            return Err(MmError::AlreadyInitialized);
        }
        self.initial_cr3 = Some(p);
        Ok(())
    }

    /// Creates a fresh top-level table through the allocator singleton
    /// and copies every kernel-half entry verbatim from the live kernel
    /// table; the user half stays empty. Fails only with out-of-memory.
    pub fn setup_new_usermapper(
        kernel: &PageMapper,
        alloc: &mut LockedFrameAllocator,
    ) -> (r: Result<UserMapper, MmError>)
        requires
            kernel.wf(),
            old(alloc).inv(),
        ensures
            final(alloc).inv(),
            r is Ok <==> old(alloc).can_allocate(1),
            match r {
                Ok(um) => {
                    &&& um.mapper.wf()
                    &&& um.mapper.table_kind == PageTableKind::User
                    &&& forall|i: int|
                        KERNEL_PML4E_NO <= i < 512 ==> #[trigger] table_entry(
                            um.mapper.store,
                            um.mapper.top,
                            i,
                        ) == table_entry(kernel.store, kernel.top, i)
                    &&& forall|i: int|
                        0 <= i < KERNEL_PML4E_NO ==> #[trigger] table_entry(
                            um.mapper.store,
                            um.mapper.top,
                            i,
                        ) == 0
                },
                Err(e) => e == MmError::Oom && *final(alloc) == *old(alloc),
            },
    {
        let mut m = match PageMapper::create(PageTableKind::User, alloc) {
            Some(m) => m,
            None => { return Err(MmError::Oom); },
        };
        let ghost m0 = m;
        let mut i: usize = KERNEL_PML4E_NO;
        while i < 512
            invariant
                m.wf(),
                kernel.wf(),
                m.table_kind == PageTableKind::User,
                m.top == m0.top,
                KERNEL_PML4E_NO <= i <= 512,
                forall|j: int|
                    KERNEL_PML4E_NO <= j < i ==> #[trigger] table_entry(m.store, m.top, j)
                        == table_entry(kernel.store, kernel.top, j),
                forall|j: int|
                    0 <= j < KERNEL_PML4E_NO ==> #[trigger] table_entry(m.store, m.top, j) == 0,
                forall|j: int|
                    i <= j < 512 ==> #[trigger] table_entry(m.store, m.top, j) == 0,
            decreases 512 - i,
        {
            let e = kernel.top_entry(i);
            m.set_top_entry(i, e);
            i = i + 1;
        }
        Ok(UserMapper { mapper: m })
    }
}

/// Every whole page-step of `a` is mapped through `m` at the fixed
/// offset with the default kernel flags.
pub open spec fn area_fully_mapped(
    m: PageMapper,
    a: PhysMemoryArea,
    info: X86_64MMBootstrapInfo,
    xd: bool,
) -> bool {
    forall|pa: u64|
        a.base.spec_data() <= pa < a.base.spec_data() + a.size && (pa - a.base.spec_data())
            % 4096 == 0 ==> #[trigger] translate(m.store, m.top, (PHYS_OFFSET + pa) as u64)
            == Some(
            leaf_entry(pa, spec_kernel_page_flags(info, (PHYS_OFFSET + pa) as u64, xd)),
        )
}

/// Builds the first complete kernel mapping with a bump allocator over
/// the discovered areas, adds the transient low-address identity window,
/// records the new table root, salvages the bump allocator's remainder
/// into the buddy allocator and installs it as the singleton. On success
/// every page of every discovered area translates at the fixed offset
/// with the default kernel flags, the identity window translates page
/// for page, and the returned kernel mapper's table is the recorded
/// root; the embedding kernel then makes it active between full
/// serialization fences.
pub fn allocator_init(
    arch: &mut X86_64MMArch,
    lfa: &mut LockedFrameAllocator,
) -> (r: Result<PageMapper, MmError>)
    requires
        old(arch).initialized,
        old(arch).bootstrap is Some,
        old(lfa).inv(),
    ensures
        final(lfa).inv(),
        final(arch).initialized,
        match r {
            Ok(m) => {
                &&& m.wf()
                &&& m.table_kind == PageTableKind::Kernel
                &&& final(arch).initial_cr3 == Some(PhysAddr { value: m.top })
                &&& final(lfa).installed
                &&& forall|pa: u64|
                    pa < LOW_REMAP_SIZE && pa % PAGE_SIZE == 0 ==> #[trigger] translate(
                        m.store,
                        m.top,
                        pa,
                    ) == Some(
                        leaf_entry(
                            pa,
                            spec_kernel_page_flags(
                                old(arch).bootstrap->0,
                                pa,
                                old(arch).xd_reserved,
                            ),
                        ),
                    )
                &&& forall|ai: int|
                    0 <= ai < old(arch).areas@.len() ==> area_fully_mapped(
                        m,
                        #[trigger] old(arch).areas@[ai],
                        old(arch).bootstrap->0,
                        old(arch).xd_reserved,
                    )
            },
            Err(e) => e == MmError::Oom || e == MmError::CorruptPageTable
                || e == MmError::AlreadyInitialized || e == MmError::InvalidAddress
                || e == MmError::TooManyAreas,
        },
{
    let info = match arch.bootstrap {
        Some(i) => i,
        None => { return Err(MmError::InvalidAddress); },
    };
    if info.start_brk > u64::MAX - (PAGE_SIZE - 1) {
        return Err(MmError::InvalidAddress);
    }
    let virt_aligned = page_align_up(info.start_brk);
    let phy_offset = match virt_2_phys(VirtAddr::new(virt_aligned)) {
        Some(p) => p,
        None => { return Err(MmError::InvalidAddress); },
    };
    if phy_offset.data() > MAX_PHYS {
        return Err(MmError::InvalidAddress);
    }
    proof {
        assert(((virt_aligned - 0xffff_8000_0000_0000u64) as u64) % 4096u64 == 0) by (bit_vector)
            requires
                virt_aligned % 4096u64 == 0,
                virt_aligned >= 0xffff_8000_0000_0000u64,
        ;
    }
    // The bump allocator takes its own copy of the area list.
    let mut bump_areas: Vec<PhysMemoryArea> = Vec::new();
    proof {
        assert(bump_areas@ =~= arch.areas@.take(0));
    }
    let mut i: usize = 0;
    while i < arch.areas.len()
        invariant
            *arch == *old(arch),
            *lfa == *old(lfa),
            arch.initialized,
            lfa.inv(),
            i <= arch.areas@.len(),
            bump_areas@ == arch.areas@.take(i as int),
        decreases arch.areas@.len() - i,
    {
        bump_areas.push(arch.areas[i]);
        proof {
            assert(bump_areas@ =~= arch.areas@.take(i + 1));
        }
        i = i + 1;
    }
    let mut bump = BumpAllocator::new(bump_areas, phy_offset.data());
    let mut mapper = match PageMapper::create(PageTableKind::Kernel, &mut bump) {
        Some(m) => m,
        None => { return Err(MmError::Oom); },
    };
    // Map every whole page of every discovered area at the fixed offset.
    let n = arch.areas.len();
    let mut ai: usize = 0;
    while ai < n
        invariant
            *arch == *old(arch),
            *lfa == *old(lfa),
            arch.initialized,
            lfa.inv(),
            n == arch.areas@.len(),
            ai <= n,
            mapper.wf(),
            mapper.table_kind == PageTableKind::Kernel,
            bump.wf(),
        decreases n - ai,
    {
        let area = arch.areas[ai];
        if area.size > u64::MAX - area.base.data() {
            return Err(MmError::InvalidAddress);
        }
        let end = area.base.data() + area.size;
        let mut pa = area.base.data();
        while pa < end
            invariant
                *arch == *old(arch),
                *lfa == *old(lfa),
                arch.initialized,
                lfa.inv(),
                mapper.wf(),
                mapper.table_kind == PageTableKind::Kernel,
                bump.wf(),
                end <= u64::MAX,
            decreases end + PAGE_SIZE - pa,
        {
            let vaddr = match phys_2_virt(PhysAddr::new(pa)) {
                Some(v) => v,
                None => { return Err(MmError::InvalidAddress); },
            };
            // The conversion succeeded, so `pa` lies below the linear
            // window and the step cannot wrap.
            proof {
                assert(pa < MAX_LINEAR_PHYS);
            }
            let flags = kernel_page_flags(&info, vaddr, arch.xd_reserved);
            match mapper.map_phys(&mut bump, vaddr, PhysAddr::new(pa), flags) {
                Ok(flusher) => {
                    // The table is not active yet: no invalidation owed.
                    flusher.ignore();
                },
                Err(e) => { return Err(e); },
            }
            pa = pa + PAGE_SIZE;
        }
        ai = ai + 1;
    }
    // The transient identity window secondary processors start under.
    let xd = arch.is_xd_reserved();
    match LowAddressRemapping::remap_at_low_address(&mut mapper, &mut bump, &info, xd) {
        Ok(()) => {},
        Err(e) => { return Err(e); },
    }
    // Re-walk every area on the finished tables: the loops' page-by-page
    // work becomes one quantified guarantee per area.
    let mut ci: usize = 0;
    while ci < n
        invariant
            *arch == *old(arch),
            *lfa == *old(lfa),
            arch.initialized,
            lfa.inv(),
            n == arch.areas@.len(),
            ci <= n,
            mapper.wf(),
            mapper.table_kind == PageTableKind::Kernel,
            bump.wf(),
            info == old(arch).bootstrap->0,
            xd == old(arch).xd_reserved,
            forall|pa: u64|
                pa < LOW_REMAP_SIZE && pa % PAGE_SIZE == 0 ==> #[trigger] translate(
                    mapper.store,
                    mapper.top,
                    pa,
                ) == Some(leaf_entry(pa, spec_kernel_page_flags(info, pa, xd))),
            forall|ai: int|
                0 <= ai < ci ==> area_fully_mapped(
                    mapper,
                    #[trigger] arch.areas@[ai],
                    info,
                    xd,
                ),
        decreases n - ci,
    {
        let area = arch.areas[ci];
        if area.size > u64::MAX - area.base.data() {
            return Err(MmError::InvalidAddress);
        }
        let area_end = area.base.data() + area.size;
        if !check_range_mapped(&mapper, &info, xd, area.base.data(), area_end, PHYS_OFFSET) {
            return Err(MmError::CorruptPageTable);
        }
        proof {
            assert(area_fully_mapped(mapper, arch.areas@[ci as int], info, xd));
        }
        ci = ci + 1;
    }
    match arch.set_initial_page_table(mapper.table_phys()) {
        Ok(()) => {},
        Err(e) => { return Err(e); },
    }
    // One-way transfer: the bump allocator's remainder becomes the buddy
    // allocator's free lists.
    let buddy = match BuddyAllocator::new(bump) {
        Some(b) => b,
        None => { return Err(MmError::Oom); },
    };
    match lfa.set_inner_allocator(buddy) {
        Ok(()) => {},
        Err(e) => { return Err(e); },
    }
    Ok(mapper)
}

} // verus!
