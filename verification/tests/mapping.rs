use mm_x86_64::addr::{MmError, PageFrameCount, PhysAddr, PhysMemoryArea, VirtAddr};
use mm_x86_64::arch::{
    allocator_init, kernel_page_flags, LockedFrameAllocator, X86_64MMArch,
    X86_64MMBootstrapInfo, KERNEL_PML4E_NO,
};
use mm_x86_64::areas::MemoryMapEntry;
use mm_x86_64::buddy::BuddyAllocator;
use mm_x86_64::bump::BumpAllocator;
use mm_x86_64::entry::{PageFlags, ENTRY_FLAG_NO_EXEC, ENTRY_FLAG_READWRITE};
use mm_x86_64::frame::FrameAllocator;
use mm_x86_64::lowmem::{LowAddressRemapping, LOW_REMAP_SIZE};
use mm_x86_64::mapper::{PageMapper, PageTableKind};

fn installed_lfa() -> LockedFrameAllocator {
    let areas = vec![PhysMemoryArea::new(PhysAddr::new(0x800_0000), 0x800_0000)];
    let bump = BumpAllocator::new(areas, 0x800_0000);
    let mut lfa = LockedFrameAllocator::new();
    lfa.set_inner_allocator(BuddyAllocator::new(bump).unwrap()).unwrap();
    lfa
}

fn info_sample() -> X86_64MMBootstrapInfo {
    X86_64MMBootstrapInfo {
        kernel_code_start: 0xffff_8000_0010_0000,
        kernel_code_end: 0xffff_8000_0020_0000,
        kernel_data_end: 0xffff_8000_0028_0000,
        kernel_rodata_end: 0xffff_8000_0030_0000,
        start_brk: 0xffff_8000_0040_0000,
    }
}

#[test]
fn kernel_page_flags_classification() {
    let info = info_sample();
    // Kernel code: executable and writable.
    let f = kernel_page_flags(&info, VirtAddr::new(0xffff_8000_0010_0000), false);
    assert_eq!(f.data(), 0x1 | ENTRY_FLAG_READWRITE);
    // Rodata span: executable, read-only.
    let f = kernel_page_flags(&info, VirtAddr::new(0xffff_8000_0028_0000), false);
    assert_eq!(f.data(), 0x1);
    // Everything else: writable, executable.
    let f = kernel_page_flags(&info, VirtAddr::new(0xffff_8000_0100_0000), false);
    assert_eq!(f.data(), 0x1 | ENTRY_FLAG_READWRITE);
    // The classification never sets the no-execute bit.
    assert_eq!(f.data() & ENTRY_FLAG_NO_EXEC, 0);
}

#[test]
fn map_then_lookup_finds_the_leaf() {
    let mut lfa = installed_lfa();
    let mut m = PageMapper::create(PageTableKind::Kernel, &mut lfa).unwrap();
    let (frame, _) = lfa.allocate(PageFrameCount::new(1)).unwrap();
    let flags = PageFlags::new(false).set_write(true);
    let flusher = m
        .map_phys(&mut lfa, VirtAddr::new(0xffff_8000_0000_3000), frame, flags)
        .unwrap();
    flusher.ignore();
    let e = m.lookup(VirtAddr::new(0xffff_8000_0000_3000)).unwrap();
    assert!(e.present());
    assert_eq!(e.address().data(), frame.data());
    assert_eq!(e.data(), frame.data() | ENTRY_FLAG_READWRITE | 0x1);
    // A neighbouring page is not mapped.
    assert!(m.lookup(VirtAddr::new(0xffff_8000_0000_4000)).is_none());
}

#[test]
fn remap_overwrites_unconditionally() {
    let mut lfa = installed_lfa();
    let mut m = PageMapper::create(PageTableKind::Kernel, &mut lfa).unwrap();
    let v = VirtAddr::new(0x40_0000);
    let flags = PageFlags::new(false).set_write(true);
    m.map_phys(&mut lfa, v, PhysAddr::new(0x800_0000), flags).unwrap().ignore();
    m.map_phys(&mut lfa, v, PhysAddr::new(0x900_0000), flags).unwrap().ignore();
    let e = m.lookup(v).unwrap();
    assert_eq!(e.address().data(), 0x900_0000);
}

#[test]
fn map_then_unmap_restores_not_present_and_frame_reuse() {
    let mut lfa = installed_lfa();
    let mut m = PageMapper::create(PageTableKind::Kernel, &mut lfa).unwrap();
    let v = VirtAddr::new(0xffff_8000_0120_0000);
    let (frame, count) = lfa.allocate(PageFrameCount::new(1)).unwrap();
    assert_eq!(count.data(), 1);
    let flags = PageFlags::new(false).set_write(true);
    m.map_phys(&mut lfa, v, frame, flags).unwrap().ignore();
    let free_before = lfa.usage().total - lfa.usage().used;
    let (removed, flusher) = m.unmap_phys(&mut lfa, v, true).unwrap();
    assert_eq!(flusher.flush().data(), v.data());
    // The removed entry names the frame that was mapped, the address no
    // longer translates, and the frame went back to the allocator.
    assert_eq!(removed.address().data(), frame.data());
    assert!(m.lookup(v).is_none());
    let free_after = lfa.usage().total - lfa.usage().used;
    assert_eq!(free_after, free_before + 1);
    // A subsequent same-size allocation may reuse the frame: draining
    // the allocator page by page hands it out again.
    let mut reused = false;
    while let Some((a, _)) = lfa.allocate(PageFrameCount::new(1)) {
        if a.data() == frame.data() {
            reused = true;
            break;
        }
    }
    assert!(reused);
}

#[test]
fn unmap_of_absent_mapping_fails() {
    let mut lfa = installed_lfa();
    let mut m = PageMapper::create(PageTableKind::Kernel, &mut lfa).unwrap();
    assert_eq!(
        m.unmap_phys(&mut lfa, VirtAddr::new(0x5000), true).err(),
        Some(MmError::NotMapped)
    );
}

#[test]
fn unmap_with_refused_refund_is_fatal() {
    // A bump allocator takes nothing back: returning the backing frame
    // through it is the corrupted-state outcome.
    let areas = vec![PhysMemoryArea::new(PhysAddr::new(0x40_0000), 0x40_0000)];
    let mut bump = BumpAllocator::new(areas, 0x40_0000);
    let mut m = PageMapper::create(PageTableKind::Kernel, &mut bump).unwrap();
    let v = VirtAddr::new(0x9000);
    let flags = PageFlags::new(false).set_write(true);
    m.map_phys(&mut bump, v, PhysAddr::new(0x20_0000), flags).unwrap().ignore();
    assert_eq!(
        m.unmap_phys(&mut bump, v, true).err(),
        Some(MmError::CorruptPageTable)
    );
}

#[test]
fn new_usermapper_copies_kernel_half_and_leaves_user_half_empty() {
    let mut lfa = installed_lfa();
    let mut kernel = PageMapper::create(PageTableKind::Kernel, &mut lfa).unwrap();
    // Give the kernel table entries in its kernel half.
    let flags = PageFlags::new(false).set_write(true);
    kernel
        .map_phys(&mut lfa, VirtAddr::new(0xffff_8000_0000_0000), PhysAddr::new(0), flags)
        .unwrap()
        .ignore();
    kernel
        .map_phys(&mut lfa, VirtAddr::new(0xffff_ffff_8000_0000), PhysAddr::new(0x1000), flags)
        .unwrap()
        .ignore();
    let um = X86_64MMArch::setup_new_usermapper(&kernel, &mut lfa).unwrap();
    // Kernel half bit-identical to the live kernel table.
    for i in KERNEL_PML4E_NO..512 {
        assert_eq!(
            um.mapper.top_entry(i).data(),
            kernel.top_entry(i).data(),
            "entry {}",
            i
        );
    }
    assert_ne!(um.mapper.top_entry(256).data(), 0);
    // User half entirely empty.
    for i in 0..KERNEL_PML4E_NO {
        assert_eq!(um.mapper.top_entry(i).data(), 0, "entry {}", i);
    }
}

#[test]
fn low_address_window_round_trip() {
    let mut lfa = installed_lfa();
    let mut m = PageMapper::create(PageTableKind::Kernel, &mut lfa).unwrap();
    let info = info_sample();
    LowAddressRemapping::remap_at_low_address(&mut m, &mut lfa, &info, false).unwrap();
    // Identity-mapped first and last pages of the window.
    let e = m.lookup(VirtAddr::new(0)).unwrap();
    assert_eq!(e.address().data(), 0);
    let last = LOW_REMAP_SIZE - 4096;
    let e = m.lookup(VirtAddr::new(last)).unwrap();
    assert_eq!(e.address().data(), last);
    // Remove the window, collecting every address to invalidate.
    let to_flush = LowAddressRemapping::unmap_at_low_address(&mut m, &mut lfa, true).unwrap();
    assert_eq!(to_flush.len() as u64, LOW_REMAP_SIZE / 4096);
    assert_eq!(to_flush[1].data(), 4096);
    assert!(m.lookup(VirtAddr::new(0)).is_none());
    assert!(m.lookup(VirtAddr::new(last)).is_none());
}

#[test]
fn allocator_init_builds_the_first_mapping() {
    let mut arch = X86_64MMArch::new();
    // One 4 MiB area at 16 MiB; the kernel image break sits in its
    // first megabyte, so the bump allocator starts above it.
    let entries = vec![MemoryMapEntry::new(0x100_0000, 0x40_0000, 1)];
    let info = X86_64MMBootstrapInfo {
        kernel_code_start: 0xffff_8000_0100_0000,
        kernel_code_end: 0xffff_8000_0104_0000,
        kernel_data_end: 0xffff_8000_0106_0000,
        kernel_rodata_end: 0xffff_8000_0108_0000,
        start_brk: 0xffff_8000_0110_0000,
    };
    arch.init(info, &entries, true).unwrap();
    let mut lfa = LockedFrameAllocator::new();
    let kernel = allocator_init(&mut arch, &mut lfa).unwrap();
    // The recorded root is the new mapper's table.
    assert_eq!(arch.initial_page_table().data(), kernel.table_phys().data());
    // Every page of the area is mapped at the fixed offset.
    let e = kernel.lookup(VirtAddr::new(0xffff_8000_0100_0000)).unwrap();
    assert_eq!(e.address().data(), 0x100_0000);
    let e = kernel.lookup(VirtAddr::new(0xffff_8000_013f_f000)).unwrap();
    assert_eq!(e.address().data(), 0x13f_f000);
    // The low-address window is in place.
    let e = kernel.lookup(VirtAddr::new(0x20_0000)).unwrap();
    assert_eq!(e.address().data(), 0x20_0000);
    // The buddy allocator is installed and serves frames.
    let (frame, got) = lfa.allocate(PageFrameCount::new(2)).unwrap();
    assert_eq!(got.data(), 2);
    assert_eq!(frame.data() % 8192, 0);
    // A second bootstrap attempt is the fatal path.
    assert_eq!(
        allocator_init(&mut arch, &mut lfa).err(),
        Some(MmError::AlreadyInitialized)
    );
}

#[test]
fn allocator_init_with_bad_break_address_is_fatal() {
    let mut arch = X86_64MMArch::new();
    let entries = vec![MemoryMapEntry::new(0x100_0000, 0x40_0000, 1)];
    let info = X86_64MMBootstrapInfo {
        kernel_code_start: 0x10_0000,
        kernel_code_end: 0x14_0000,
        kernel_data_end: 0x16_0000,
        kernel_rodata_end: 0x18_0000,
        // A break address below the kernel window cannot be converted.
        start_brk: 0x20_0000,
    };
    arch.init(info, &entries, true).unwrap();
    let mut lfa = LockedFrameAllocator::new();
    assert_eq!(
        allocator_init(&mut arch, &mut lfa).err(),
        Some(MmError::InvalidAddress)
    );
}

#[test]
fn allocator_init_without_memory_is_out_of_memory() {
    let mut arch = X86_64MMArch::new();
    let entries: Vec<MemoryMapEntry> = Vec::new();
    let info = info_sample();
    arch.init(info, &entries, true).unwrap();
    let mut lfa = LockedFrameAllocator::new();
    assert_eq!(allocator_init(&mut arch, &mut lfa).err(), Some(MmError::Oom));
}
