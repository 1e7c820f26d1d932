use mm_x86_64::addr::{
    page_align_up, phys_2_virt, virt_2_phys, PageFrameCount, PhysAddr, VirtAddr, PHYS_OFFSET,
};
use mm_x86_64::arch::X86_64MMArch;
use mm_x86_64::entry::{PageEntry, PageFlags, ENTRY_FLAG_NO_EXEC, ENTRY_FLAG_READWRITE};

#[test]
fn canonical_max_low_address() {
    // The largest address whose bits above the 47th are all zero.
    assert!(VirtAddr::new(0x0000_7fff_ffff_ffff).is_canonical());
}

#[test]
fn canonical_min_high_address() {
    // The smallest address whose bits above the 47th are all one.
    assert!(VirtAddr::new(0xffff_8000_0000_0000).is_canonical());
    assert_eq!(0xffff_8000_0000_0000u64, PHYS_OFFSET);
}

#[test]
fn canonical_rejects_mixed_high_bits() {
    assert!(!VirtAddr::new(0x0000_8000_0000_0000).is_canonical());
    assert!(!VirtAddr::new(0xffff_0000_0000_0000).is_canonical());
    assert!(!VirtAddr::new(0x8000_0000_0000_0000).is_canonical());
}

#[test]
fn canonical_plain_addresses() {
    assert!(VirtAddr::new(0).is_canonical());
    assert!(VirtAddr::new(u64::MAX).is_canonical());
    assert!(VirtAddr::new(0x12_3456_7000).is_canonical());
    assert!(X86_64MMArch::virt_is_valid(VirtAddr::new(0x12_3456_7000)));
    assert!(!X86_64MMArch::virt_is_valid(VirtAddr::new(0x0000_8000_0000_0000)));
}

#[test]
fn align_up_values() {
    assert_eq!(page_align_up(0), 0);
    assert_eq!(page_align_up(1), 4096);
    assert_eq!(page_align_up(4096), 4096);
    assert_eq!(page_align_up(4097), 8192);
}

#[test]
fn phys_virt_round_trip() {
    let p = PhysAddr::new(0x20_0000);
    let v = phys_2_virt(p).unwrap();
    assert_eq!(v.data(), 0xffff_8000_0020_0000);
    assert_eq!(virt_2_phys(v).unwrap().data(), 0x20_0000);
    // Below the kernel window there is no physical counterpart.
    assert!(virt_2_phys(VirtAddr::new(0x1000)).is_none());
    // Past the window the fixed offset cannot reach.
    assert!(phys_2_virt(PhysAddr::new(0x8000_0000_0000)).is_none());
}

#[test]
fn frame_count_from_bytes() {
    assert_eq!(PageFrameCount::from_bytes(8192).unwrap().data(), 2);
    assert!(PageFrameCount::from_bytes(8191).is_none());
}

#[test]
fn page_flags_builder() {
    // XD usable: clearing execute sets the no-execute bit.
    let f = PageFlags::new(false).set_execute(false);
    assert_eq!(f.data(), 0x1 | ENTRY_FLAG_NO_EXEC);
    let f = PageFlags::new(false).set_execute(true).set_write(true);
    assert_eq!(f.data(), 0x1 | ENTRY_FLAG_READWRITE);
    // XD reserved: the bit must stay clear whatever is asked.
    let f = PageFlags::new(true).set_execute(false);
    assert_eq!(f.data(), 0x1);
}

#[test]
fn page_entry_encoding() {
    let flags = PageFlags::new(false).set_write(true);
    let e = PageEntry::new(PhysAddr::new(0x5000), flags);
    assert_eq!(e.data(), 0x5000 | ENTRY_FLAG_READWRITE | 0x1);
    assert!(e.present());
    assert_eq!(e.address().data(), 0x5000);
    assert!(!PageEntry::empty().present());
}
