use mm_x86_64::addr::{MmError, PhysAddr};
use mm_x86_64::areas::{discover_areas, MemoryMapEntry};
use mm_x86_64::arch::{X86_64MMArch, X86_64MMBootstrapInfo};

fn boot_info_sample() -> X86_64MMBootstrapInfo {
    X86_64MMBootstrapInfo {
        kernel_code_start: 0xffff_8000_0010_0000,
        kernel_code_end: 0xffff_8000_0020_0000,
        kernel_data_end: 0xffff_8000_0028_0000,
        kernel_rodata_end: 0xffff_8000_0030_0000,
        start_brk: 0xffff_8000_0040_0000,
    }
}

#[test]
fn discovery_keeps_usable_entries_in_order() {
    let entries = vec![
        MemoryMapEntry::new(0x0, 0x9f000, 1),
        MemoryMapEntry::new(0x9f000, 0x1000, 2),
        MemoryMapEntry::new(0x100000, 0, 1),
        MemoryMapEntry::new(0x200000, 0x7fe0_0000, 1),
    ];
    let areas = discover_areas(&entries).unwrap();
    assert_eq!(areas.len(), 2);
    assert_eq!(areas[0].base.data(), 0x0);
    assert_eq!(areas[0].size, 0x9f000);
    assert_eq!(areas[1].base.data(), 0x200000);
    assert_eq!(areas[1].size, 0x7fe0_0000);
}

#[test]
fn discovery_overflow_is_fatal() {
    let mut entries = Vec::new();
    for i in 0..513u64 {
        entries.push(MemoryMapEntry::new(i * 0x10000, 0x1000, 1));
    }
    assert_eq!(discover_areas(&entries), Err(MmError::TooManyAreas));
}

#[test]
fn init_records_state_once() {
    let mut arch = X86_64MMArch::new();
    let entries = vec![MemoryMapEntry::new(0x100000, 0x40_0000, 1)];
    let n = arch.init(boot_info_sample(), &entries, true).unwrap();
    assert_eq!(n, 1);
    assert!(!arch.is_xd_reserved());
    // The second attempt is the fatal path.
    assert_eq!(
        arch.init(boot_info_sample(), &entries, true),
        Err(MmError::AlreadyInitialized)
    );
}

#[test]
fn init_records_reserved_xd_bit() {
    let mut arch = X86_64MMArch::new();
    let entries = vec![MemoryMapEntry::new(0x100000, 0x40_0000, 1)];
    arch.init(boot_info_sample(), &entries, false).unwrap();
    assert!(arch.is_xd_reserved());
}

#[test]
fn initial_table_root_set_once() {
    let mut arch = X86_64MMArch::new();
    assert_eq!(arch.initial_page_table().data(), 0);
    arch.set_initial_page_table(PhysAddr::new(0x7000)).unwrap();
    assert_eq!(arch.initial_page_table().data(), 0x7000);
    assert_eq!(
        arch.set_initial_page_table(PhysAddr::new(0x8000)),
        Err(MmError::AlreadyInitialized)
    );
    assert_eq!(arch.initial_page_table().data(), 0x7000);
}
