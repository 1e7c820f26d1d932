use mm_x86_64::addr::{MmError, PageFrameCount, PhysAddr, PhysMemoryArea};
use mm_x86_64::arch::LockedFrameAllocator;
use mm_x86_64::buddy::BuddyAllocator;
use mm_x86_64::bump::BumpAllocator;
use mm_x86_64::frame::FrameAllocator;

fn buddy_with_64_mib() -> BuddyAllocator {
    let areas = vec![PhysMemoryArea::new(PhysAddr::new(0x400_0000), 0x400_0000)];
    let bump = BumpAllocator::new(areas, 0x400_0000);
    BuddyAllocator::new(bump).unwrap()
}

#[test]
fn bump_grants_are_increasing_and_aligned() {
    let areas = vec![
        PhysMemoryArea::new(PhysAddr::new(0x1000), 0x3000),
        PhysMemoryArea::new(PhysAddr::new(0x100000), 0x100000),
    ];
    let mut bump = BumpAllocator::new(areas, 0x0);
    let (a1, c1) = bump.allocate_frames(PageFrameCount::new(2)).unwrap();
    assert_eq!(c1.data(), 2);
    assert_eq!(a1.data(), 0x1000);
    assert_eq!(bump.offset(), 0x3000);
    // The rest of the first area is one page; a two-page request skips
    // to the second area and never returns below the watermark.
    let (a2, _) = bump.allocate_frames(PageFrameCount::new(2)).unwrap();
    assert_eq!(a2.data(), 0x100000);
    let (a3, _) = bump.allocate_frames(PageFrameCount::new(1)).unwrap();
    assert!(a3.data() > a2.data());
    assert_eq!(a3.data() % 4096, 0);
}

#[test]
fn bump_offers_no_free() {
    let areas = vec![PhysMemoryArea::new(PhysAddr::new(0x1000), 0x10000)];
    let mut bump = BumpAllocator::new(areas, 0x0);
    assert_eq!(
        bump.free(PhysAddr::new(0x1000), PageFrameCount::new(1)),
        Err(MmError::FreeUnsupported)
    );
}

#[test]
fn bump_exhaustion_returns_none() {
    let areas = vec![PhysMemoryArea::new(PhysAddr::new(0x1000), 0x2000)];
    let mut bump = BumpAllocator::new(areas, 0x0);
    assert!(bump.allocate_frames(PageFrameCount::new(4)).is_none());
}

#[test]
fn accounting_restored_after_allocate_then_free() {
    let mut buddy = buddy_with_64_mib();
    let before = buddy.usage_frames();
    assert_eq!(before.used, 0);
    assert_eq!(before.total, 0x400_0000 / 4096);
    let (addr, got) = buddy.allocate_frames(PageFrameCount::new(4)).unwrap();
    assert_eq!(got.data(), 4);
    assert_eq!(buddy.usage_frames().used, 4);
    buddy.free_frames(addr, got).unwrap();
    assert_eq!(buddy.usage_frames(), before);
}

#[test]
fn grants_are_aligned_to_their_own_size() {
    let mut buddy = buddy_with_64_mib();
    for c in [1u64, 2, 4, 8, 64, 512, 1024] {
        let (addr, got) = buddy.allocate_frames(PageFrameCount::new(c)).unwrap();
        assert_eq!(got.data(), c);
        assert_eq!(addr.data() % (c * 4096), 0, "count {}", c);
    }
}

#[test]
fn non_power_of_two_free_is_fatal_never_silent() {
    let mut buddy = buddy_with_64_mib();
    let before = buddy.usage_frames();
    for c in [0u64, 3, 5, 6, 7, 12, 1000] {
        assert_eq!(
            buddy.free_frames(PhysAddr::new(0x400_0000), PageFrameCount::new(c)),
            Err(MmError::NonPowerOfTwoFree),
            "count {}",
            c
        );
    }
    // Never a silent success: the accounting has not moved.
    assert_eq!(buddy.usage_frames(), before);
}

#[test]
fn oversized_and_misaligned_frees_are_fatal() {
    let mut buddy = buddy_with_64_mib();
    assert_eq!(
        buddy.free_frames(PhysAddr::new(0), PageFrameCount::new(0x8000_0000)),
        Err(MmError::FreeTooLarge)
    );
    assert_eq!(
        buddy.free_frames(PhysAddr::new(0x1000), PageFrameCount::new(2)),
        Err(MmError::MisalignedFree)
    );
}

#[test]
fn accounting_overflow_is_fatal() {
    let mut buddy = BuddyAllocator::empty();
    // 1024 blocks of 2^30 frames fill the whole addressable space.
    for i in 0..1024u64 {
        buddy
            .free_frames(PhysAddr::new(i << 42), PageFrameCount::new(0x4000_0000))
            .unwrap();
    }
    assert_eq!(
        buddy.free_frames(PhysAddr::new(0), PageFrameCount::new(0x4000_0000)),
        Err(MmError::AccountingOverflow)
    );
}

#[test]
fn freed_blocks_coalesce_with_their_buddies() {
    let mut buddy = buddy_with_64_mib();
    // Split the space into single pages, then free them all: the buddy
    // chain must merge back far enough to serve the largest block again.
    let mut pages = Vec::new();
    for _ in 0..16 {
        pages.push(buddy.allocate_frames(PageFrameCount::new(1)).unwrap().0);
    }
    for p in pages {
        buddy.free_frames(p, PageFrameCount::new(1)).unwrap();
    }
    let (big, got) = buddy.allocate_frames(PageFrameCount::new(8192)).unwrap();
    assert_eq!(got.data(), 8192);
    assert_eq!(big.data() % (8192 * 4096), 0);
}

#[test]
fn locked_facade_is_a_set_once_singleton() {
    let mut lfa = LockedFrameAllocator::new();
    // Before installation nothing can be granted.
    assert!(lfa.allocate(PageFrameCount::new(1)).is_none());
    assert_eq!(
        lfa.free(PhysAddr::new(0x1000), PageFrameCount::new(1)),
        Err(MmError::FreeUnsupported)
    );
    lfa.set_inner_allocator(buddy_with_64_mib()).unwrap();
    let (addr, got) = lfa.allocate(PageFrameCount::new(2)).unwrap();
    assert_eq!(got.data(), 2);
    lfa.free(addr, got).unwrap();
    // Installing a second allocator is the fatal path.
    assert_eq!(
        lfa.set_inner_allocator(buddy_with_64_mib()),
        Err(MmError::AlreadyInitialized)
    );
}
