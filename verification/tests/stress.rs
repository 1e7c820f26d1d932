use hashbrown::HashSet;
use mm_x86_64::addr::{PageFrameCount, PhysAddr, PhysMemoryArea};
use mm_x86_64::arch::LockedFrameAllocator;
use mm_x86_64::buddy::BuddyAllocator;
use mm_x86_64::bump::BumpAllocator;
use mm_x86_64::frame::FrameAllocator;

/// Deterministic pseudo-random source for the stress rounds.
struct Lcg {
    state: u64,
}

impl Lcg {
    fn next(&mut self) -> u64 {
        self.state = self
            .state
            .wrapping_mul(6364136223846793005)
            .wrapping_add(1442695040888963407);
        self.state >> 11
    }
}

fn page_round_up(x: u64) -> u64 {
    (x + 4095) & !4095
}

/// Allocates pseudo-random power-of-two-rounded sizes up to a 200 MiB
/// working set, tracks every live address in a set to rule out any
/// overlap, frees most blocks per round, and checks the accounting
/// returns to its starting point.
#[test]
fn concurrent_live_allocations_never_overlap() {
    const TOTAL_SIZE: u64 = 200 * 1024 * 1024;
    // Half a GiB of backing memory for the buddy allocator.
    let areas = vec![PhysMemoryArea::new(PhysAddr::new(0x2000_0000), 0x2000_0000)];
    let bump = BumpAllocator::new(areas, 0x2000_0000);
    let mut lfa = LockedFrameAllocator::new();
    lfa.set_inner_allocator(BuddyAllocator::new(bump).unwrap()).unwrap();
    let usage0 = lfa.usage();
    let mut rng = Lcg { state: 0x853c49e6748fea9b };

    for _round in 0..3 {
        let mut live: Vec<(PhysAddr, PageFrameCount)> = Vec::new();
        let mut addr_set: HashSet<u64> = HashSet::new();
        let mut allocated = 0u64;

        while allocated < TOTAL_SIZE {
            let mut random_size = rng.next() % (1024 * 4096);
            if random_size == 0 {
                continue;
            }
            random_size = page_round_up(random_size).min(TOTAL_SIZE - allocated);
            random_size = random_size.next_power_of_two();
            let count = PageFrameCount::from_bytes(random_size).unwrap();
            let (paddr, got) = lfa.allocate(count).unwrap();
            assert!(got.data().is_power_of_two());
            assert_eq!(paddr.data() % 4096, 0);
            // Aligned to its own size.
            assert_eq!(paddr.data() % (got.data() * 4096), 0);
            allocated += got.data() * 4096;
            live.push((paddr, got));
            // No two live allocations may ever collide.
            assert!(addr_set.insert(paddr.data()), "duplicate address {:#x}", paddr.data());

            if !live.is_empty() {
                let roll = rng.next();
                // Keep the block roughly a third of the time.
                if roll % 10 > 7 {
                    continue;
                }
                let idx = (rng.next() % live.len() as u64) as usize;
                let (paddr, got) = live.swap_remove(idx);
                assert!(addr_set.remove(&paddr.data()));
                lfa.free(paddr, got).unwrap();
            }
        }

        for (paddr, got) in live {
            assert!(addr_set.remove(&paddr.data()));
            lfa.free(paddr, got).unwrap();
        }
        assert!(addr_set.is_empty());
        // Everything freed: the accounting is back where it started.
        assert_eq!(lfa.usage(), usage0);
    }
}
