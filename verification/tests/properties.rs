use slot_bitmap::get_first_zero_bit::get_first_zero_bit;
use slot_bitmap::{MapType, MemoryMap, MemoryMapError};

fn zeroed_buffer(bytes: usize) -> Vec<u8> {
    vec![0u8; bytes]
}

// Check the parent/child invariant of a map through its public word view:
// every parent bit must be set exactly when the child word below it is
// entirely saturated.
fn assert_consistent(map: &MemoryMap, top_width: usize, tiers: usize) {
    let top = map.word(0);
    for i in 0..top_width {
        let mid = map.word(1 + i);
        assert_eq!(
            (top >> i) & 1 == 1,
            mid == u64::MAX,
            "top bit {} must mirror saturation of mid word {}",
            i,
            i
        );
    }
    if tiers == 3 {
        for g in 0..top_width * 64 {
            let mid = map.word(1 + g / 64);
            let leaf = map.word(1 + top_width + g);
            assert_eq!(
                (mid >> (g % 64)) & 1 == 1,
                leaf == u64::MAX,
                "mid bit {} must mirror saturation of leaf word {}",
                g,
                g
            );
        }
    }
}

#[test]
fn test_invariant_after_each_operation() {
    let buffer = zeroed_buffer(261 * 8);
    let mut map = MemoryMap::new_from_slice(&buffer, 0, MapType::Standard).unwrap();

    let mut allocated = Vec::new();
    for _ in 0..130 {
        allocated.push(map.allocate().unwrap());
        assert_consistent(&map, 4, 3);
    }
    for idx in [5usize, 64, 0, 129, 77] {
        map.dealloc(allocated[idx]).unwrap();
        assert_consistent(&map, 4, 3);
    }
    for _ in 0..5 {
        map.allocate().unwrap();
        assert_consistent(&map, 4, 3);
    }

    let buffer = zeroed_buffer(65 * 8);
    let mut map = MemoryMap::new_from_slice(&buffer, 0, MapType::Small).unwrap();
    for k in 0..100 {
        map.allocate().unwrap();
        if k % 2 == 0 {
            map.dealloc(k).unwrap();
        }
        assert_consistent(&map, 64, 2);
    }
}

#[test]
fn test_small_capacity_boundary() {
    let buffer = zeroed_buffer(65 * 8);
    let mut map = MemoryMap::new_from_slice(&buffer, 0, MapType::Small).unwrap();
    assert_eq!(map.capacity(), 4096);

    for expected in 0..4096 {
        assert_eq!(map.allocate().unwrap(), expected, "no gaps or repeats");
    }
    assert!(
        matches!(map.allocate(), Err(MemoryMapError::NoAvailableSlots)),
        "allocation beyond capacity must fail"
    );
}

#[test]
fn test_standard_capacity_boundary() {
    let buffer = zeroed_buffer(261 * 8);
    let mut map = MemoryMap::new_from_slice(&buffer, 0, MapType::Standard).unwrap();
    assert_eq!(map.capacity(), 16384);

    for expected in 0..16384 {
        assert_eq!(map.allocate().unwrap(), expected, "no gaps or repeats");
    }
    assert!(
        matches!(map.allocate(), Err(MemoryMapError::NoAvailableSlots)),
        "allocation beyond capacity must fail"
    );
}

#[test]
fn test_max_capacity_boundary() {
    let buffer = zeroed_buffer(4161 * 8);
    let mut map = MemoryMap::new_from_slice(&buffer, 0, MapType::Max).unwrap();
    assert_eq!(map.capacity(), 262144);

    for expected in 0..262144 {
        assert_eq!(map.allocate().unwrap(), expected, "no gaps or repeats");
    }
    assert!(
        matches!(map.allocate(), Err(MemoryMapError::NoAvailableSlots)),
        "allocation beyond capacity must fail"
    );
}

#[test]
fn test_dealloc_then_alloc_returns_lowest_free() {
    let buffer = zeroed_buffer(261 * 8);
    let mut map = MemoryMap::new_from_slice(&buffer, 0, MapType::Standard).unwrap();

    for _ in 0..10 {
        map.allocate().unwrap();
    }
    map.dealloc(7).unwrap();
    map.dealloc(3).unwrap();

    assert_eq!(map.allocate().unwrap(), 3, "lowest free index comes first");
    assert_eq!(map.allocate().unwrap(), 7, "then the next free one");
    assert_eq!(map.allocate().unwrap(), 10, "then fresh indices");
}

#[test]
fn test_alloc_dealloc_any_order_returns_to_zero() {
    let buffer = zeroed_buffer(261 * 8);
    let mut map = MemoryMap::new_from_slice(&buffer, 0, MapType::Standard).unwrap();

    let n = 200;
    let mut indices = Vec::new();
    for _ in 0..n {
        indices.push(map.allocate().unwrap());
    }
    // Deallocate in a scrambled order.
    let mut order: Vec<usize> = (0..n).collect();
    order.sort_by_key(|&i| (i * 37 + 11) % n);
    for i in order {
        map.dealloc(indices[i]).unwrap();
    }

    for w in 0..261 {
        assert_eq!(map.word(w), 0, "word {} must be zero again", w);
    }
}

#[test]
fn test_max_group_propagation_scenario() {
    let buffer = zeroed_buffer(4161 * 8);
    let mut map = MemoryMap::new_from_slice(&buffer, 0, MapType::Max).unwrap();

    // First allocation touches only the first leaf word.
    assert_eq!(map.allocate().unwrap(), 0);
    assert_eq!(map.word(65), 1, "leaf word 0 holds the first slot");
    assert_eq!(map.word(1), 0, "mid word 0 untouched after one allocation");
    assert_eq!(map.word(0), 0, "top word untouched after one allocation");

    // Allocations 1..=63 keep filling the same leaf word only.
    for k in 1..64 {
        assert_eq!(map.allocate().unwrap(), k);
        if k < 63 {
            assert_eq!(map.word(1), 0, "mid word stays clear inside the group");
        }
        assert_eq!(map.word(66), 0, "next leaf word stays clear");
        assert_eq!(map.word(0), 0, "top word stays clear");
    }

    // The 64th allocation saturated leaf word 0: its mid bit is now set,
    // but the top bit appears only when the whole mid word saturates.
    assert_eq!(map.word(65), u64::MAX, "leaf word 0 saturated");
    assert_eq!(map.word(1), 1, "mid word 0 has exactly its first bit set");
    assert_eq!(map.word(0), 0, "top word still clear");

    // Fill the whole first mid-tier group.
    for k in 64..4096 {
        assert_eq!(map.allocate().unwrap(), k);
    }
    assert_eq!(map.word(1), u64::MAX, "mid word 0 saturated");
    assert_eq!(map.word(0), 1, "top bit 0 set once the mid word saturates");
}

#[test]
fn test_double_dealloc_is_idempotent() {
    let buffer = zeroed_buffer(65 * 8);
    let mut map = MemoryMap::new_from_slice(&buffer, 0, MapType::Small).unwrap();

    for _ in 0..3 {
        map.allocate().unwrap();
    }
    assert!(map.dealloc(1).is_ok(), "first dealloc succeeds");

    let snapshot: Vec<u64> = (0..65).map(|w| map.word(w)).collect();
    assert!(map.dealloc(1).is_ok(), "second dealloc succeeds too");
    for w in 0..65 {
        assert_eq!(map.word(w), snapshot[w], "second dealloc changed nothing");
    }

    // Deallocating a never-allocated index is a silent no-op as well.
    let snapshot: Vec<u64> = (0..65).map(|w| map.word(w)).collect();
    assert!(map.dealloc(4000).is_ok());
    for w in 0..65 {
        assert_eq!(map.word(w), snapshot[w]);
    }
}

// Reference implementation: linear scan for the lowest clear bit.
fn first_zero_bit_reference(pattern: u64, bits: usize) -> Option<usize> {
    (0..bits).find(|&j| pattern & (1u64 << j) == 0)
}

#[test]
fn test_kernel_matches_reference_on_random_words() {
    // A fixed-seed linear congruential generator; no dependence on the
    // environment.
    let mut state: u64 = 0x9e37_79b9_7f4a_7c15;
    let mut next = move || {
        state = state
            .wrapping_mul(6364136223846793005)
            .wrapping_add(1442695040888963407);
        state
    };

    let mut patterns: Vec<u64> = vec![
        0,
        u64::MAX,
        0xffff_ffff,
        0xffff,
        0xffff_ffff_ffff,
        0xffff_0000_0000,
        0x0000_ffff_ffff_ffff,
    ];
    for _ in 0..2000 {
        let r = next();
        patterns.push(r);
        // Words with saturated low chunks probe the short-circuit branches.
        patterns.push(r | 0xffff);
        patterns.push(r | 0xffff_ffff);
        patterns.push(r | 0xffff_ffff_ffff);
    }

    for &pattern in &patterns {
        // Every significant-bit count, including 34..=63.
        for bits in 0..=64 {
            let got = get_first_zero_bit(pattern, bits);
            match first_zero_bit_reference(pattern, bits) {
                Some(j) => assert_eq!(
                    got.unwrap(),
                    j,
                    "pattern {:#x} bits {}: lowest clear bit",
                    pattern,
                    bits
                ),
                None => assert!(
                    matches!(got, Err(MemoryMapError::NoAvailableSlots)),
                    "pattern {:#x} bits {}: must report no slot",
                    pattern,
                    bits
                ),
            }
        }
    }
}

#[test]
fn test_new_from_slice_insufficient_memory() {
    let buffer = zeroed_buffer(100);
    // 100 bytes hold only 12 words; even the smallest geometry needs 65.
    let result = MemoryMap::new_from_slice(&buffer, 0, MapType::Small);
    assert!(matches!(result, Err(MemoryMapError::InsufficientMemory)));

    let buffer = zeroed_buffer(65 * 8);
    // Enough at offset 0, but not from offset 8 on.
    let result = MemoryMap::new_from_slice(&buffer, 8, MapType::Small);
    assert!(matches!(result, Err(MemoryMapError::InsufficientMemory)));
}

#[test]
fn test_new_from_slice_at_offset() {
    // One arena, two facade maps over different offsets.
    let buffer = zeroed_buffer(16 + 65 * 8 + 261 * 8);
    let mut small = MemoryMap::new_from_slice(&buffer, 16, MapType::Small).unwrap();
    let mut standard = MemoryMap::new_from_slice(&buffer, 16 + 65 * 8, MapType::Standard).unwrap();

    assert_eq!(small.allocate().unwrap(), 0);
    assert_eq!(standard.allocate().unwrap(), 0);
    assert_eq!(small.allocate().unwrap(), 1);
    small.dealloc(0).unwrap();
    assert_eq!(small.allocate().unwrap(), 0);
    assert_eq!(standard.allocate().unwrap(), 1);
}

#[test]
fn test_word_reads_decoded_region() {
    // The region's bytes are decoded as little-endian 64-bit words.
    let mut buffer = zeroed_buffer(65 * 8);
    buffer[0] = 0x01;
    buffer[8] = 0xfe;
    buffer[9] = 0xca;
    let map = MemoryMap::new_from_slice(&buffer, 0, MapType::Small).unwrap();
    assert_eq!(map.word(0), 1);
    assert_eq!(map.word(1), 0xcafe);
    assert_eq!(map.word(2), 0);
}
