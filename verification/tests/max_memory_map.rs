use slot_bitmap::max_memory_map::MaxMemoryMap;
use slot_bitmap::MemoryMapError;

// Calculate required memory size for max map
fn get_required_size() -> usize {
    (1 + 64 + 64 * 64) * std::mem::size_of::<u64>()
}

// A zeroed word region covering `size` bytes, with the extra slack the raw
// buffer of the host would carry for alignment.
fn create_memory_words(size: usize) -> Vec<u64> {
    vec![0u64; (size + 8) / 8]
}

#[test]
fn test_basic_creation() {
    let required_size = get_required_size();
    let words = create_memory_words(required_size);

    // Create a MaxMemoryMap with sufficient memory
    let map_result = MaxMemoryMap::new(words);
    assert!(
        map_result.is_ok(),
        "Should create map with sufficient memory"
    );
}

#[test]
fn test_insufficient_memory() {
    let words = create_memory_words(100); // Too small

    // Try to create with insufficient memory
    let map_result = MaxMemoryMap::new(words);
    assert!(
        matches!(map_result, Err(MemoryMapError::InsufficientMemory)),
        "Should fail with insufficient memory"
    );
}

#[test]
fn test_basic_allocation() {
    let required_size = get_required_size();
    let words = create_memory_words(required_size);

    // Create map and perform first allocation
    let mut map = MaxMemoryMap::new(words).unwrap();
    let index1 = map.allocate();

    assert!(index1.is_ok(), "First allocation should succeed");
    assert_eq!(index1.unwrap(), 0, "First allocation should return index 0");
}

#[test]
fn test_multiple_allocations() {
    let required_size = get_required_size();
    let words = create_memory_words(required_size);

    let mut map = MaxMemoryMap::new(words).unwrap();

    // Allocate 5 indices and verify they are sequential
    let mut indices = Vec::new();
    for i in 0..5 {
        let index = map.allocate().unwrap();
        indices.push(index);
        assert_eq!(index, i, "Index should match iteration count");
    }

    // Verify all indices are unique
    for i in 0..indices.len() {
        for j in i + 1..indices.len() {
            assert_ne!(indices[i], indices[j], "Allocated indices should be unique");
        }
    }
}

#[test]
fn test_deallocation() {
    let required_size = get_required_size();
    let words = create_memory_words(required_size);

    let mut map = MaxMemoryMap::new(words).unwrap();

    // Allocate 3 indices
    let index1 = map.allocate().unwrap();
    let index2 = map.allocate().unwrap();
    let index3 = map.allocate().unwrap();

    // Verify the sequence
    assert_eq!(index1, 0, "First allocation should be 0");
    assert_eq!(index2, 1, "Second allocation should be 1");
    assert_eq!(index3, 2, "Third allocation should be 2");

    // Deallocate the middle one
    let dealloc_result = map.dealloc(index2);
    assert!(dealloc_result.is_ok(), "Deallocation should succeed");

    // Next allocation should reuse the deallocated index
    let index4 = map.allocate().unwrap();
    assert_eq!(index4, index2, "Should reuse deallocated index");

    // One more allocation should be a new index
    let index5 = map.allocate().unwrap();
    assert_eq!(index5, index3 + 1, "Next allocation should be a new index");
}

#[test]
fn test_invalid_deallocation() {
    let required_size = get_required_size();
    let words = create_memory_words(required_size);

    let mut map = MaxMemoryMap::new(words).unwrap();

    // Try to deallocate an invalid index
    let invalid_index = 1_000_000; // Way beyond our capacity
    let dealloc_result = map.dealloc(invalid_index);
    assert!(
        matches!(dealloc_result, Err(MemoryMapError::InvalidIndex)),
        "Should reject invalid index"
    );
}

#[test]
fn test_allocation_after_multiple_deallocations() {
    let required_size = get_required_size();
    let words = create_memory_words(required_size);

    let mut map = MaxMemoryMap::new(words).unwrap();

    // Allocate 10 indices
    let mut indices = Vec::new();
    for _ in 0..10 {
        indices.push(map.allocate().unwrap());
    }

    // Deallocate some specific indices
    let to_deallocate = [2, 5, 7];
    for &idx in &to_deallocate {
        map.dealloc(indices[idx]).unwrap();
    }

    // Next allocations should reuse deallocated indices in order
    for &idx in &to_deallocate {
        let new_index = map.allocate().unwrap();
        assert_eq!(
            new_index, indices[idx],
            "Should reuse deallocated index {}",
            indices[idx]
        );
    }
}

#[test]
fn test_level_transitions() {
    let required_size = get_required_size();
    let words = create_memory_words(required_size);

    let mut map = MaxMemoryMap::new(words).unwrap();

    // Allocate and track indices
    let mut all_indices = Vec::new();

    // Allocate 100 indices - should cross level boundaries
    for _ in 0..100 {
        let idx = map.allocate().unwrap();
        all_indices.push(idx);
    }

    // Check patterns in allocated indices
    // First 64 indices should have the form (0 << 12) + (0 << 6) + i
    // where i ranges from 0 to 63
    for i in 0..64 {
        assert_eq!(all_indices[i], i, "First 64 indices should be sequential");
        assert_eq!(
            all_indices[i] >> 12,
            0,
            "First 64 indices should use first-level bit 0"
        );
        assert_eq!(
            (all_indices[i] >> 6) & 0x3F,
            0,
            "First 64 indices should use second-level bit 0"
        );
    }

    // Next batch of indices should have the form (0 << 12) + (1 << 6) + i
    assert_eq!(
        all_indices[64] >> 6,
        1,
        "65th index should use second-level bit 1"
    );
    assert_eq!(
        all_indices[64] & 0x3F,
        0,
        "65th index should use third-level bit 0"
    );

    // Deallocate in reverse order
    for idx in all_indices.iter().rev() {
        map.dealloc(*idx).unwrap();
    }

    // After deallocating everything, next allocation should be 0 again
    let index = map.allocate().unwrap();
    assert_eq!(
        index, 0,
        "After deallocating all, should start from 0 again"
    );
}

#[test]
fn test_full_allocation() {
    let required_size = get_required_size();
    let words = create_memory_words(required_size);

    let mut map = MaxMemoryMap::new(words).unwrap();

    // Allocate as many indices as possible (limiting to avoid excessive test time)
    let mut allocated = Vec::new();
    let mut last_index = None;

    // Try to allocate up to 10,000 indices
    for _ in 0..10_000 {
        match map.allocate() {
            Ok(idx) => {
                // Check that indices are increasing
                if let Some(last) = last_index {
                    assert!(
                        idx > last || allocated.contains(&idx),
                        "New index should be greater than previous or reused"
                    );
                }
                last_index = Some(idx);
                allocated.push(idx);
            }
            Err(_) => break,
        }
    }

    println!("Successfully allocated {} indices", allocated.len());
    assert!(
        allocated.len() > 100,
        "Should allocate a significant number of indices"
    );

    // Now deallocate every third index
    let to_deallocate: Vec<_> = allocated
        .iter()
        .enumerate()
        .filter(|(i, _)| i % 3 == 0)
        .map(|(_, &idx)| idx)
        .collect();

    for &idx in &to_deallocate {
        map.dealloc(idx).unwrap();
    }

    // Reallocate and verify we get the same indices back (in some order)
    let mut reallocated = Vec::new();
    for _ in 0..to_deallocate.len() {
        match map.allocate() {
            Ok(idx) => reallocated.push(idx),
            Err(_) => break,
        }
    }

    // Sort both for comparison
    let mut to_deallocate = to_deallocate.clone();
    to_deallocate.sort();
    reallocated.sort();

    assert_eq!(
        to_deallocate, reallocated,
        "Should reallocate exactly the same indices that were deallocated"
    );
}

#[test]
fn test_multiple_maps_in_same_buffer() {
    let single_map_size = get_required_size();

    // Two maps over disjoint halves of one arena: each gets its own words.
    let words1 = vec![0u64; single_map_size / 8];
    let words2 = vec![0u64; single_map_size / 8];

    // Step 1: Create first map and allocate
    let mut map1 = MaxMemoryMap::new(words1).unwrap();
    let index1 = map1.allocate().unwrap();
    assert_eq!(index1, 0, "First allocation in map1 should be 0");

    // Step 2: Create second map at different offset and allocate
    let mut map2 = MaxMemoryMap::new(words2).unwrap();
    let index2 = map2.allocate().unwrap();
    assert_eq!(index2, 0, "First allocation in map2 should be 0");

    // Step 3: Allocate again from both maps
    let index1_2 = map1.allocate().unwrap();
    assert_eq!(index1_2, 1, "Second allocation in map1 should be 1");

    let index2_2 = map2.allocate().unwrap();
    assert_eq!(index2_2, 1, "Second allocation in map2 should be 1");

    // Step 4: Deallocate from first map
    map1.dealloc(index1).unwrap();

    // Step 5: Verify independence of both maps
    let index1_3 = map1.allocate().unwrap();
    assert_eq!(index1_3, index1, "Map1 should reuse deallocated index");

    let index2_3 = map2.allocate().unwrap();
    assert_eq!(index2_3, 2, "Map2 should allocate next sequential index");
}
