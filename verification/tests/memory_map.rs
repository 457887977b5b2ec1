use slot_bitmap::{MapType, MemoryMap, MemoryMapError};

fn create_buffer(size: usize) -> Vec<u8> {
    // Extra space mirroring the alignment slack a raw buffer would need.
    vec![0u8; size + 8]
}

#[test]
fn test_memory_map_creation() {
    let buffer = create_buffer(1024);

    // Test successful creation
    let result = MemoryMap::new_from_slice(&buffer, 0, MapType::Small);
    assert!(result.is_ok());

    // Test alignment error
    let unaligned_result = MemoryMap::new_from_slice(&buffer, 1, MapType::Small);
    assert!(matches!(
        unaligned_result,
        Err(MemoryMapError::AlignmentError)
    ));

    // Test invalid offset
    let invalid_result = MemoryMap::new_from_slice(&buffer, 2048, MapType::Small);
    assert!(matches!(invalid_result, Err(MemoryMapError::InvalidOffset)));
}

#[test]
fn test_memory_map_operations() {
    let buffer = create_buffer(512);
    let mut map = MemoryMap::new_from_slice(&buffer, 0, MapType::Small).unwrap();

    // Test allocation
    let idx1 = map.allocate().unwrap();
    let idx2 = map.allocate().unwrap();
    assert_ne!(idx1, idx2);

    // Test deallocation and reuse
    map.dealloc(idx1).unwrap();
    let idx3 = map.allocate().unwrap();
    assert_eq!(idx1, idx3);
}
