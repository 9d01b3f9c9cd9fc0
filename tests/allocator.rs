use kornia_rs::allocator::{CpuAllocator, TensorAllocator, TensorAllocatorError, TensorLayout};

#[test]
fn test_cpu_allocator() -> Result<(), TensorAllocatorError> {
    let allocator = CpuAllocator;
    let layout = TensorLayout::from_size_align(1024, 64).unwrap();
    let block = allocator.allocate::<u8>(layout)?;
    allocator.deallocate(block, layout);
    Ok(())
}

#[test]
fn repeated_allocation_cycles_succeed() {
    let allocator = CpuAllocator;
    let layout = TensorLayout::from_size_align(4096, 8).unwrap();
    for cycle in 0..200u32 {
        let mut block = allocator.allocate::<u8>(layout).unwrap();
        assert_eq!(block.layout(), layout);
        assert_eq!(block.len(), 0);
        let sentinel = (cycle % 251) as u8;
        for _ in 0..layout.size() {
            block.push(sentinel);
        }
        assert_eq!(block.len(), 4096);
        assert!(block.as_slice().iter().all(|&b| b == sentinel));
        allocator.deallocate(block, layout);
    }
}

#[test]
fn layout_keeps_size_and_alignment() {
    let layout = TensorLayout::from_size_align(1024, 64).unwrap();
    assert_eq!(layout.size(), 1024);
    assert_eq!(layout.align(), 64);
    let zero = TensorLayout::from_size_align(0, 1).unwrap();
    assert_eq!(zero.size(), 0);
}

#[test]
fn layout_rejects_alignment_not_power_of_two() {
    assert_eq!(
        TensorLayout::from_size_align(1024, 3),
        Err(TensorAllocatorError::LayoutError)
    );
    assert_eq!(
        TensorLayout::from_size_align(1024, 0),
        Err(TensorAllocatorError::LayoutError)
    );
}

#[test]
fn layout_rejects_size_past_isize_max() {
    let max = isize::MAX as usize;
    assert!(TensorLayout::from_size_align(max, 1).is_ok());
    assert_eq!(
        TensorLayout::from_size_align(max, 2),
        Err(TensorAllocatorError::LayoutError)
    );
    assert_eq!(
        TensorLayout::from_size_align(usize::MAX, 1),
        Err(TensorAllocatorError::LayoutError)
    );
}

#[test]
fn array_layout_uses_element_size() {
    let layout = TensorLayout::for_array::<u32>(10).unwrap();
    assert_eq!(layout.size(), 40);
    assert_eq!(layout.align(), std::mem::align_of::<u32>());
    assert_eq!(
        TensorLayout::for_array::<u64>(usize::MAX / 4),
        Err(TensorAllocatorError::LayoutError)
    );
}

#[test]
fn cpu_reserve_gives_empty_block_with_layout() {
    let layout = TensorLayout::for_array::<u64>(16).unwrap();
    let block = CpuAllocator.reserve::<u64>(layout).unwrap();
    assert_eq!(block.layout(), layout);
    assert_eq!(block.len(), 0);
    CpuAllocator.deallocate(block, layout);
}

#[test]
fn cpu_allocator_default_is_usable() {
    let allocator = CpuAllocator::default();
    let layout = TensorLayout::from_size_align(8, 8).unwrap();
    let mut block = allocator.allocate::<u8>(layout).unwrap();
    block.push(0xAB);
    block.set(0, 0xCD);
    assert_eq!(block.as_slice(), &[0xCD]);
    allocator.deallocate(block, layout);
}
