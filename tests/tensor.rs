use kornia_rs::allocator::CpuAllocator;
use kornia_rs::serialization::SerializedTensor;
use kornia_rs::storage::TensorStorage;
use kornia_rs::tensor::{Tensor, TensorError};

#[test]
fn from_shape_vec_row_major_strides() {
    let data: Vec<u16> = (0..24).collect();
    let t = Tensor::<u16, 3, CpuAllocator>::from_shape_vec([2, 3, 4], data.clone(), CpuAllocator)
        .unwrap();
    assert_eq!(t.shape(), &[2, 3, 4]);
    assert_eq!(t.strides(), &[12, 4, 1]);
    assert_eq!(t.as_slice(), data.as_slice());
    assert_eq!(t.numel(), 24);
    t.release();
}

#[test]
fn from_shape_vec_rejects_zero_extent() {
    let r = Tensor::<u8, 2, CpuAllocator>::from_shape_vec([0, 3], vec![], CpuAllocator);
    assert!(matches!(r, Err(TensorError::ZeroExtent)));
}

#[test]
fn from_shape_vec_rejects_count_mismatch() {
    let r = Tensor::<u8, 2, CpuAllocator>::from_shape_vec([2, 3], vec![0; 5], CpuAllocator);
    assert!(matches!(r, Err(TensorError::ElementCountMismatch)));
    let r = Tensor::<u8, 2, CpuAllocator>::from_shape_vec([usize::MAX, 3], vec![0; 5], CpuAllocator);
    assert!(matches!(r, Err(TensorError::ElementCountMismatch)));
}

#[test]
fn serialize_emits_data_shape_strides() {
    let t = Tensor::<i32, 2, CpuAllocator>::from_shape_vec([2, 3], vec![1, -2, 3, -4, 5, -6], CpuAllocator)
        .unwrap();
    let rec = t.serialize();
    assert_eq!(rec.data, vec![1, -2, 3, -4, 5, -6]);
    assert_eq!(rec.shape, vec![2, 3]);
    assert_eq!(rec.strides, vec![3, 1]);
}

#[test]
fn serialize_deserialize_round_trip() {
    let data: Vec<u8> = (0..24u8).map(|x| x.wrapping_mul(37).wrapping_add(11)).collect();
    let t = Tensor::<u8, 3, CpuAllocator>::from_shape_vec([2, 3, 4], data.clone(), CpuAllocator)
        .unwrap();
    let back = Tensor::<u8, 3, CpuAllocator>::deserialize(t.serialize()).unwrap();
    assert_eq!(back.as_slice(), t.as_slice());
    assert_eq!(back.shape(), t.shape());
    assert_eq!(back.strides(), t.strides());
}

#[test]
fn round_trip_keeps_float_values_exactly() {
    let data: Vec<f32> = vec![0.5, -1.25, 3.0e-7, f32::MAX, -0.0, 1.0e10];
    let t = Tensor::<f32, 2, CpuAllocator>::from_shape_vec([2, 3], data.clone(), CpuAllocator)
        .unwrap();
    let back = Tensor::<f32, 2, CpuAllocator>::deserialize(t.serialize()).unwrap();
    let bits: Vec<u32> = back.as_slice().iter().map(|x| x.to_bits()).collect();
    let expected: Vec<u32> = data.iter().map(|x| x.to_bits()).collect();
    assert_eq!(bits, expected);
    assert_eq!(back.shape(), &[2, 3]);
    assert_eq!(back.strides(), &[3, 1]);
}

#[test]
fn deserialize_keeps_given_strides() {
    let rec = SerializedTensor { data: vec![1u8, 2, 3, 4, 5, 6], shape: vec![3, 2], strides: vec![1, 3] };
    let t = Tensor::<u8, 2, CpuAllocator>::deserialize(rec).unwrap();
    assert_eq!(t.strides(), &[1, 3]);
    assert_eq!(t.shape(), &[3, 2]);
}

#[test]
fn deserialize_rejects_shape_of_other_rank() {
    let longer = SerializedTensor { data: vec![0u8; 6], shape: vec![1, 2, 3], strides: vec![6, 3] };
    assert!(matches!(
        Tensor::<u8, 2, CpuAllocator>::deserialize(longer),
        Err(TensorError::ShapeRankMismatch)
    ));
    let shorter = SerializedTensor { data: vec![0u8; 6], shape: vec![6], strides: vec![1, 1] };
    assert!(matches!(
        Tensor::<u8, 2, CpuAllocator>::deserialize(shorter),
        Err(TensorError::ShapeRankMismatch)
    ));
}

#[test]
fn deserialize_rejects_strides_of_other_rank() {
    let rec = SerializedTensor { data: vec![0u8; 6], shape: vec![2, 3], strides: vec![3, 1, 1] };
    assert!(matches!(
        Tensor::<u8, 2, CpuAllocator>::deserialize(rec),
        Err(TensorError::StridesRankMismatch)
    ));
}

#[test]
fn deserialize_rejects_element_count_mismatch() {
    let rec = SerializedTensor { data: vec![0u8; 7], shape: vec![2, 3], strides: vec![3, 1] };
    assert!(matches!(
        Tensor::<u8, 2, CpuAllocator>::deserialize(rec),
        Err(TensorError::ElementCountMismatch)
    ));
}

#[test]
fn storage_records_array_layout() {
    let s = TensorStorage::<u32, CpuAllocator>::from_vec(vec![7, 8, 9], CpuAllocator).unwrap();
    assert_eq!(s.as_slice(), &[7, 8, 9]);
    assert_eq!(s.len(), 3);
    assert_eq!(s.layout().size(), 12);
    assert_eq!(s.layout().align(), std::mem::align_of::<u32>());
    s.release();
}

#[test]
fn get_follows_row_major_strides() {
    let data: Vec<u32> = (0..24).collect();
    let t = Tensor::<u32, 3, CpuAllocator>::from_shape_vec([2, 3, 4], data, CpuAllocator).unwrap();
    assert_eq!(t.get([1, 2, 3]), Some(23));
    assert_eq!(t.get([0, 1, 0]), Some(4));
    assert_eq!(t.get([2, 0, 0]), None);
    assert_eq!(t.get([0, 0, 4]), None);
}

#[test]
fn get_follows_given_strides() {
    let rec = SerializedTensor { data: (0..6u8).collect(), shape: vec![3, 2], strides: vec![1, 3] };
    let t = Tensor::<u8, 2, CpuAllocator>::deserialize(rec).unwrap();
    assert_eq!(t.get([2, 1]), Some(5));
    assert_eq!(t.get([1, 0]), Some(1));
    let rec = SerializedTensor { data: vec![0u8; 6], shape: vec![2, 3], strides: vec![10, 1] };
    let t = Tensor::<u8, 2, CpuAllocator>::deserialize(rec).unwrap();
    assert_eq!(t.get([1, 0]), None);
    let rec = SerializedTensor { data: vec![0u8; 6], shape: vec![2, 3], strides: vec![usize::MAX, 1] };
    let t = Tensor::<u8, 2, CpuAllocator>::deserialize(rec).unwrap();
    assert_eq!(t.get([1, 2]), None);
}

#[test]
fn set_overwrites_one_element() {
    let mut t = Tensor::<i16, 2, CpuAllocator>::from_shape_vec([2, 3], vec![0; 6], CpuAllocator)
        .unwrap();
    t.set(5, -7);
    assert_eq!(t.as_slice(), &[0, 0, 0, 0, 0, -7]);
    assert_eq!(t.get([1, 2]), Some(-7));
    assert_eq!(t.shape(), &[2, 3]);
}
