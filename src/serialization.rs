use vstd::prelude::*;

use crate::allocator::{TensorAllocator, TensorAllocatorError};
use crate::storage::array_layout_is_valid;
use crate::tensor::{extents_positive, parts_accepted, shape_product, Tensor, TensorError};

verus! {

/// The flat form of a tensor: its elements, its shape and its strides, in that order.
/// Nothing else, the allocator included, belongs to it.
pub struct SerializedTensor<T> {
    pub data: Vec<T>,
    pub shape: Vec<usize>,
    pub strides: Vec<usize>,
}

fn copy_to_vec<T: Copy>(s: &[T]) -> (r: Vec<T>)
    ensures
        r@ == s@,
{
    let mut v: Vec<T> = Vec::new();
    let mut i: usize = 0;
    while i < s.len()
        invariant
            i <= s@.len(),
            v@ == s@.subrange(0, i as int),
        decreases s@.len() - i,
    {
        v.push(s[i]);
        i = i + 1;
        assert(v@ =~= s@.subrange(0, i as int));
    }
    assert(v@ =~= s@);
    v
}

impl<T: Copy, const N: usize, A: TensorAllocator> Tensor<T, N, A> {
    /// The tensor's elements, shape and strides, copied out.
    pub fn serialize(&self) -> (r: SerializedTensor<T>)
        ensures
            r.data@ == self.data_view(),
            r.shape@ == self.shape_view(),
            r.strides@ == self.strides_view(),
    {
        SerializedTensor {
            data: copy_to_vec(self.as_slice()),
            shape: copy_to_vec(self.shape()),
            strides: copy_to_vec(self.strides()),
        }
    }
}

impl<T: Copy, const N: usize, A: TensorAllocator + Default> Tensor<T, N, A> {
    /// Rebuilds a tensor from its flat form, in fresh storage from a default allocator.
    /// A shape or strides of another length than `N` is an error, never cut or padded.
    pub fn deserialize(record: SerializedTensor<T>) -> (r: Result<Self, TensorError>)
        ensures
            record.shape@.len() != N ==> r == Err::<Self, _>(TensorError::ShapeRankMismatch),
            record.shape@.len() == N && record.strides@.len() != N ==> r == Err::<Self, _>(
                TensorError::StridesRankMismatch,
            ),
            record.shape@.len() == N && record.strides@.len() == N && !extents_positive(
                record.shape@,
            ) ==> r == Err::<Self, _>(TensorError::ZeroExtent),
            record.shape@.len() == N && record.strides@.len() == N && extents_positive(
                record.shape@,
            ) && shape_product(record.shape@) != record.data@.len() ==> r == Err::<Self, _>(
                TensorError::ElementCountMismatch,
            ),
            record.shape@.len() == N && record.strides@.len() == N && extents_positive(
                record.shape@,
            ) && shape_product(record.shape@) == record.data@.len() && !array_layout_is_valid::<T>(
                record.data@.len(),
            ) ==> r == Err::<Self, _>(TensorError::Storage(TensorAllocatorError::LayoutError)),
            parts_accepted(record.data@, record.shape@, record.strides@, N as nat) && r is Err
                ==> r->Err_0 is Storage,
            r is Ok ==> r->Ok_0.wf() && r->Ok_0.data_view() == record.data@
                && r->Ok_0.shape_view() == record.shape@ && r->Ok_0.strides_view()
                == record.strides@,
    {
        let SerializedTensor { data, shape, strides } = record;
        Tensor::from_parts(data, shape, strides, A::default())
    }
}

} // verus!
