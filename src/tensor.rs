use vstd::prelude::*;

use crate::allocator::{TensorAllocator, TensorAllocatorError};
use crate::storage::{array_layout_is_valid, TensorStorage};

verus! {

/// The number of elements that a shape spans: the product of its extents.
pub open spec fn shape_product(s: Seq<usize>) -> nat
    decreases s.len(),
{
    if s.len() == 0 {
        1
    } else {
        s[0] as nat * shape_product(s.subrange(1, s.len() as int))
    }
}

/// Every extent of the shape is at least one.
pub open spec fn extents_positive(s: Seq<usize>) -> bool {
    forall|i: int| 0 <= i < s.len() ==> s[i] > 0
}

/// `strides` are the row-major strides of `shape`: the stride of a dimension is the
/// number of elements spanned by the dimensions after it.
pub open spec fn is_row_major(shape: Seq<usize>, strides: Seq<usize>) -> bool {
    &&& strides.len() == shape.len()
    &&& forall|i: int|
        0 <= i < shape.len() ==> strides[i] as nat == shape_product(
            #[trigger] shape.subrange(i + 1, shape.len() as int),
        )
}

proof fn lemma_product_unfold(s: Seq<usize>, i: int)
    requires
        0 <= i < s.len(),
    ensures
        shape_product(s.subrange(i, s.len() as int)) == s[i] as nat * shape_product(
            s.subrange(i + 1, s.len() as int),
        ),
{
    let t = s.subrange(i, s.len() as int);
    assert(t.subrange(1, t.len() as int) =~= s.subrange(i + 1, s.len() as int));
}

proof fn lemma_suffix_product_le(s: Seq<usize>, k: int)
    requires
        extents_positive(s),
        0 <= k <= s.len(),
    ensures
        shape_product(s.subrange(k, s.len() as int)) <= shape_product(s),
    decreases k,
{
    if k == 0 {
        assert(s.subrange(0, s.len() as int) =~= s);
    } else {
        lemma_suffix_product_le(s, k - 1);
        lemma_product_unfold(s, k - 1);
        let p = shape_product(s.subrange(k, s.len() as int));
        let x = s[k - 1] as nat;
        assert(p <= x * p) by (nonlinear_arith)
            requires
                x >= 1,
        ;
    }
}

fn all_extents_positive(shape: &Vec<usize>) -> (r: bool)
    ensures
        r == extents_positive(shape@),
{
    let mut i: usize = 0;
    while i < shape.len()
        invariant
            i <= shape@.len(),
            forall|j: int| 0 <= j < i ==> shape@[j] > 0,
        decreases shape@.len() - i,
    {
        if shape[i] == 0 {
            return false;
        }
        i = i + 1;
    }
    true
}

/// The element count and the row-major strides of a shape whose extents are all
/// positive, or `None` when the element count does not fit in a `usize`.
fn row_major_checked(shape: &Vec<usize>) -> (r: Option<(usize, Vec<usize>)>)
    requires
        extents_positive(shape@),
    ensures
        r is Some <==> shape_product(shape@) <= usize::MAX,
        r is Some ==> r->Some_0.0 as nat == shape_product(shape@) && is_row_major(
            shape@,
            r->Some_0.1@,
        ),
{
    let n = shape.len();
    let mut strides: Vec<usize> = Vec::new();
    let mut k: usize = 0;
    while k < n
        invariant
            k <= n,
            n == shape@.len(),
            strides@.len() == k,
        decreases n - k,
    {
        strides.push(0);
        k = k + 1;
    }
    let mut acc: usize = 1;
    let mut i: usize = n;
    assert(shape@.subrange(n as int, n as int).len() == 0);
    while i > 0
        invariant
            i <= n,
            n == shape@.len(),
            strides@.len() == n,
            extents_positive(shape@),
            acc as nat == shape_product(shape@.subrange(i as int, n as int)),
            forall|j: int|
                i <= j < n ==> strides@[j] as nat == shape_product(
                    #[trigger] shape@.subrange(j + 1, n as int),
                ),
        decreases i,
    {
        let j = i - 1;
        strides.set(j, acc);
        proof {
            lemma_product_unfold(shape@, j as int);
        }
        match shape[j].checked_mul(acc) {
            Some(p) => {
                acc = p;
            },
            None => {
                proof {
                    lemma_suffix_product_le(shape@, j as int);
                }
                return None;
            },
        }
        i = j;
    }
    assert(shape@.subrange(0, n as int) =~= shape@);
    Some((acc, strides))
}

/// The sum of `index[i] * strides[i]` over the first `k` dimensions.
pub open spec fn offset_upto(index: Seq<usize>, strides: Seq<usize>, k: int) -> nat
    decreases k,
{
    if k <= 0 {
        0
    } else {
        offset_upto(index, strides, k - 1) + index[k - 1] as nat * strides[k - 1] as nat
    }
}

/// Every index is below the extent of its dimension.
pub open spec fn index_in_shape(index: Seq<usize>, shape: Seq<usize>) -> bool {
    &&& index.len() == shape.len()
    &&& forall|i: int| 0 <= i < index.len() ==> index[i] < shape[i]
}

proof fn lemma_offset_monotone(index: Seq<usize>, strides: Seq<usize>, k: int, j: int)
    requires
        0 <= k <= j,
    ensures
        offset_upto(index, strides, k) <= offset_upto(index, strides, j),
    decreases j - k,
{
    if k < j {
        lemma_offset_monotone(index, strides, k, j - 1);
    }
}

/// Data, shape and strides that `Tensor::from_parts` accepts for a tensor of rank `n`
/// holding values of `T`: both sequences have length `n`, every extent is positive, the
/// shape spans exactly the data, and the data's array layout is valid.
pub open spec fn parts_accepted<T>(data: Seq<T>, shape: Seq<usize>, strides: Seq<usize>, n: nat) -> bool {
    &&& shape.len() == n
    &&& strides.len() == n
    &&& extents_positive(shape)
    &&& shape_product(shape) == data.len()
    &&& array_layout_is_valid::<T>(data.len())
}

/// Why a tensor could not be built.
#[derive(Clone, Copy, Debug, PartialEq, Eq, Structural)]
pub enum TensorError {
    /// The shape holds an extent of zero.
    ZeroExtent,
    /// The shape spans another number of elements than the data holds.
    ElementCountMismatch,
    /// The shape's length is not the tensor's rank.
    ShapeRankMismatch,
    /// The strides' length is not the tensor's rank.
    StridesRankMismatch,
    /// The storage could not be allocated.
    Storage(TensorAllocatorError),
}

/// A tensor of fixed rank `N`: one storage block viewed through a shape and strides.
pub struct Tensor<T, const N: usize, A: TensorAllocator> {
    storage: TensorStorage<T, A>,
    shape: Vec<usize>,
    strides: Vec<usize>,
}

impl<T: Copy, const N: usize, A: TensorAllocator> Tensor<T, N, A> {
    pub closed spec fn data_view(&self) -> Seq<T> {
        self.storage.view()
    }

    pub closed spec fn shape_view(&self) -> Seq<usize> {
        self.shape@
    }

    pub closed spec fn strides_view(&self) -> Seq<usize> {
        self.strides@
    }

    /// Shape and strides have length `N`, every extent is positive, and the shape spans
    /// exactly the elements of a well-formed storage.
    pub closed spec fn wf(&self) -> bool {
        &&& self.storage.wf()
        &&& self.shape@.len() == N
        &&& self.strides@.len() == N
        &&& extents_positive(self.shape@)
        &&& shape_product(self.shape@) == self.storage.view().len()
    }

    /// Builds a row-major tensor of the given shape over `data`, in storage from `alloc`.
    pub fn from_shape_vec(shape: [usize; N], data: Vec<T>, alloc: A) -> (r: Result<Self, TensorError>)
        ensures
            !extents_positive(shape@) ==> r == Err::<Self, _>(TensorError::ZeroExtent),
            extents_positive(shape@) && shape_product(shape@) != data@.len() ==> r == Err::<
                Self,
                _,
            >(TensorError::ElementCountMismatch),
            extents_positive(shape@) && shape_product(shape@) == data@.len()
                && !array_layout_is_valid::<T>(data@.len()) ==> r == Err::<Self, _>(
                TensorError::Storage(TensorAllocatorError::LayoutError),
            ),
            r is Err ==> r->Err_0 != TensorError::ShapeRankMismatch && r->Err_0
                != TensorError::StridesRankMismatch,
            extents_positive(shape@) && shape_product(shape@) == data@.len()
                && array_layout_is_valid::<T>(data@.len()) && r is Err ==> r->Err_0 is Storage,
            r is Ok ==> r->Ok_0.wf() && r->Ok_0.data_view() == data@ && r->Ok_0.shape_view()
                == shape@ && is_row_major(shape@, r->Ok_0.strides_view()),
    {
        let mut dims: Vec<usize> = Vec::new();
        let mut i: usize = 0;
        while i < N
            invariant
                i <= N,
                shape@.len() == N,
                dims@ == shape@.subrange(0, i as int),
            decreases N - i,
        {
            dims.push(shape[i]);
            i = i + 1;
            assert(dims@ =~= shape@.subrange(0, i as int));
        }
        assert(dims@ =~= shape@);
        let len = data.len();
        if !all_extents_positive(&dims) {
            return Err(TensorError::ZeroExtent);
        }
        let (count, strides) = match row_major_checked(&dims) {
            Some(p) => p,
            None => return Err(TensorError::ElementCountMismatch),
        };
        if count != len {
            return Err(TensorError::ElementCountMismatch);
        }
        match TensorStorage::from_vec(data, alloc) {
            Ok(storage) => Ok(Tensor { storage, shape: dims, strides }),
            Err(e) => Err(TensorError::Storage(e)),
        }
    }

    /// Builds a tensor from its three parts, keeping the given strides as they are.
    /// The shape and the strides must both have length `N`.
    pub fn from_parts(data: Vec<T>, shape: Vec<usize>, strides: Vec<usize>, alloc: A) -> (r:
        Result<Self, TensorError>)
        ensures
            shape@.len() != N ==> r == Err::<Self, _>(TensorError::ShapeRankMismatch),
            shape@.len() == N && strides@.len() != N ==> r == Err::<Self, _>(
                TensorError::StridesRankMismatch,
            ),
            shape@.len() == N && strides@.len() == N && !extents_positive(shape@) ==> r == Err::<
                Self,
                _,
            >(TensorError::ZeroExtent),
            shape@.len() == N && strides@.len() == N && extents_positive(shape@) && shape_product(
                shape@,
            ) != data@.len() ==> r == Err::<Self, _>(TensorError::ElementCountMismatch),
            shape@.len() == N && strides@.len() == N && extents_positive(shape@) && shape_product(
                shape@,
            ) == data@.len() && !array_layout_is_valid::<T>(data@.len()) ==> r == Err::<Self, _>(
                TensorError::Storage(TensorAllocatorError::LayoutError),
            ),
            parts_accepted(data@, shape@, strides@, N as nat) && r is Err ==> r->Err_0 is Storage,
            r is Ok ==> r->Ok_0.wf() && r->Ok_0.data_view() == data@ && r->Ok_0.shape_view()
                == shape@ && r->Ok_0.strides_view() == strides@,
    {
        if shape.len() != N {
            return Err(TensorError::ShapeRankMismatch);
        }
        if strides.len() != N {
            return Err(TensorError::StridesRankMismatch);
        }
        let len = data.len();
        if !all_extents_positive(&shape) {
            return Err(TensorError::ZeroExtent);
        }
        let count = match row_major_checked(&shape) {
            Some(p) => p.0,
            None => return Err(TensorError::ElementCountMismatch),
        };
        if count != len {
            return Err(TensorError::ElementCountMismatch);
        }
        match TensorStorage::from_vec(data, alloc) {
            Ok(storage) => Ok(Tensor { storage, shape, strides }),
            Err(e) => Err(TensorError::Storage(e)),
        }
    }

    /// The extent of each dimension.
    pub fn shape(&self) -> (r: &[usize])
        ensures
            r@ == self.shape_view(),
    {
        self.shape.as_slice()
    }

    /// The element step of each dimension.
    pub fn strides(&self) -> (r: &[usize])
        ensures
            r@ == self.strides_view(),
    {
        self.strides.as_slice()
    }

    /// The element at a multi-index, found through the strides: `None` when an index is
    /// past its extent or the offset falls outside the storage.
    pub fn get(&self, index: [usize; N]) -> (r: Option<T>)
        requires
            self.wf(),
        ensures
            r == (if index_in_shape(index@, self.shape_view()) && offset_upto(
                index@,
                self.strides_view(),
                N as int,
            ) < self.data_view().len() {
                Some(self.data_view()[offset_upto(index@, self.strides_view(), N as int) as int])
            } else {
                None
            }),
    {
        let len = self.storage.len();
        let mut acc: usize = 0;
        let mut k: usize = 0;
        while k < N
            invariant
                k <= N,
                index@.len() == N,
                self.wf(),
                len == self.data_view().len(),
                acc as nat == offset_upto(index@, self.strides@, k as int),
                forall|i: int| 0 <= i < k ==> index@[i] < self.shape@[i],
            decreases N - k,
        {
            if index[k] >= self.shape[k] {
                return None;
            }
            let next = match index[k].checked_mul(self.strides[k]) {
                Some(term) => acc.checked_add(term),
                None => None,
            };
            match next {
                Some(n) => {
                    acc = n;
                },
                None => {
                    proof {
                        lemma_offset_monotone(index@, self.strides@, k + 1, N as int);
                    }
                    return None;
                },
            }
            k = k + 1;
        }
        if acc < len {
            Some(self.storage.as_slice()[acc])
        } else {
            None
        }
    }

    /// Overwrites the element at flat position `i`; shape and strides stay as they were.
    pub fn set(&mut self, i: usize, value: T)
        requires
            old(self).wf(),
            i < old(self).data_view().len(),
        ensures
            final(self).wf(),
            final(self).data_view() == old(self).data_view().update(i as int, value),
            final(self).shape_view() == old(self).shape_view(),
            final(self).strides_view() == old(self).strides_view(),
    {
        self.storage.set(i, value);
    }

    /// The elements in storage order.
    pub fn as_slice(&self) -> (r: &[T])
        ensures
            r@ == self.data_view(),
    {
        self.storage.as_slice()
    }

    /// The number of elements.
    pub fn numel(&self) -> (r: usize)
        ensures
            r == self.data_view().len(),
    {
        self.storage.len()
    }

    /// Gives the storage back to its allocator.
    pub fn release(self) {
        self.storage.release();
    }
}

/// The elements, shape and strides of a well-formed tensor, which are what `serialize`
/// emits, form parts that `from_parts` and `deserialize` accept. By their contracts,
/// deserializing a serialized tensor therefore either rebuilds one with the same
/// elements, shape and strides, or fails with the allocator's `Storage` error.
pub proof fn lemma_round_trip<T: Copy, const N: usize, A: TensorAllocator>(t: &Tensor<T, N, A>)
    requires
        t.wf(),
    ensures
        parts_accepted(t.data_view(), t.shape_view(), t.strides_view(), N as nat),
{
    t.storage.lemma_layout_valid();
}

} // verus!
