use vstd::prelude::*;

use crate::allocator::{layout_is_valid, TensorAllocator, TensorAllocatorError, TensorBlock, TensorLayout};

verus! {

/// The layout rules hold for an array of `count` values of `T`.
pub open spec fn array_layout_is_valid<T>(count: nat) -> bool {
    layout_is_valid(count * vstd::layout::size_of::<T>(), vstd::layout::align_of::<T>())
}

/// A contiguous run of values of `T` in one block obtained from an allocator, together
/// with that allocator. The block's layout is the array layout of its values.
pub struct TensorStorage<T, A: TensorAllocator> {
    block: TensorBlock<T>,
    alloc: A,
}

impl<T: Copy, A: TensorAllocator> TensorStorage<T, A> {
    pub closed spec fn view(&self) -> Seq<T> {
        self.block.view()
    }

    /// The layout the block was allocated with.
    pub closed spec fn layout_spec(&self) -> TensorLayout {
        self.block.layout_spec()
    }

    /// The byte size and alignment recorded for the block are those of the values held.
    pub closed spec fn wf(&self) -> bool {
        &&& self.layout_spec().wf()
        &&& self.layout_spec().size_spec() == self.view().len() * vstd::layout::size_of::<T>()
        &&& self.layout_spec().align_spec() == vstd::layout::align_of::<T>()
    }

    /// Moves `data` into a fresh block from `alloc`. Fails with `LayoutError` when the
    /// array layout of `data` breaks the layout rules, and otherwise only when the
    /// allocator refuses.
    pub fn from_vec(data: Vec<T>, alloc: A) -> (r: Result<Self, TensorAllocatorError>)
        ensures
            !array_layout_is_valid::<T>(data@.len()) ==> r == Err::<Self, _>(
                TensorAllocatorError::LayoutError,
            ),
            r is Ok ==> r->Ok_0.wf() && r->Ok_0.view() == data@,
    {
        let layout = match TensorLayout::for_array::<T>(data.len()) {
            Ok(l) => l,
            Err(e) => return Err(e),
        };
        let mut block: TensorBlock<T> = match alloc.allocate(layout) {
            Ok(b) => b,
            Err(e) => return Err(e),
        };
        let mut i: usize = 0;
        while i < data.len()
            invariant
                i <= data@.len(),
                block.view() == data@.subrange(0, i as int),
                block.layout_spec() == layout,
            decreases data@.len() - i,
        {
            block.push(data[i]);
            i = i + 1;
            assert(block.view() =~= data@.subrange(0, i as int));
        }
        assert(block.view() =~= data@);
        Ok(TensorStorage { block, alloc })
    }

    pub fn len(&self) -> (r: usize)
        ensures
            r == self.view().len(),
    {
        self.block.len()
    }

    /// The values, read-only.
    pub fn as_slice(&self) -> (r: &[T])
        ensures
            r@ == self.view(),
    {
        self.block.as_slice()
    }

    /// Overwrites the value at `i`.
    pub fn set(&mut self, i: usize, value: T)
        requires
            old(self).wf(),
            i < old(self).view().len(),
        ensures
            final(self).wf(),
            final(self).view() == old(self).view().update(i as int, value),
    {
        self.block.set(i, value);
    }

    pub fn layout(&self) -> (r: TensorLayout)
        ensures
            r == self.layout_spec(),
    {
        self.block.layout()
    }

    /// The values of a well-formed storage have a valid array layout.
    pub proof fn lemma_layout_valid(&self)
        requires
            self.wf(),
        ensures
            array_layout_is_valid::<T>(self.view().len()),
    {
    }

    /// Hands the block back to the allocator that produced it, with the layout it was
    /// allocated with. Consuming the storage makes a second release impossible.
    pub fn release(self) {
        let TensorStorage { block, alloc } = self;
        let layout = block.layout();
        alloc.deallocate(block, layout);
    }
}

} // verus!
