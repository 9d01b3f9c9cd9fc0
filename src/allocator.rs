use vstd::prelude::*;

verus! {

/// `n` is a power of two (1, 2, 4, ...).
pub open spec fn is_power_of_two(n: nat) -> bool
    decreases n,
{
    if n == 0 {
        false
    } else if n == 1 {
        true
    } else {
        n % 2 == 0 && is_power_of_two(n / 2)
    }
}

/// A (size, alignment) pair is a usable layout: the alignment is a power of two and the
/// size, rounded up to a multiple of the alignment, still fits in an `isize`.
pub open spec fn layout_is_valid(size: nat, align: nat) -> bool {
    &&& is_power_of_two(align)
    &&& size <= isize::MAX as nat - (isize::MAX as nat % align)
}

fn check_power_of_two(n: usize) -> (r: bool)
    ensures
        r == is_power_of_two(n as nat),
{
    let mut m: usize = n;
    while m > 1 && m % 2 == 0
        invariant
            is_power_of_two(m as nat) == is_power_of_two(n as nat),
        decreases m,
    {
        m = m / 2;
    }
    m == 1
}

/// The size in bytes and the alignment of a memory block.
#[derive(Clone, Copy, Debug, PartialEq, Eq, Structural)]
pub struct TensorLayout {
    size: usize,
    align: usize,
}

impl TensorLayout {
    pub closed spec fn size_spec(&self) -> nat {
        self.size as nat
    }

    pub closed spec fn align_spec(&self) -> nat {
        self.align as nat
    }

    /// Every layout value that exists satisfies the layout rules.
    pub open spec fn wf(&self) -> bool {
        layout_is_valid(self.size_spec(), self.align_spec())
    }

    /// Builds a layout, or fails with `LayoutError` when the pair breaks the layout rules.
    pub fn from_size_align(size: usize, align: usize) -> (r: Result<TensorLayout, TensorAllocatorError>)
        ensures
            layout_is_valid(size as nat, align as nat) <==> r is Ok,
            r is Ok ==> r->Ok_0.wf() && r->Ok_0.size_spec() == size && r->Ok_0.align_spec()
                == align,
            r is Err ==> r->Err_0 == TensorAllocatorError::LayoutError,
    {
        if !check_power_of_two(align) {
            return Err(TensorAllocatorError::LayoutError);
        }
        let max: usize = isize::MAX as usize;
        assert(align > 0);
        assert(max % align <= max) by (nonlinear_arith)
            requires
                align > 0,
        ;
        if size > max - max % align {
            return Err(TensorAllocatorError::LayoutError);
        }
        Ok(TensorLayout { size, align })
    }

    /// The layout of `count` consecutive values of `T`: `count * size_of::<T>()` bytes
    /// aligned as `T`. Fails with `LayoutError` when that byte count breaks the layout rules.
    pub fn for_array<T>(count: usize) -> (r: Result<TensorLayout, TensorAllocatorError>)
        ensures
            r is Ok <==> layout_is_valid(
                (count * vstd::layout::size_of::<T>()) as nat,
                vstd::layout::align_of::<T>(),
            ),
            r is Ok ==> r->Ok_0.wf() && r->Ok_0.size_spec() == count
                * vstd::layout::size_of::<T>() && r->Ok_0.align_spec()
                == vstd::layout::align_of::<T>(),
            r is Err ==> r->Err_0 == TensorAllocatorError::LayoutError,
    {
        vstd::layout::layout_for_type_is_valid::<T>();
        let elem: usize = core::mem::size_of::<T>();
        let align: usize = core::mem::align_of::<T>();
        match count.checked_mul(elem) {
            Some(size) => TensorLayout::from_size_align(size, align),
            None => {
                assert(count * elem > isize::MAX) by (nonlinear_arith)
                    requires
                        count * elem > usize::MAX,
                ;
                Err(TensorAllocatorError::LayoutError)
            },
        }
    }

    pub fn size(&self) -> (r: usize)
        ensures
            r == self.size_spec(),
    {
        self.size
    }

    pub fn align(&self) -> (r: usize)
        ensures
            r == self.align_spec(),
    {
        self.align
    }
}

/// Why an allocator could not hand out a block.
#[derive(Clone, Copy, Debug, PartialEq, Eq, Structural)]
pub enum TensorAllocatorError {
    /// The requested (size, alignment) pair breaks the layout rules.
    LayoutError,
    /// The platform refused the memory.
    InvalidPointer,
}

/// An owned block of memory for values of `T`, which remembers the layout it was
/// allocated with. It starts empty and is filled by `push`; dropping it or handing it
/// back to `TensorAllocator::deallocate` releases the memory once.
pub struct TensorBlock<T> {
    elems: Vec<T>,
    layout: TensorLayout,
}

impl<T> TensorBlock<T> {
    pub closed spec fn view(&self) -> Seq<T> {
        self.elems@
    }

    pub closed spec fn layout_spec(&self) -> TensorLayout {
        self.layout
    }

    pub fn layout(&self) -> (r: TensorLayout)
        ensures
            r == self.layout_spec(),
    {
        self.layout
    }

    pub fn len(&self) -> (r: usize)
        ensures
            r == self.view().len(),
    {
        self.elems.len()
    }

    /// Appends one value; the layout stays as it was.
    pub fn push(&mut self, value: T)
        ensures
            final(self).view() == old(self).view().push(value),
            final(self).layout_spec() == old(self).layout_spec(),
    {
        self.elems.push(value);
    }

    pub fn as_slice(&self) -> (r: &[T])
        ensures
            r@ == self.view(),
    {
        self.elems.as_slice()
    }

    /// Overwrites the value at `i`; the layout stays as it was.
    pub fn set(&mut self, i: usize, value: T)
        requires
            i < old(self).view().len(),
        ensures
            final(self).view() == old(self).view().update(i as int, value),
            final(self).layout_spec() == old(self).layout_spec(),
    {
        self.elems.set(i, value);
    }
}

/// Acquires and releases memory blocks. A handle is cheap to clone: a clone denotes the
/// same allocation authority. Implementations must be usable from several threads.
pub trait TensorAllocator: Clone {
    /// Hands out an empty block for `layout`, or an error.
    fn allocate<T>(&self, layout: TensorLayout) -> (r: Result<TensorBlock<T>, TensorAllocatorError>)
        requires
            layout.wf(),
        ensures
            r is Ok ==> r->Ok_0.layout_spec() == layout && r->Ok_0.view().len() == 0,
    ;

    /// Releases a block; the layout must be the one it was allocated with.
    fn deallocate<T>(&self, block: TensorBlock<T>, layout: TensorLayout)
        requires
            block.layout_spec() == layout,
    ;
}

/// The allocator backed by the process's general-purpose allocator.
#[derive(Clone, Copy, Debug)]
pub struct CpuAllocator;

impl Default for CpuAllocator {
    fn default() -> (r: CpuAllocator)
        ensures
            r == CpuAllocator,
    {
        CpuAllocator
    }
}

impl CpuAllocator {
    /// Reserves room for `layout.size()` bytes of `T` values from the global allocator.
    /// On success the block is empty and has `layout`; the only error is
    /// `InvalidPointer`, when the global allocator refuses.
    pub fn reserve<T>(&self, layout: TensorLayout) -> (r: Result<TensorBlock<T>, TensorAllocatorError>)
        ensures
            r is Ok ==> r->Ok_0.layout_spec() == layout && r->Ok_0.view().len() == 0,
            r is Err ==> r->Err_0 == TensorAllocatorError::InvalidPointer,
    {
        let elem: usize = core::mem::size_of::<T>();
        let count: usize = if elem == 0 {
            0
        } else {
            layout.size() / elem
        };
        let mut elems: Vec<T> = Vec::new();
        match elems.try_reserve(count) {
            Ok(()) => Ok(TensorBlock { elems, layout }),
            Err(_) => Err(TensorAllocatorError::InvalidPointer),
        }
    }
}

impl TensorAllocator for CpuAllocator {
    /// Reserves the block from the global allocator (see `CpuAllocator::reserve`).
    fn allocate<T>(&self, layout: TensorLayout) -> (r: Result<TensorBlock<T>, TensorAllocatorError>) {
        self.reserve(layout)
    }

    /// The block's memory goes back to the global allocator when it is dropped here.
    fn deallocate<T>(&self, block: TensorBlock<T>, layout: TensorLayout) {
    }
}

} // verus!
