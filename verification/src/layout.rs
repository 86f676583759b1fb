use vstd::prelude::*;

verus! {

/// A size-and-alignment specification for a memory request.
///
/// A `Descriptor` is supplied when an allocation is requested and must be
/// supplied again, equal field for field, when that allocation is returned.
#[derive(Clone, Copy, Debug, PartialEq, Eq, Structural)]
pub struct Descriptor {
    /// Requested size in bytes.
    pub size: usize,
    /// Requested alignment in bytes.
    pub align: usize,
}

/// The descriptor of a single value of type `T`: the size and alignment
/// of `T` as the compiler lays it out.
pub open spec fn descriptor_of<T>() -> Descriptor {
    Descriptor {
        size: vstd::layout::size_of::<T>() as usize,
        align: vstd::layout::align_of::<T>() as usize,
    }
}

impl Descriptor {
    /// Computes the descriptor of a single value of type `T`.
    pub fn of<T>() -> (r: Descriptor)
        ensures
            r == descriptor_of::<T>(),
    {
        Descriptor { size: core::mem::size_of::<T>(), align: core::mem::align_of::<T>() }
    }
}

} // verus!
