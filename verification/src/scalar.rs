//! The element types of matrices.

use vstd::prelude::*;

verus! {

/// An element type that routines exist for.
pub trait Scalar: Copy + Default {
    /// The workspace size that a routine reported as a value of this type.
    fn as_work(self) -> usize;
}

impl Scalar for i8 {
    fn as_work(self) -> (len: usize)
        ensures
            len == self as usize,
    {
        #[verifier::truncate]
        (self as usize)
    }
}

impl Scalar for i32 {
    fn as_work(self) -> (len: usize)
        ensures
            len == self as usize,
    {
        #[verifier::truncate]
        (self as usize)
    }
}

} // verus!
