//! Flags that LAPACK routines take as single characters.

use vstd::prelude::*;

verus! {

/// How a dense matrix is laid out in its flat buffer.
#[derive(Copy, Clone, Debug, PartialEq, Eq, Structural)]
pub enum Order {
    RowMajor,
    ColMajor,
}

/// What a routine is asked to compute of an optional output.
#[derive(Copy, Clone, Debug, PartialEq, Eq, Structural)]
pub enum Compute {
    Nothing,
    Value,
    All,
    Partial,
    OverwritePartial,
}

impl Compute {
    /// The job character of `self`.
    pub open spec fn code(self) -> i8 {
        match self {
            Compute::Nothing => 'N' as i8,
            Compute::Value => 'V' as i8,
            Compute::All => 'A' as i8,
            Compute::Partial => 'S' as i8,
            Compute::OverwritePartial => 'O' as i8,
        }
    }

    /// The job character of `self`, as a routine takes it.
    pub fn as_i8(self) -> (c: i8)
        ensures
            c == self.code(),
    {
        match self {
            Compute::Nothing => 78,
            Compute::Value => 86,
            Compute::All => 65,
            Compute::Partial => 83,
            Compute::OverwritePartial => 79,
        }
    }
}

/// Which triangle of a symmetric matrix is stored.
#[derive(Copy, Clone, Debug, PartialEq, Eq, Structural)]
pub enum Symmetry {
    Upper,
    Lower,
}

impl Symmetry {
    /// The triangle character of `self`.
    pub open spec fn code(self) -> i8 {
        match self {
            Symmetry::Upper => 'U' as i8,
            Symmetry::Lower => 'L' as i8,
        }
    }

    /// The triangle character of `self`, as a routine takes it.
    pub fn as_i8(self) -> (c: i8)
        ensures
            c == self.code(),
    {
        match self {
            Symmetry::Upper => 85,
            Symmetry::Lower => 76,
        }
    }
}

/// Whether a routine works on a matrix or on its conjugate transpose.
#[derive(Copy, Clone, Debug, PartialEq, Eq, Structural)]
pub enum Transpose {
    NoTrans,
    Conjugate,
}

impl Transpose {
    /// The transposition character of `self`.
    pub open spec fn code(self) -> i8 {
        match self {
            Transpose::NoTrans => 'N' as i8,
            Transpose::Conjugate => 'C' as i8,
        }
    }

    /// The transposition character of `self`, as a routine takes it.
    pub fn as_i8(&self) -> (c: i8)
        ensures
            c == self.code(),
    {
        match self {
            Transpose::NoTrans => 78,
            Transpose::Conjugate => 67,
        }
    }
}

} // verus!
