//! Errors, and the status code that every routine reports.

use vstd::prelude::*;

verus! {

/// Why a routine did not produce a result.
#[derive(Copy, Clone, Debug, PartialEq, Eq, Structural)]
pub enum Error {
    /// The shapes of the arguments do not fit the routine.
    DimensionMismatch,
    /// The routine rejected the argument at this position, counted from 1.
    IllegalParameter(usize),
    /// The computation broke down at this index, counted from 1.
    DiagonalElementZero(usize),
}

impl Error {
    /// The error that a status code stands for: none for zero, the rejected
    /// argument's position for a negative code, the index of the breakdown
    /// for a positive one.
    pub open spec fn of_info(info: i32) -> Option<Error> {
        if info == 0 {
            None
        } else if info < 0 {
            Some(Error::IllegalParameter((-info) as usize))
        } else {
            Some(Error::DiagonalElementZero(info as usize))
        }
    }

    /// Decodes the status code of a routine.
    pub fn from_info(info: i32) -> (e: Option<Error>)
        ensures
            e == Error::of_info(info),
    {
        if info == 0 {
            None
        } else if info < 0 {
            let position: i64 = -(info as i64);
            Some(Error::IllegalParameter(position as usize))
        } else {
            Some(Error::DiagonalElementZero(info as usize))
        }
    }
}

/// What a routine returns once it has reported `info`: `value` on success,
/// the decoded error otherwise.
pub open spec fn outcome<V>(info: i32, value: V) -> Result<V, Error> {
    match Error::of_info(info) {
        None => Ok(value),
        Some(e) => Err(e),
    }
}

/// Turns the status code and the output of a routine into its result.
pub fn finish<V>(info: i32, value: V) -> (r: Result<V, Error>)
    ensures
        r == outcome(info, value),
{
    match Error::from_info(info) {
        None => Ok(value),
        Some(e) => Err(e),
    }
}

} // verus!
