//! What a caller's vector type has to offer to be handed to a routine.

use vstd::prelude::*;

verus! {

/// A strided vector in a flat buffer.
pub trait Vector<T> {
    /// The stride: with 7, every seventh element of the buffer is used.
    spec fn spec_inc(&self) -> i32;

    /// The number of elements.
    spec fn spec_len(&self) -> i32;

    /// The buffer.
    spec fn view(&self) -> Seq<T>;

    /// The stride.
    #[verifier::when_used_as_spec(spec_inc)]
    fn inc(&self) -> (k: i32)
        ensures
            k == self.spec_inc(),
    ;

    /// The number of elements.
    #[verifier::when_used_as_spec(spec_len)]
    fn len(&self) -> (n: i32)
        ensures
            n == self.spec_len(),
    ;

    /// The buffer, to read.
    fn as_ptr(&self) -> (s: &[T])
        ensures
            s@ == self@,
    ;

    /// The buffer, to write. Stride and length stay as they are.
    fn as_mut_ptr(&mut self) -> (s: &mut [T])
        ensures
            s@ == old(self)@,
            final(self)@ == final(s)@,
            final(self).inc() == old(self).inc(),
            final(self).len() == old(self).len(),
    ;
}

/// A vector that owns its buffer.
#[derive(Debug)]
pub struct Strided<T> {
    pub inc: i32,
    pub len: i32,
    pub data: Vec<T>,
}

impl<T> Vector<T> for Strided<T> {
    open spec fn spec_inc(&self) -> i32 {
        self.inc
    }

    open spec fn spec_len(&self) -> i32 {
        self.len
    }

    open spec fn view(&self) -> Seq<T> {
        self.data@
    }

    fn inc(&self) -> (k: i32) {
        self.inc
    }

    fn len(&self) -> (n: i32) {
        self.len
    }

    fn as_ptr(&self) -> (s: &[T]) {
        self.data.as_slice()
    }

    fn as_mut_ptr(&mut self) -> (s: &mut [T]) {
        self.data.as_mut_slice()
    }
}

} // verus!
