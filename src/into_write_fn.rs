use vstd::prelude::*;

use crate::write_bytes::WriteBytes;
use crate::write_fns::{WriteBytesFn, WriteStrFn, WriteStringFn};
use crate::write_str::WriteStr;

verus! {

/// Infers the write wrapper of a closure from the shape of its parameters.
///
/// `Ts` is the tuple of parameter types: `(&[u8],)`, `(&str,)` or `(String,)`.
/// Used by the fail-fast writers `FmtWriter`, `ConcatWriter` and `IoWriter`.
pub trait IntoWriteFn<Ts> {
    /// The corresponding write function wrapper.
    type WriteFn;

    /// Whether `w` is a fresh wrapper around this closure.
    spec fn is_write_fn_of(&self, w: Self::WriteFn) -> bool;

    /// Returns the wrapped function.
    fn into_write_fn(self) -> (r: Self::WriteFn)
        ensures
            self.is_write_fn_of(r),
    ;
}

impl<F, R> IntoWriteFn<(&[u8],)> for F where F: FnMut(&[u8]) -> R {
    type WriteFn = WriteBytesFn<F, R>;

    open spec fn is_write_fn_of(&self, w: WriteBytesFn<F, R>) -> bool {
        w.closure() == *self && w.bytes_log() == Seq::<Seq<u8>>::empty()
    }

    fn into_write_fn(self) -> (r: WriteBytesFn<F, R>) {
        WriteBytesFn::new(self)
    }
}

impl<F, R> IntoWriteFn<(&str,)> for F where F: FnMut(&str) -> R {
    type WriteFn = WriteStrFn<F, R>;

    open spec fn is_write_fn_of(&self, w: WriteStrFn<F, R>) -> bool {
        w.closure() == *self && w.str_log() == Seq::<Seq<u8>>::empty()
    }

    fn into_write_fn(self) -> (r: WriteStrFn<F, R>) {
        WriteStrFn::new(self)
    }
}

impl<F, R> IntoWriteFn<(String,)> for F where F: FnMut(String) -> R {
    type WriteFn = WriteStringFn<F, R>;

    open spec fn is_write_fn_of(&self, w: WriteStringFn<F, R>) -> bool {
        w.closure() == *self && w.str_log() == Seq::<Seq<u8>>::empty()
    }

    fn into_write_fn(self) -> (r: WriteStringFn<F, R>) {
        WriteStringFn::new(self)
    }
}

} // verus!
