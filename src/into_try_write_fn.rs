use vstd::prelude::*;

use crate::write_bytes::WriteBytes;
use crate::write_fns::{WriteBytesFn, WriteStrFn, WriteStringFn};
use crate::write_str::WriteStr;

verus! {

/// Infers the fallible write wrapper of a closure from the shape of its parameters.
///
/// `Ts` is the tuple of parameter types: `(&[u8],)`, `(&str,)` or `(String,)`.
/// Used by the propagating writers `FmtTryWriter`, `ConcatTryWriter` and `IoTryWriter`.
pub trait IntoTryWriteFn<Ts> {
    /// The corresponding fallible write function wrapper.
    type TryWriteFn;

    /// Whether `w` is a fresh wrapper around this closure.
    spec fn is_try_write_fn_of(&self, w: Self::TryWriteFn) -> bool;

    /// Returns the wrapped function.
    fn into_try_write_fn(self) -> (r: Self::TryWriteFn)
        ensures
            self.is_try_write_fn_of(r),
    ;
}

impl<F, R> IntoTryWriteFn<(&[u8],)> for F where F: FnMut(&[u8]) -> R {
    type TryWriteFn = WriteBytesFn<F, R>;

    open spec fn is_try_write_fn_of(&self, w: WriteBytesFn<F, R>) -> bool {
        w.closure() == *self && w.bytes_log() == Seq::<Seq<u8>>::empty()
    }

    fn into_try_write_fn(self) -> (r: WriteBytesFn<F, R>) {
        WriteBytesFn::new(self)
    }
}

impl<F, R> IntoTryWriteFn<(&str,)> for F where F: FnMut(&str) -> R {
    type TryWriteFn = WriteStrFn<F, R>;

    open spec fn is_try_write_fn_of(&self, w: WriteStrFn<F, R>) -> bool {
        w.closure() == *self && w.str_log() == Seq::<Seq<u8>>::empty()
    }

    fn into_try_write_fn(self) -> (r: WriteStrFn<F, R>) {
        WriteStrFn::new(self)
    }
}

impl<F, R> IntoTryWriteFn<(String,)> for F where F: FnMut(String) -> R {
    type TryWriteFn = WriteStringFn<F, R>;

    open spec fn is_try_write_fn_of(&self, w: WriteStringFn<F, R>) -> bool {
        w.closure() == *self && w.str_log() == Seq::<Seq<u8>>::empty()
    }

    fn into_try_write_fn(self) -> (r: WriteStringFn<F, R>) {
        WriteStringFn::new(self)
    }
}

} // verus!
