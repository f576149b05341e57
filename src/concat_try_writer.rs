use vstd::prelude::*;
use vstd::utf8::encode_utf8;

use crate::fragments::{concat_fragments, text_of};
use crate::into_try_write_fn::IntoTryWriteFn;
use crate::never_error::NeverError;
use crate::write_bytes::WriteBytes;
use crate::write_str::WriteStr;

verus! {

/// Converts what a write function returned into the `Result` of a
/// `ConcatTryWriter`, passing errors on.
///
/// `()` becomes `Ok(())`; a `Result` is kept as it is.
pub trait IntoConcatWriteResult {
    /// The resulting type after conversion.
    type Output;

    /// The result of the conversion.
    spec fn concat_write_result(&self) -> Self::Output;

    /// Performs the conversion with error propagation.
    fn into_concat_write_result(self) -> (r: Self::Output)
        ensures
            r == self.concat_write_result(),
    ;
}

impl IntoConcatWriteResult for () {
    type Output = Result<(), NeverError>;

    open spec fn concat_write_result(&self) -> Result<(), NeverError> {
        Ok(())
    }

    fn into_concat_write_result(self) -> (r: Result<(), NeverError>) {
        Ok(())
    }
}

impl<T, E> IntoConcatWriteResult for Result<T, E> {
    type Output = Result<T, E>;

    open spec fn concat_write_result(&self) -> Result<T, E> {
        *self
    }

    fn into_concat_write_result(self) -> (r: Result<T, E>) {
        self
    }
}

/// A writer that hands the whole formatted text to its write function in one call.
///
/// The write function may return `()` or any `Result<T, E>`; an error is
/// passed on to the caller.
#[derive(Clone, Copy, Debug)]
pub struct ConcatTryWriter<F1> {
    write: F1,
}

impl<F1> ConcatTryWriter<F1> {
    /// The wrapped write object.
    pub closed spec fn inner(&self) -> F1 {
        self.write
    }
}

impl<F1> ConcatTryWriter<F1> where F1: WriteStr {
    /// Creates a new `ConcatTryWriter` from an object that implements `WriteStr`.
    pub fn new(write: F1) -> (r: Self)
        ensures
            r.inner() == write,
    {
        ConcatTryWriter { write }
    }

    /// Creates a new `ConcatTryWriter` with a `WriteStr` wrapper deduced with
    /// `IntoTryWriteFn` from the closure signature and constructed from it.
    pub fn from_closure<F, Ts>(closure: F) -> (r: Self)
        where
            F: IntoTryWriteFn<Ts, TryWriteFn = F1>,
        ensures
            closure.is_try_write_fn_of(r.inner()),
    {
        ConcatTryWriter { write: closure.into_try_write_fn() }
    }
}

impl<F1, Output> WriteStr for ConcatTryWriter<F1> where
    F1: WriteStr,
    F1::Output: IntoConcatWriteResult<Output = Output>,
 {
    type Output = Output;

    open spec fn str_log(&self) -> Seq<Seq<u8>> {
        self.inner().str_log()
    }

    open spec fn str_pre(&self, text: Seq<char>) -> bool {
        self.inner().str_pre(text)
    }

    open spec fn str_post(&self, text: Seq<char>, out: Output) -> bool {
        exists|raw: F1::Output|
            #[trigger] self.inner().str_post(text, raw) && out == raw.concat_write_result()
    }

    fn write_str(&mut self, buf: &str) -> (r: Output) {
        let raw = self.write.write_str(buf);
        assert(old(self).inner().str_post(buf@, raw));
        assert forall|t: Seq<char>, o: Output| #[trigger]
            self.str_post(t, o) == old(self).str_post(t, o) by {
            if self.str_post(t, o) {
                let x = choose|x: F1::Output|
                    #[trigger] self.inner().str_post(t, x) && o == x.concat_write_result();
                assert(old(self).inner().str_post(t, x));
            }
            if old(self).str_post(t, o) {
                let x = choose|x: F1::Output|
                    #[trigger] old(self).inner().str_post(t, x) && o == x.concat_write_result();
                assert(self.inner().str_post(t, x));
            }
        }
        raw.into_concat_write_result()
    }
}

impl<F1, Output> WriteBytes for ConcatTryWriter<F1> where
    F1: WriteBytes,
    F1::Output: IntoConcatWriteResult<Output = Output>,
 {
    type Output = Output;

    open spec fn bytes_log(&self) -> Seq<Seq<u8>> {
        self.inner().bytes_log()
    }

    open spec fn bytes_pre(&self, buf: Seq<u8>) -> bool {
        self.inner().bytes_pre(buf)
    }

    open spec fn bytes_post(&self, buf: Seq<u8>, out: Output) -> bool {
        exists|raw: F1::Output|
            #[trigger] self.inner().bytes_post(buf, raw) && out == raw.concat_write_result()
    }

    fn write_bytes(&mut self, buf: &[u8]) -> (r: Output) {
        let raw = self.write.write_bytes(buf);
        assert(old(self).inner().bytes_post(buf@, raw));
        assert forall|b: Seq<u8>, o: Output| #[trigger]
            self.bytes_post(b, o) == old(self).bytes_post(b, o) by {
            if self.bytes_post(b, o) {
                let x = choose|x: F1::Output|
                    #[trigger] self.inner().bytes_post(b, x) && o == x.concat_write_result();
                assert(old(self).inner().bytes_post(b, x));
            }
            if old(self).bytes_post(b, o) {
                let x = choose|x: F1::Output|
                    #[trigger] old(self).inner().bytes_post(b, x) && o == x.concat_write_result();
                assert(self.inner().bytes_post(b, x));
            }
        }
        raw.into_concat_write_result()
    }
}

impl<F1, Output> ConcatTryWriter<F1> where
    F1: WriteStr,
    F1::Output: IntoConcatWriteResult<Output = Output>,
 {
    /// Writes formatted text, given as the formatter's fragments, with one
    /// call of the write function that gets their concatenation, and returns
    /// the converted result of that call.
    pub fn write_fmt(&mut self, fragments: &[&str]) -> (r: Output)
        requires
            old(self).str_pre(text_of(fragments@)),
        ensures
            old(self).str_post(text_of(fragments@), r),
            final(self).str_log() == old(self).str_log().push(encode_utf8(text_of(fragments@))),
    {
        let text = concat_fragments(fragments);
        self.write_str(text.as_str())
    }
}

} // verus!
