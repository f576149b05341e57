use vstd::prelude::*;
use vstd::utf8::encode_utf8;

use crate::fragments::{concat_fragments, text_of};
use crate::into_write_fn::IntoWriteFn;
use crate::never_error::NeverError;
use crate::write_bytes::WriteBytes;
use crate::write_str::WriteStr;

verus! {

/// Converts what a write function returned into the `Result` of a
/// `ConcatWriter`, which never holds an error.
///
/// `()` becomes `Ok(())` and `Ok(v)` becomes `Ok(v)`. An error would stop the
/// writer, so the conversion is only allowed on a success.
pub trait ExpectConcatWriteResult {
    /// The resulting type after conversion.
    type Output;

    /// Whether the value is a success.
    spec fn is_concat_success(&self) -> bool;

    /// The result of the conversion of a success.
    spec fn expect_concat_write_result_of(&self) -> Self::Output;

    /// Performs the conversion of a success.
    fn expect_concat_write_result(self) -> (r: Self::Output)
        requires
            self.is_concat_success(),
        ensures
            r == self.expect_concat_write_result_of(),
    ;
}

impl ExpectConcatWriteResult for () {
    type Output = Result<(), NeverError>;

    open spec fn is_concat_success(&self) -> bool {
        true
    }

    open spec fn expect_concat_write_result_of(&self) -> Result<(), NeverError> {
        Ok(())
    }

    fn expect_concat_write_result(self) -> (r: Result<(), NeverError>) {
        Ok(())
    }
}

impl<T, E> ExpectConcatWriteResult for Result<T, E> {
    type Output = Result<T, NeverError>;

    open spec fn is_concat_success(&self) -> bool {
        self is Ok
    }

    open spec fn expect_concat_write_result_of(&self) -> Result<T, NeverError> {
        Ok(self->Ok_0)
    }

    fn expect_concat_write_result(self) -> (r: Result<T, NeverError>) {
        Ok(self.ok().expect("failed writing"))
    }
}

/// A writer that hands the whole formatted text to its write function in one call.
///
/// The write function may return `()` or any `Result<T, E>`. The writer
/// never returns an error: it is only used where the write function cannot
/// fail on the text, as a failure would stop the program.
#[derive(Clone, Copy, Debug)]
pub struct ConcatWriter<F1> {
    write: F1,
}

impl<F1> ConcatWriter<F1> {
    /// The wrapped write object.
    pub closed spec fn inner(&self) -> F1 {
        self.write
    }
}

impl<F1> ConcatWriter<F1> where F1: WriteStr {
    /// Creates a new `ConcatWriter` from an object that implements `WriteStr`.
    pub fn new(write: F1) -> (r: Self)
        ensures
            r.inner() == write,
    {
        ConcatWriter { write }
    }

    /// Creates a new `ConcatWriter` with a `WriteStr` wrapper deduced with
    /// `IntoWriteFn` from the closure signature and constructed from it.
    pub fn from_closure<F, Ts>(closure: F) -> (r: Self)
        where
            F: IntoWriteFn<Ts, WriteFn = F1>,
        ensures
            closure.is_write_fn_of(r.inner()),
    {
        ConcatWriter { write: closure.into_write_fn() }
    }
}

impl<F1, Output> WriteStr for ConcatWriter<F1> where
    F1: WriteStr,
    F1::Output: ExpectConcatWriteResult<Output = Output>,
 {
    type Output = Output;

    open spec fn str_log(&self) -> Seq<Seq<u8>> {
        self.inner().str_log()
    }

    open spec fn str_pre(&self, text: Seq<char>) -> bool {
        &&& self.inner().str_pre(text)
        &&& forall|raw: F1::Output| #[trigger]
            self.inner().str_post(text, raw) ==> raw.is_concat_success()
    }

    open spec fn str_post(&self, text: Seq<char>, out: Output) -> bool {
        exists|raw: F1::Output|
            #[trigger] self.inner().str_post(text, raw) && out == raw.expect_concat_write_result_of()
    }

    fn write_str(&mut self, buf: &str) -> (r: Output) {
        let raw = self.write.write_str(buf);
        assert(old(self).inner().str_post(buf@, raw));
        assert forall|t: Seq<char>| #[trigger] self.str_pre(t) == old(self).str_pre(t) by {
            if old(self).str_pre(t) {
                assert forall|x: F1::Output| #[trigger]
                    self.inner().str_post(t, x) implies x.is_concat_success() by {
                    assert(old(self).inner().str_post(t, x));
                }
            }
            if self.str_pre(t) {
                assert forall|x: F1::Output| #[trigger]
                    old(self).inner().str_post(t, x) implies x.is_concat_success() by {
                    assert(self.inner().str_post(t, x));
                }
            }
        }
        assert forall|t: Seq<char>, o: Output| #[trigger]
            self.str_post(t, o) == old(self).str_post(t, o) by {
            if self.str_post(t, o) {
                let x = choose|x: F1::Output|
                    #[trigger] self.inner().str_post(t, x) && o == x.expect_concat_write_result_of();
                assert(old(self).inner().str_post(t, x));
            }
            if old(self).str_post(t, o) {
                let x = choose|x: F1::Output|
                    #[trigger] old(self).inner().str_post(t, x) && o == x.expect_concat_write_result_of();
                assert(self.inner().str_post(t, x));
            }
        }
        raw.expect_concat_write_result()
    }
}

impl<F1, Output> WriteBytes for ConcatWriter<F1> where
    F1: WriteBytes,
    F1::Output: ExpectConcatWriteResult<Output = Output>,
 {
    type Output = Output;

    open spec fn bytes_log(&self) -> Seq<Seq<u8>> {
        self.inner().bytes_log()
    }

    open spec fn bytes_pre(&self, buf: Seq<u8>) -> bool {
        &&& self.inner().bytes_pre(buf)
        &&& forall|raw: F1::Output| #[trigger]
            self.inner().bytes_post(buf, raw) ==> raw.is_concat_success()
    }

    open spec fn bytes_post(&self, buf: Seq<u8>, out: Output) -> bool {
        exists|raw: F1::Output|
            #[trigger] self.inner().bytes_post(buf, raw) && out == raw.expect_concat_write_result_of()
    }

    fn write_bytes(&mut self, buf: &[u8]) -> (r: Output) {
        let raw = self.write.write_bytes(buf);
        assert(old(self).inner().bytes_post(buf@, raw));
        assert forall|b: Seq<u8>| #[trigger] self.bytes_pre(b) == old(self).bytes_pre(b) by {
            if old(self).bytes_pre(b) {
                assert forall|x: F1::Output| #[trigger]
                    self.inner().bytes_post(b, x) implies x.is_concat_success() by {
                    assert(old(self).inner().bytes_post(b, x));
                }
            }
            if self.bytes_pre(b) {
                assert forall|x: F1::Output| #[trigger]
                    old(self).inner().bytes_post(b, x) implies x.is_concat_success() by {
                    assert(self.inner().bytes_post(b, x));
                }
            }
        }
        assert forall|b: Seq<u8>, o: Output| #[trigger]
            self.bytes_post(b, o) == old(self).bytes_post(b, o) by {
            if self.bytes_post(b, o) {
                let x = choose|x: F1::Output|
                    #[trigger] self.inner().bytes_post(b, x) && o == x.expect_concat_write_result_of();
                assert(old(self).inner().bytes_post(b, x));
            }
            if old(self).bytes_post(b, o) {
                let x = choose|x: F1::Output|
                    #[trigger] old(self).inner().bytes_post(b, x) && o == x.expect_concat_write_result_of();
                assert(self.inner().bytes_post(b, x));
            }
        }
        raw.expect_concat_write_result()
    }
}

impl<F1, Output> ConcatWriter<F1> where
    F1: WriteStr,
    F1::Output: ExpectConcatWriteResult<Output = Output>,
 {
    /// Writes formatted text, given as the formatter's fragments, with one
    /// call of the write function that gets their concatenation, and returns
    /// the converted result of that call, which is a success.
    pub fn write_fmt(&mut self, fragments: &[&str]) -> (r: Output)
        requires
            old(self).str_pre(text_of(fragments@)),
        ensures
            old(self).str_post(text_of(fragments@), r),
            final(self).str_log() == old(self).str_log().push(encode_utf8(text_of(fragments@))),
    {
        let text = concat_fragments(fragments);
        self.write_str(text.as_str())
    }
}

} // verus!
