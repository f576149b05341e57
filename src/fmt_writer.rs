use vstd::prelude::*;
use vstd::utf8::encode_utf8;

use crate::fragments::encoded;
use crate::into_write_fn::IntoWriteFn;
use crate::write_bytes::WriteBytes;
use crate::write_str::WriteStr;

verus! {

/// Converts what a write function returned into a `fmt::Result` that is
/// always `Ok(())`.
///
/// An error would stop the writer, so the conversion is only allowed on
/// `()` or `Ok(())`.
pub trait ExpectFmtWriteResult {
    /// Whether the value is a success.
    spec fn is_fmt_write_success(&self) -> bool;

    /// Performs the conversion of a success.
    fn expect_fmt_write_result(self) -> (r: Result<(), core::fmt::Error>)
        requires
            self.is_fmt_write_success(),
        ensures
            r is Ok,
    ;
}

impl ExpectFmtWriteResult for () {
    open spec fn is_fmt_write_success(&self) -> bool {
        true
    }

    fn expect_fmt_write_result(self) -> (r: Result<(), core::fmt::Error>) {
        Ok(())
    }
}

impl<E> ExpectFmtWriteResult for Result<(), E> {
    open spec fn is_fmt_write_success(&self) -> bool {
        self is Ok
    }

    fn expect_fmt_write_result(self) -> (r: Result<(), core::fmt::Error>) {
        self.ok().expect("failed writing");
        Ok(())
    }
}

/// A writer that calls its write function once for each fragment that the
/// formatter produces, with no buffer in between.
///
/// The write function may return `()` or `Result<(), E>` for any `E`. The
/// writer never returns an error: it is only used where the write function
/// cannot fail on the fragments, as a failure would stop the program.
#[derive(Clone, Copy, Debug)]
pub struct FmtWriter<F1> {
    write: F1,
}

impl<F1> FmtWriter<F1> {
    /// The wrapped write object.
    pub closed spec fn inner(&self) -> F1 {
        self.write
    }
}

impl<F1> FmtWriter<F1> where F1: WriteStr {
    /// Creates a new `FmtWriter` from an object that implements `WriteStr`.
    pub fn new(write: F1) -> (r: Self)
        ensures
            r.inner() == write,
    {
        FmtWriter { write }
    }

    /// Creates a new `FmtWriter` with a `WriteStr` wrapper deduced with
    /// `IntoWriteFn` from the closure signature and constructed from it.
    pub fn from_closure<F, Ts>(closure: F) -> (r: Self)
        where
            F: IntoWriteFn<Ts, WriteFn = F1>,
        ensures
            closure.is_write_fn_of(r.inner()),
    {
        FmtWriter { write: closure.into_write_fn() }
    }
}

impl<F1> WriteStr for FmtWriter<F1> where F1: WriteStr, F1::Output: ExpectFmtWriteResult {
    type Output = Result<(), core::fmt::Error>;

    open spec fn str_log(&self) -> Seq<Seq<u8>> {
        self.inner().str_log()
    }

    open spec fn str_pre(&self, text: Seq<char>) -> bool {
        &&& self.inner().str_pre(text)
        &&& forall|raw: F1::Output| #[trigger]
            self.inner().str_post(text, raw) ==> raw.is_fmt_write_success()
    }

    open spec fn str_post(&self, text: Seq<char>, out: Result<(), core::fmt::Error>) -> bool {
        &&& out is Ok
        &&& exists|raw: F1::Output| #[trigger] self.inner().str_post(text, raw)
    }

    fn write_str(&mut self, buf: &str) -> (r: Result<(), core::fmt::Error>) {
        let raw = self.write.write_str(buf);
        assert(old(self).inner().str_post(buf@, raw));
        assert forall|t: Seq<char>| #[trigger] self.str_pre(t) == old(self).str_pre(t) by {
            if old(self).str_pre(t) {
                assert forall|x: F1::Output| #[trigger]
                    self.inner().str_post(t, x) implies x.is_fmt_write_success() by {
                    assert(old(self).inner().str_post(t, x));
                }
            }
            if self.str_pre(t) {
                assert forall|x: F1::Output| #[trigger]
                    old(self).inner().str_post(t, x) implies x.is_fmt_write_success() by {
                    assert(self.inner().str_post(t, x));
                }
            }
        }
        assert forall|t: Seq<char>, o: Result<(), core::fmt::Error>| #[trigger]
            self.str_post(t, o) == old(self).str_post(t, o) by {
            if self.str_post(t, o) {
                let x = choose|x: F1::Output| #[trigger] self.inner().str_post(t, x);
                assert(old(self).inner().str_post(t, x));
            }
            if old(self).str_post(t, o) {
                let x = choose|x: F1::Output| #[trigger] old(self).inner().str_post(t, x);
                assert(self.inner().str_post(t, x));
            }
        }
        raw.expect_fmt_write_result()
    }
}

impl<F1> WriteBytes for FmtWriter<F1> where F1: WriteBytes, F1::Output: ExpectFmtWriteResult {
    type Output = Result<(), core::fmt::Error>;

    open spec fn bytes_log(&self) -> Seq<Seq<u8>> {
        self.inner().bytes_log()
    }

    open spec fn bytes_pre(&self, buf: Seq<u8>) -> bool {
        &&& self.inner().bytes_pre(buf)
        &&& forall|raw: F1::Output| #[trigger]
            self.inner().bytes_post(buf, raw) ==> raw.is_fmt_write_success()
    }

    open spec fn bytes_post(&self, buf: Seq<u8>, out: Result<(), core::fmt::Error>) -> bool {
        &&& out is Ok
        &&& exists|raw: F1::Output| #[trigger] self.inner().bytes_post(buf, raw)
    }

    fn write_bytes(&mut self, buf: &[u8]) -> (r: Result<(), core::fmt::Error>) {
        let raw = self.write.write_bytes(buf);
        assert(old(self).inner().bytes_post(buf@, raw));
        assert forall|b: Seq<u8>| #[trigger] self.bytes_pre(b) == old(self).bytes_pre(b) by {
            if old(self).bytes_pre(b) {
                assert forall|x: F1::Output| #[trigger]
                    self.inner().bytes_post(b, x) implies x.is_fmt_write_success() by {
                    assert(old(self).inner().bytes_post(b, x));
                }
            }
            if self.bytes_pre(b) {
                assert forall|x: F1::Output| #[trigger]
                    old(self).inner().bytes_post(b, x) implies x.is_fmt_write_success() by {
                    assert(self.inner().bytes_post(b, x));
                }
            }
        }
        assert forall|b: Seq<u8>, o: Result<(), core::fmt::Error>| #[trigger]
            self.bytes_post(b, o) == old(self).bytes_post(b, o) by {
            if self.bytes_post(b, o) {
                let x = choose|x: F1::Output| #[trigger] self.inner().bytes_post(b, x);
                assert(old(self).inner().bytes_post(b, x));
            }
            if old(self).bytes_post(b, o) {
                let x = choose|x: F1::Output| #[trigger] old(self).inner().bytes_post(b, x);
                assert(self.inner().bytes_post(b, x));
            }
        }
        raw.expect_fmt_write_result()
    }
}

impl<F1> FmtWriter<F1> where F1: WriteStr, F1::Output: ExpectFmtWriteResult {
    /// Writes formatted text, given as the formatter's fragments: one call of
    /// the write function per fragment, in order. It always succeeds.
    pub fn write_fmt(&mut self, fragments: &[&str]) -> (r: Result<(), core::fmt::Error>)
        requires
            forall|i: int| 0 <= i < fragments@.len() ==> old(self).str_pre(#[trigger] fragments@[i]@),
        ensures
            r is Ok,
            final(self).str_log() == old(self).str_log() + encoded(fragments@),
    {
        let mut i: usize = 0;
        while i < fragments.len()
            invariant
                0 <= i <= fragments@.len(),
                forall|j: int| 0 <= j < fragments@.len() ==> old(self).str_pre(#[trigger] fragments@[j]@),
                self.str_log() == old(self).str_log() + encoded(fragments@.take(i as int)),
                forall|t: Seq<char>| #[trigger] self.str_pre(t) == old(self).str_pre(t),
            decreases fragments@.len() - i,
        {
            let fragment: &str = fragments[i];
            let _ = self.write_str(fragment);
            assert(encoded(fragments@.take(i as int + 1)) =~= encoded(fragments@.take(i as int)).push(
                encode_utf8(fragment@),
            ));
            i = i + 1;
        }
        assert(fragments@.take(i as int) =~= fragments@);
        Ok(())
    }
}

} // verus!
