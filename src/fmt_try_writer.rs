use vstd::prelude::*;
use vstd::utf8::encode_utf8;

use crate::fragments::encoded;
use crate::into_try_write_fn::IntoTryWriteFn;
use crate::std_errors::fmt_error;
use crate::write_bytes::WriteBytes;
use crate::write_str::WriteStr;

verus! {

/// Converts what a write function returned into a `fmt::Result`, passing
/// errors on.
///
/// `()` and `Ok(())` become `Ok(())`; an `Err` of any type becomes
/// `Err(fmt::Error)`, which carries no payload, so the write function's own error is dropped.
pub trait IntoFmtWriteResult {
    /// Whether the value is a success.
    spec fn is_fmt_success(&self) -> bool;

    /// Performs the conversion with error propagation.
    fn into_fmt_write_result(self) -> (r: Result<(), core::fmt::Error>)
        ensures
            r is Ok <==> self.is_fmt_success(),
    ;
}

impl IntoFmtWriteResult for () {
    open spec fn is_fmt_success(&self) -> bool {
        true
    }

    fn into_fmt_write_result(self) -> (r: Result<(), core::fmt::Error>) {
        Ok(())
    }
}

impl<E> IntoFmtWriteResult for Result<(), E> {
    open spec fn is_fmt_success(&self) -> bool {
        self is Ok
    }

    fn into_fmt_write_result(self) -> (r: Result<(), core::fmt::Error>) {
        match self {
            Ok(()) => Ok(()),
            Err(_) => Err(fmt_error()),
        }
    }
}

/// A writer that calls its write function once for each fragment that the
/// formatter produces, with no buffer in between.
///
/// The write function may return `()` or `Result<(), E>` for any `E`. The
/// first failing call ends the write; its error is passed on as `fmt::Error`.
#[derive(Clone, Copy, Debug)]
pub struct FmtTryWriter<F1> {
    write: F1,
}

impl<F1> FmtTryWriter<F1> {
    /// The wrapped write object.
    pub closed spec fn inner(&self) -> F1 {
        self.write
    }
}

impl<F1> FmtTryWriter<F1> where F1: WriteStr {
    /// Creates a new `FmtTryWriter` from an object that implements `WriteStr`.
    pub fn new(write: F1) -> (r: Self)
        ensures
            r.inner() == write,
    {
        FmtTryWriter { write }
    }

    /// Creates a new `FmtTryWriter` with a `WriteStr` wrapper deduced with
    /// `IntoTryWriteFn` from the closure signature and constructed from it.
    pub fn from_closure<F, Ts>(closure: F) -> (r: Self)
        where
            F: IntoTryWriteFn<Ts, TryWriteFn = F1>,
        ensures
            closure.is_try_write_fn_of(r.inner()),
    {
        FmtTryWriter { write: closure.into_try_write_fn() }
    }
}

impl<F1> WriteStr for FmtTryWriter<F1> where F1: WriteStr, F1::Output: IntoFmtWriteResult {
    type Output = Result<(), core::fmt::Error>;

    open spec fn str_log(&self) -> Seq<Seq<u8>> {
        self.inner().str_log()
    }

    open spec fn str_pre(&self, text: Seq<char>) -> bool {
        self.inner().str_pre(text)
    }

    open spec fn str_post(&self, text: Seq<char>, out: Result<(), core::fmt::Error>) -> bool {
        exists|raw: F1::Output|
            #[trigger] self.inner().str_post(text, raw) && (out is Ok <==> raw.is_fmt_success())
    }

    fn write_str(&mut self, buf: &str) -> (r: Result<(), core::fmt::Error>) {
        let raw = self.write.write_str(buf);
        assert(old(self).inner().str_post(buf@, raw));
        assert forall|t: Seq<char>, o: Result<(), core::fmt::Error>| #[trigger]
            self.str_post(t, o) == old(self).str_post(t, o) by {
            if self.str_post(t, o) {
                let x = choose|x: F1::Output|
                    #[trigger] self.inner().str_post(t, x) && (o is Ok <==> x.is_fmt_success());
                assert(old(self).inner().str_post(t, x));
            }
            if old(self).str_post(t, o) {
                let x = choose|x: F1::Output|
                    #[trigger] old(self).inner().str_post(t, x) && (o is Ok <==> x.is_fmt_success());
                assert(self.inner().str_post(t, x));
            }
        }
        raw.into_fmt_write_result()
    }
}

impl<F1> WriteBytes for FmtTryWriter<F1> where F1: WriteBytes, F1::Output: IntoFmtWriteResult {
    type Output = Result<(), core::fmt::Error>;

    open spec fn bytes_log(&self) -> Seq<Seq<u8>> {
        self.inner().bytes_log()
    }

    open spec fn bytes_pre(&self, buf: Seq<u8>) -> bool {
        self.inner().bytes_pre(buf)
    }

    open spec fn bytes_post(&self, buf: Seq<u8>, out: Result<(), core::fmt::Error>) -> bool {
        exists|raw: F1::Output|
            #[trigger] self.inner().bytes_post(buf, raw) && (out is Ok <==> raw.is_fmt_success())
    }

    fn write_bytes(&mut self, buf: &[u8]) -> (r: Result<(), core::fmt::Error>) {
        let raw = self.write.write_bytes(buf);
        assert(old(self).inner().bytes_post(buf@, raw));
        assert forall|b: Seq<u8>, o: Result<(), core::fmt::Error>| #[trigger]
            self.bytes_post(b, o) == old(self).bytes_post(b, o) by {
            if self.bytes_post(b, o) {
                let x = choose|x: F1::Output|
                    #[trigger] self.inner().bytes_post(b, x) && (o is Ok <==> x.is_fmt_success());
                assert(old(self).inner().bytes_post(b, x));
            }
            if old(self).bytes_post(b, o) {
                let x = choose|x: F1::Output|
                    #[trigger] old(self).inner().bytes_post(b, x) && (o is Ok <==> x.is_fmt_success());
                assert(self.inner().bytes_post(b, x));
            }
        }
        raw.into_fmt_write_result()
    }
}

impl<F1> FmtTryWriter<F1> where F1: WriteStr, F1::Output: IntoFmtWriteResult {
    /// Writes formatted text, given as the formatter's fragments: one call of
    /// the write function per fragment, in order, up to the first failing call.
    ///
    /// On success every fragment was handed over and every call succeeded.
    /// On error the fragments up to and including the failing one were handed
    /// over, and only the last of those calls failed.
    pub fn write_fmt(&mut self, fragments: &[&str]) -> (r: Result<(), core::fmt::Error>)
        requires
            forall|i: int| 0 <= i < fragments@.len() ==> old(self).str_pre(#[trigger] fragments@[i]@),
        ensures
            r is Ok ==> {
                &&& final(self).str_log() == old(self).str_log() + encoded(fragments@)
                &&& forall|i: int| 0 <= i < fragments@.len()
                    ==> old(self).str_post(#[trigger] fragments@[i]@, Ok(()))
            },
            r is Err ==> exists|k: int| {
                &&& 0 <= k < fragments@.len()
                &&& final(self).str_log() == old(self).str_log() + encoded(fragments@.take(k + 1))
                &&& old(self).str_post(fragments@[k]@, r)
                &&& forall|i: int| 0 <= i < k ==> old(self).str_post(#[trigger] fragments@[i]@, Ok(()))
            },
    {
        let mut i: usize = 0;
        while i < fragments.len()
            invariant
                0 <= i <= fragments@.len(),
                forall|j: int| 0 <= j < fragments@.len() ==> old(self).str_pre(#[trigger] fragments@[j]@),
                self.str_log() == old(self).str_log() + encoded(fragments@.take(i as int)),
                forall|j: int| 0 <= j < i ==> old(self).str_post(#[trigger] fragments@[j]@, Ok(())),
                forall|t: Seq<char>| #[trigger] self.str_pre(t) == old(self).str_pre(t),
                forall|t: Seq<char>, o: Result<(), core::fmt::Error>|
                    #[trigger] self.str_post(t, o) == old(self).str_post(t, o),
            decreases fragments@.len() - i,
        {
            let fragment: &str = fragments[i];
            let r = self.write_str(fragment);
            assert(encoded(fragments@.take(i as int + 1)) =~= encoded(fragments@.take(i as int)).push(
                encode_utf8(fragment@),
            ));
            match r {
                Ok(()) => {},
                Err(e) => {
                    assert(old(self).str_post(fragments@[i as int]@, Err(e)));
                    return Err(e);
                },
            }
            i = i + 1;
        }
        assert(fragments@.take(i as int) =~= fragments@);
        Ok(())
    }
}

} // verus!
