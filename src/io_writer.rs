use vstd::prelude::*;
use vstd::utf8::encode_utf8;

use crate::flush::Flush;
use crate::fragments::encoded;
use crate::incremental::{
    accepts_suffixes, is_write_all_run, is_write_pieces_run, lemma_pieces_from_start, pieces_from,
    reports_at_most_given, same_contract, write_fragments, Progress,
};
use crate::into_write_fn::IntoWriteFn;
use crate::write_bytes::WriteBytes;

verus! {

/// Converts what a write function returned into the `io::Result<usize>` of
/// an `IoWriter`, which is always `Ok`.
///
/// `()` and `Ok(())` report the whole buffer as written; `usize` and
/// `Ok(usize)` report that count. An error would stop the writer, so the
/// conversion is only allowed on a success.
pub trait ExpectIoWriteResult {
    /// Whether the value is a success.
    spec fn is_io_write_success(&self) -> bool;

    /// The count of written bytes that a success reports for a buffer of `len` bytes.
    spec fn io_write_count_of(&self, len: nat) -> nat;

    /// Performs the conversion of a success.
    fn expect_io_write_result(self, buf: &[u8]) -> (r: std::io::Result<usize>)
        requires
            self.is_io_write_success(),
        ensures
            r is Ok,
            r->Ok_0 == self.io_write_count_of(buf@.len()),
    ;
}

impl ExpectIoWriteResult for () {
    open spec fn is_io_write_success(&self) -> bool {
        true
    }

    open spec fn io_write_count_of(&self, len: nat) -> nat {
        len
    }

    fn expect_io_write_result(self, buf: &[u8]) -> (r: std::io::Result<usize>) {
        Ok(buf.len())
    }
}

impl ExpectIoWriteResult for usize {
    open spec fn is_io_write_success(&self) -> bool {
        true
    }

    open spec fn io_write_count_of(&self, len: nat) -> nat {
        *self as nat
    }

    fn expect_io_write_result(self, buf: &[u8]) -> (r: std::io::Result<usize>) {
        Ok(self)
    }
}

impl<E> ExpectIoWriteResult for Result<(), E> {
    open spec fn is_io_write_success(&self) -> bool {
        self is Ok
    }

    open spec fn io_write_count_of(&self, len: nat) -> nat {
        len
    }

    fn expect_io_write_result(self, buf: &[u8]) -> (r: std::io::Result<usize>) {
        self.ok().expect("failed writing");
        Ok(buf.len())
    }
}

impl<E> ExpectIoWriteResult for Result<usize, E> {
    open spec fn is_io_write_success(&self) -> bool {
        self is Ok
    }

    open spec fn io_write_count_of(&self, len: nat) -> nat {
        self->Ok_0 as nat
    }

    fn expect_io_write_result(self, buf: &[u8]) -> (r: std::io::Result<usize>) {
        Ok(self.ok().expect("failed writing"))
    }
}

/// Converts what a flush function returned into the `io::Result<()>` of an
/// `IoWriter`, which is always `Ok(())`. An error would stop the writer, so
/// the conversion is only allowed on `()` or `Ok(())`.
pub trait ExpectIoFlushResult {
    /// Whether the value is a success.
    spec fn is_io_flush_success(&self) -> bool;

    /// Performs the conversion of a success.
    fn expect_io_flush_result(self) -> (r: std::io::Result<()>)
        requires
            self.is_io_flush_success(),
        ensures
            r is Ok,
    ;
}

impl ExpectIoFlushResult for () {
    open spec fn is_io_flush_success(&self) -> bool {
        true
    }

    fn expect_io_flush_result(self) -> (r: std::io::Result<()>) {
        Ok(())
    }
}

impl<E> ExpectIoFlushResult for Result<(), E> {
    open spec fn is_io_flush_success(&self) -> bool {
        self is Ok
    }

    fn expect_io_flush_result(self) -> (r: std::io::Result<()>) {
        self.ok().expect("failed flushing");
        Ok(())
    }
}

/// A writer with both a write and a flush function, which writes formatted
/// text fragment by fragment, each as an incremental write that calls the
/// write function again with whatever part a call left unconsumed.
///
/// The write function may return `()`, `usize`, `Result<(), E>` or
/// `Result<usize, E>`, where a count tells how many bytes were written; the
/// flush function `()` or `Result<(), E>`. The functions are only used where
/// they cannot fail, as a failure would stop the program; a call that reports
/// zero bytes written still fails the write.
#[derive(Clone, Copy, Debug)]
pub struct IoWriter<F1, F2> {
    write: F1,
    flush: F2,
}

impl<F1, F2> IoWriter<F1, F2> {
    /// The wrapped write object.
    pub closed spec fn inner(&self) -> F1 {
        self.write
    }

    /// The wrapped flush object.
    pub closed spec fn flusher(&self) -> F2 {
        self.flush
    }
}

impl<F1, F2> IoWriter<F1, F2> where F1: WriteBytes, F2: Flush {
    /// Creates a new `IoWriter` from an object that implements `WriteBytes`
    /// and an object that implements `Flush`.
    pub fn new(write: F1, flush: F2) -> (r: Self)
        ensures
            r.inner() == write,
            r.flusher() == flush,
    {
        IoWriter { write, flush }
    }
}

impl<F1> IoWriter<F1, ()> where F1: WriteBytes {
    /// Creates a new `IoWriter` with a `WriteBytes` wrapper deduced with
    /// `IntoWriteFn` from the closure signature and constructed from it,
    /// and no flush function.
    pub fn from_closure<F, Ts>(closure: F) -> (r: Self)
        where
            F: IntoWriteFn<Ts, WriteFn = F1>,
        ensures
            closure.is_write_fn_of(r.inner()),
    {
        IoWriter { write: closure.into_write_fn(), flush: () }
    }
}

impl<F1, F2> WriteBytes for IoWriter<F1, F2> where F1: WriteBytes, F1::Output: ExpectIoWriteResult {
    type Output = std::io::Result<usize>;

    open spec fn bytes_log(&self) -> Seq<Seq<u8>> {
        self.inner().bytes_log()
    }

    open spec fn bytes_pre(&self, buf: Seq<u8>) -> bool {
        &&& self.inner().bytes_pre(buf)
        &&& forall|raw: F1::Output| #[trigger]
            self.inner().bytes_post(buf, raw) ==> raw.is_io_write_success()
    }

    open spec fn bytes_post(&self, buf: Seq<u8>, out: std::io::Result<usize>) -> bool {
        exists|raw: F1::Output| {
            &&& #[trigger] self.inner().bytes_post(buf, raw)
            &&& out is Ok
            &&& out->Ok_0 == raw.io_write_count_of(buf.len())
        }
    }

    fn write_bytes(&mut self, buf: &[u8]) -> (r: std::io::Result<usize>) {
        let raw = self.write.write_bytes(buf);
        assert(old(self).inner().bytes_post(buf@, raw));
        assert forall|b: Seq<u8>| #[trigger] self.bytes_pre(b) == old(self).bytes_pre(b) by {
            if old(self).bytes_pre(b) {
                assert forall|x: F1::Output| #[trigger]
                    self.inner().bytes_post(b, x) implies x.is_io_write_success() by {
                    assert(old(self).inner().bytes_post(b, x));
                }
            }
            if self.bytes_pre(b) {
                assert forall|x: F1::Output| #[trigger]
                    old(self).inner().bytes_post(b, x) implies x.is_io_write_success() by {
                    assert(self.inner().bytes_post(b, x));
                }
            }
        }
        assert forall|b: Seq<u8>, o: std::io::Result<usize>| #[trigger]
            self.bytes_post(b, o) == old(self).bytes_post(b, o) by {
            if self.bytes_post(b, o) {
                let x = choose|x: F1::Output| {
                    &&& #[trigger] self.inner().bytes_post(b, x)
                    &&& o is Ok
                    &&& o->Ok_0 == x.io_write_count_of(b.len())
                };
                assert(old(self).inner().bytes_post(b, x));
            }
            if old(self).bytes_post(b, o) {
                let x = choose|x: F1::Output| {
                    &&& #[trigger] old(self).inner().bytes_post(b, x)
                    &&& o is Ok
                    &&& o->Ok_0 == x.io_write_count_of(b.len())
                };
                assert(self.inner().bytes_post(b, x));
            }
        }
        raw.expect_io_write_result(buf)
    }
}

impl<F1, F2> Flush for IoWriter<F1, F2> where F2: Flush, F2::Output: ExpectIoFlushResult {
    type Output = std::io::Result<()>;

    open spec fn flush_pre(&self) -> bool {
        &&& self.flusher().flush_pre()
        &&& forall|raw: F2::Output| #[trigger] self.flusher().flush_post(raw) ==> raw.is_io_flush_success()
    }

    open spec fn flush_post(&self, out: std::io::Result<()>) -> bool {
        &&& out is Ok
        &&& exists|raw: F2::Output| #[trigger] self.flusher().flush_post(raw)
    }

    fn flush(&mut self) -> (r: std::io::Result<()>) {
        let raw = self.flush.flush();
        assert(old(self).flusher().flush_post(raw));
        proof {
            if old(self).flush_pre() {
                assert forall|x: F2::Output| #[trigger]
                    self.flusher().flush_post(x) implies x.is_io_flush_success() by {
                    assert(old(self).flusher().flush_post(x));
                }
            }
            if self.flush_pre() {
                assert forall|x: F2::Output| #[trigger]
                    old(self).flusher().flush_post(x) implies x.is_io_flush_success() by {
                    assert(self.flusher().flush_post(x));
                }
            }
        }
        assert forall|o: std::io::Result<()>| #[trigger] self.flush_post(o) == old(self).flush_post(o) by {
            if self.flush_post(o) {
                let x = choose|x: F2::Output| #[trigger] self.flusher().flush_post(x);
                assert(old(self).flusher().flush_post(x));
            }
            if old(self).flush_post(o) {
                let x = choose|x: F2::Output| #[trigger] old(self).flusher().flush_post(x);
                assert(self.flusher().flush_post(x));
            }
        }
        raw.expect_io_flush_result()
    }
}

impl<F1, F2> IoWriter<F1, F2> where F1: WriteBytes, F1::Output: ExpectIoWriteResult {
    /// Writes formatted text, given as the formatter's fragments: an
    /// incremental write of each fragment in turn, up to the first one that
    /// fails.
    ///
    /// The write function never fails here, so only a call that reports zero
    /// bytes written fails the write, with a `WriteZero` error.
    pub fn write_fmt(&mut self, fragments: &[&str]) -> (r: std::io::Result<()>)
        requires
            forall|i: int|
                0 <= i < fragments@.len() ==> accepts_suffixes(*old(self), encode_utf8(#[trigger] fragments@[i]@)),
            reports_at_most_given(*old(self)),
        ensures
            same_contract(*final(self), *old(self)),
            final(self).bytes_log().len() >= old(self).bytes_log().len(),
            final(self).bytes_log().take(old(self).bytes_log().len() as int) == old(self).bytes_log(),
            ({
                let calls = final(self).bytes_log().skip(old(self).bytes_log().len() as int);
                &&& r is Ok ==> is_write_pieces_run(*old(self), encoded(fragments@), calls)
                &&& r is Err ==> exists|i: int, k: int| {
                    &&& 0 <= i < fragments@.len()
                    &&& 0 <= k <= calls.len()
                    &&& #[trigger] is_write_pieces_run(*old(self), encoded(fragments@).take(i), calls.take(k))
                    &&& is_write_all_run(*old(self), encode_utf8(fragments@[i]@), calls.skip(k), false)
                }
                &&& r is Err ==> calls.len() > 0 && old(self).bytes_post(calls.last(), Ok(0))
            }),
    {
        let start = Progress { fragment: 0, offset: 0 };
        let ghost pieces = pieces_from(fragments@, start);
        proof {
            lemma_pieces_from_start(fragments@);
        }
        match write_fragments(self, fragments, start) {
            Ok(()) => Ok(()),
            Err(stop) => {
                assert(forall|i: int| 0 <= i < pieces.len() ==> pieces[i] == encode_utf8(fragments@[i]@));
                Err(stop.error)
            },
        }
    }
}

impl<F1, F2> IoWriter<F1, F2> where F2: Flush, F2::Output: ExpectIoFlushResult {
    /// Flushes through the flush function, as `Flush::flush` does, and leaves
    /// the write side alone: the write function is not called.
    pub fn flush(&mut self) -> (r: std::io::Result<()>)
        requires
            old(self).flush_pre(),
        ensures
            old(self).flush_post(r),
            final(self).inner() == old(self).inner(),
    {
        let raw = self.flush.flush();
        assert(old(self).flusher().flush_post(raw));
        raw.expect_io_flush_result()
    }
}

} // verus!
