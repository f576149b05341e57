use vstd::prelude::*;
use vstd::utf8::encode_utf8;

use crate::flush::Flush;
use crate::fragments::encoded;
use crate::incremental::{
    accepts_suffixes, is_position_in, is_write_all_run, is_write_pieces_run, pieces_from,
    lemma_pieces_from_start, reports_at_most_given, same_contract, write_fragments, Progress, WriteFmtStop,
};
use crate::into_try_write_fn::IntoTryWriteFn;
use crate::nul_error::NulError;
use crate::std_errors::invalid_data_error;
use crate::write_bytes::WriteBytes;

verus! {

/// The count that an I/O result reports, or `None` for an error.
pub open spec fn io_count(out: std::io::Result<usize>) -> Option<nat> {
    match out {
        Ok(n) => Some(n as nat),
        Err(_) => None,
    }
}

/// Converts what a write function returned into the `io::Result<usize>` of
/// an `IoTryWriter`, passing errors on.
///
/// `()` and `Ok(())` report the whole buffer as written; `usize` and
/// `Ok(usize)` report that count; an `io::Error` is passed on unchanged and a
/// `NulError` becomes an error of kind `InvalidData` that displays its message.
pub trait IntoIoWriteResult {
    /// The count of written bytes that the value reports for a buffer of
    /// `len` bytes, or `None` for an error.
    spec fn io_write_count(&self, len: nat) -> Option<nat>;

    /// The I/O error held by the value, which the conversion passes on.
    spec fn held_io_error(&self) -> Option<std::io::Error>;

    /// Performs the conversion with error propagation.
    fn into_io_write_result(self, buf: &[u8]) -> (r: std::io::Result<usize>)
        ensures
            io_count(r) == self.io_write_count(buf@.len()),
            self.held_io_error() matches Some(e) ==> r == Err::<usize, std::io::Error>(e),
    ;
}

impl IntoIoWriteResult for () {
    open spec fn io_write_count(&self, len: nat) -> Option<nat> {
        Some(len)
    }

    open spec fn held_io_error(&self) -> Option<std::io::Error> {
        None
    }

    fn into_io_write_result(self, buf: &[u8]) -> (r: std::io::Result<usize>) {
        Ok(buf.len())
    }
}

impl IntoIoWriteResult for usize {
    open spec fn io_write_count(&self, len: nat) -> Option<nat> {
        Some(*self as nat)
    }

    open spec fn held_io_error(&self) -> Option<std::io::Error> {
        None
    }

    fn into_io_write_result(self, buf: &[u8]) -> (r: std::io::Result<usize>) {
        Ok(self)
    }
}

impl IntoIoWriteResult for Result<(), NulError> {
    open spec fn io_write_count(&self, len: nat) -> Option<nat> {
        match self {
            Ok(()) => Some(len),
            Err(_) => None,
        }
    }

    open spec fn held_io_error(&self) -> Option<std::io::Error> {
        None
    }

    fn into_io_write_result(self, buf: &[u8]) -> (r: std::io::Result<usize>) {
        match self {
            Ok(()) => Ok(buf.len()),
            Err(e) => Err(invalid_data_error(e.message())),
        }
    }
}

impl IntoIoWriteResult for Result<usize, NulError> {
    open spec fn io_write_count(&self, len: nat) -> Option<nat> {
        match self {
            Ok(n) => Some(*n as nat),
            Err(_) => None,
        }
    }

    open spec fn held_io_error(&self) -> Option<std::io::Error> {
        None
    }

    fn into_io_write_result(self, buf: &[u8]) -> (r: std::io::Result<usize>) {
        match self {
            Ok(n) => Ok(n),
            Err(e) => Err(invalid_data_error(e.message())),
        }
    }
}

impl IntoIoWriteResult for Result<(), std::io::Error> {
    open spec fn io_write_count(&self, len: nat) -> Option<nat> {
        match self {
            Ok(()) => Some(len),
            Err(_) => None,
        }
    }

    open spec fn held_io_error(&self) -> Option<std::io::Error> {
        match self {
            Ok(()) => None,
            Err(e) => Some(*e),
        }
    }

    fn into_io_write_result(self, buf: &[u8]) -> (r: std::io::Result<usize>) {
        match self {
            Ok(()) => Ok(buf.len()),
            Err(e) => Err(e),
        }
    }
}

impl IntoIoWriteResult for Result<usize, std::io::Error> {
    open spec fn io_write_count(&self, len: nat) -> Option<nat> {
        match self {
            Ok(n) => Some(*n as nat),
            Err(_) => None,
        }
    }

    open spec fn held_io_error(&self) -> Option<std::io::Error> {
        match self {
            Ok(_) => None,
            Err(e) => Some(*e),
        }
    }

    fn into_io_write_result(self, buf: &[u8]) -> (r: std::io::Result<usize>) {
        self
    }
}

/// Converts what a flush function returned into the `io::Result<()>` of an
/// `IoTryWriter`, passing errors on: `()` becomes `Ok(())` and an
/// `io::Result<()>` is kept as it is.
pub trait IntoIoFlushResult {
    /// The result of the conversion.
    spec fn io_flush_result(&self) -> std::io::Result<()>;

    /// Performs the conversion with error propagation.
    fn into_io_flush_result(self) -> (r: std::io::Result<()>)
        ensures
            r == self.io_flush_result(),
    ;
}

impl IntoIoFlushResult for () {
    open spec fn io_flush_result(&self) -> std::io::Result<()> {
        Ok(())
    }

    fn into_io_flush_result(self) -> (r: std::io::Result<()>) {
        Ok(())
    }
}

impl IntoIoFlushResult for Result<(), std::io::Error> {
    open spec fn io_flush_result(&self) -> std::io::Result<()> {
        *self
    }

    fn into_io_flush_result(self) -> (r: std::io::Result<()>) {
        self
    }
}

/// A writer with both a write and a flush function, which writes formatted
/// text fragment by fragment, each as an incremental write that calls the
/// write function again with whatever part a call left unconsumed.
///
/// The write function may return `()`, `usize`, `io::Result<()>`,
/// `io::Result<usize>`, `Result<(), NulError>` or `Result<usize, NulError>`,
/// where a count tells how many bytes were written; the flush function `()`
/// or `io::Result<()>`. Errors are passed on to the caller.
#[derive(Clone, Copy, Debug)]
pub struct IoTryWriter<F1, F2> {
    write: F1,
    flush: F2,
}

impl<F1, F2> IoTryWriter<F1, F2> {
    /// The wrapped write object.
    pub closed spec fn inner(&self) -> F1 {
        self.write
    }

    /// The wrapped flush object.
    pub closed spec fn flusher(&self) -> F2 {
        self.flush
    }
}

impl<F1, F2> IoTryWriter<F1, F2> where F1: WriteBytes, F2: Flush {
    /// Creates a new `IoTryWriter` from an object that implements `WriteBytes`
    /// and an object that implements `Flush`.
    pub fn new(write: F1, flush: F2) -> (r: Self)
        ensures
            r.inner() == write,
            r.flusher() == flush,
    {
        IoTryWriter { write, flush }
    }
}

impl<F1> IoTryWriter<F1, ()> where F1: WriteBytes {
    /// Creates a new `IoTryWriter` with a `WriteBytes` wrapper deduced with
    /// `IntoTryWriteFn` from the closure signature and constructed from it,
    /// and no flush function.
    pub fn from_closure<F, Ts>(closure: F) -> (r: Self)
        where
            F: IntoTryWriteFn<Ts, TryWriteFn = F1>,
        ensures
            closure.is_try_write_fn_of(r.inner()),
    {
        IoTryWriter { write: closure.into_try_write_fn(), flush: () }
    }
}

impl<F1, F2> WriteBytes for IoTryWriter<F1, F2> where F1: WriteBytes, F1::Output: IntoIoWriteResult {
    type Output = std::io::Result<usize>;

    open spec fn bytes_log(&self) -> Seq<Seq<u8>> {
        self.inner().bytes_log()
    }

    open spec fn bytes_pre(&self, buf: Seq<u8>) -> bool {
        self.inner().bytes_pre(buf)
    }

    open spec fn bytes_post(&self, buf: Seq<u8>, out: std::io::Result<usize>) -> bool {
        exists|raw: F1::Output| {
            &&& #[trigger] self.inner().bytes_post(buf, raw)
            &&& io_count(out) == raw.io_write_count(buf.len())
            &&& raw.held_io_error() matches Some(e) ==> out == Err::<usize, std::io::Error>(e)
        }
    }

    fn write_bytes(&mut self, buf: &[u8]) -> (r: std::io::Result<usize>) {
        let raw = self.write.write_bytes(buf);
        assert(old(self).inner().bytes_post(buf@, raw));
        assert forall|b: Seq<u8>, o: std::io::Result<usize>| #[trigger]
            self.bytes_post(b, o) == old(self).bytes_post(b, o) by {
            if self.bytes_post(b, o) {
                let x = choose|x: F1::Output| {
                    &&& #[trigger] self.inner().bytes_post(b, x)
                    &&& io_count(o) == x.io_write_count(b.len())
                    &&& x.held_io_error() matches Some(e) ==> o == Err::<usize, std::io::Error>(e)
                };
                assert(old(self).inner().bytes_post(b, x));
            }
            if old(self).bytes_post(b, o) {
                let x = choose|x: F1::Output| {
                    &&& #[trigger] old(self).inner().bytes_post(b, x)
                    &&& io_count(o) == x.io_write_count(b.len())
                    &&& x.held_io_error() matches Some(e) ==> o == Err::<usize, std::io::Error>(e)
                };
                assert(self.inner().bytes_post(b, x));
            }
        }
        raw.into_io_write_result(buf)
    }
}

impl<F1, F2> Flush for IoTryWriter<F1, F2> where F2: Flush, F2::Output: IntoIoFlushResult {
    type Output = std::io::Result<()>;

    open spec fn flush_pre(&self) -> bool {
        self.flusher().flush_pre()
    }

    open spec fn flush_post(&self, out: std::io::Result<()>) -> bool {
        exists|raw: F2::Output| #[trigger] self.flusher().flush_post(raw) && out == raw.io_flush_result()
    }

    fn flush(&mut self) -> (r: std::io::Result<()>) {
        let raw = self.flush.flush();
        assert(old(self).flusher().flush_post(raw));
        assert forall|o: std::io::Result<()>| #[trigger] self.flush_post(o) == old(self).flush_post(o) by {
            if self.flush_post(o) {
                let x = choose|x: F2::Output| #[trigger] self.flusher().flush_post(x) && o == x.io_flush_result();
                assert(old(self).flusher().flush_post(x));
            }
            if old(self).flush_post(o) {
                let x = choose|x: F2::Output| #[trigger] old(self).flusher().flush_post(x) && o == x.io_flush_result();
                assert(self.flusher().flush_post(x));
            }
        }
        raw.into_io_flush_result()
    }
}

impl<F1, F2> IoTryWriter<F1, F2> where F1: WriteBytes, F1::Output: IntoIoWriteResult {
    /// Writes formatted text, given as the formatter's fragments: an
    /// incremental write of each fragment in turn, up to the first one that
    /// does not reach its end.
    ///
    /// A call that reports zero bytes written stops the write with a
    /// `WriteZero` error; an error from the write function stops it too and is
    /// passed on. When that error is of kind `Interrupted` the stop says so,
    /// and `resume_fmt` from the stop's position hands the same unconsumed
    /// bytes to the write function again.
    pub fn write_fmt(&mut self, fragments: &[&str]) -> (r: Result<(), WriteFmtStop>)
        requires
            forall|i: int|
                0 <= i < fragments@.len() ==> accepts_suffixes(*old(self), encode_utf8(#[trigger] fragments@[i]@)),
            reports_at_most_given(*old(self)),
        ensures
            same_contract(*final(self), *old(self)),
            final(self).bytes_log().len() >= old(self).bytes_log().len(),
            final(self).bytes_log().take(old(self).bytes_log().len() as int) == old(self).bytes_log(),
            ({
                let calls = final(self).bytes_log().skip(old(self).bytes_log().len() as int);
                let pieces = encoded(fragments@);
                &&& r is Ok ==> is_write_pieces_run(*old(self), pieces, calls)
                &&& r matches Err(stop) ==> exists|i: int, k: int| {
                    &&& 0 <= i < pieces.len()
                    &&& 0 <= k <= calls.len()
                    &&& stop.at.fragment == i
                    &&& #[trigger] is_write_pieces_run(*old(self), pieces.take(i), calls.take(k))
                    &&& is_write_all_run(*old(self), pieces[i], calls.skip(k), false)
                }
                &&& r matches Err(stop) ==> {
                    &&& calls.len() > 0
                    &&& stop.at.fragment < fragments@.len()
                    &&& stop.at.offset + calls.last().len() == encode_utf8(
                        fragments@[stop.at.fragment as int]@,
                    ).len()
                    &&& calls.last() == encode_utf8(fragments@[stop.at.fragment as int]@).skip(
                        stop.at.offset as int,
                    )
                    &&& old(self).bytes_post(calls.last(), Err(stop.error)) || (
                    old(self).bytes_post(calls.last(), Ok(0)) && !stop.interrupted)
                }
            }),
    {
        let start = Progress { fragment: 0, offset: 0 };
        proof {
            lemma_pieces_from_start(fragments@);
        }
        write_fragments(self, fragments, start)
    }

    /// Goes on with a write of formatted text from position `from`, as
    /// `write_fmt` does from the start: typically after a stop by an error of
    /// kind `Interrupted`, whose position it takes.
    pub fn resume_fmt(&mut self, fragments: &[&str], from: Progress) -> (r: Result<(), WriteFmtStop>)
        requires
            is_position_in(fragments@, from),
            forall|i: int|
                0 <= i < fragments@.len() ==> accepts_suffixes(*old(self), encode_utf8(#[trigger] fragments@[i]@)),
            reports_at_most_given(*old(self)),
        ensures
            same_contract(*final(self), *old(self)),
            final(self).bytes_log().len() >= old(self).bytes_log().len(),
            final(self).bytes_log().take(old(self).bytes_log().len() as int) == old(self).bytes_log(),
            ({
                let calls = final(self).bytes_log().skip(old(self).bytes_log().len() as int);
                let pieces = pieces_from(fragments@, from);
                &&& r is Ok ==> is_write_pieces_run(*old(self), pieces, calls)
                &&& r matches Err(stop) ==> exists|i: int, k: int| {
                    &&& 0 <= i < pieces.len()
                    &&& 0 <= k <= calls.len()
                    &&& stop.at.fragment == from.fragment + i
                    &&& #[trigger] is_write_pieces_run(*old(self), pieces.take(i), calls.take(k))
                    &&& is_write_all_run(*old(self), pieces[i], calls.skip(k), false)
                }
                &&& r matches Err(stop) ==> {
                    &&& calls.len() > 0
                    &&& from.fragment <= stop.at.fragment < fragments@.len()
                    &&& stop.at.offset + calls.last().len() == encode_utf8(
                        fragments@[stop.at.fragment as int]@,
                    ).len()
                    &&& calls.last() == encode_utf8(fragments@[stop.at.fragment as int]@).skip(
                        stop.at.offset as int,
                    )
                    &&& old(self).bytes_post(calls.last(), Err(stop.error)) || (
                    old(self).bytes_post(calls.last(), Ok(0)) && !stop.interrupted)
                }
            }),
    {
        write_fragments(self, fragments, from)
    }
}

impl<F1, F2> IoTryWriter<F1, F2> where F2: Flush, F2::Output: IntoIoFlushResult {
    /// Flushes through the flush function, as `Flush::flush` does, and leaves
    /// the write side alone: the write function is not called.
    pub fn flush(&mut self) -> (r: std::io::Result<()>)
        requires
            old(self).flush_pre(),
        ensures
            old(self).flush_post(r),
            final(self).inner() == old(self).inner(),
    {
        let raw = self.flush.flush();
        assert(old(self).flusher().flush_post(raw));
        raw.into_io_flush_result()
    }
}

} // verus!
