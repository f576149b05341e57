//! Print-like writers backed by a user-supplied write primitive.
//!
//! A primitive is a closure or function that takes the text to write in one
//! of a few shapes (bytes, text, owned text, a C string). The wrappers of
//! `write_fns` expose it through `WriteBytes` and `WriteStr`; the writers
//! build on those and differ in when they call it and in what they return:
//!
//! - `ConcatWriter` / `ConcatTryWriter` call it once with the whole text;
//! - `FmtWriter` / `FmtTryWriter` call it once per formatted fragment;
//! - `IoWriter` / `IoTryWriter` write each fragment incrementally, calling it
//!   again with whatever a call left unconsumed, and can flush. An error of
//!   kind `Interrupted` stops `IoTryWriter::write_fmt` with the position it
//!   reached, and `resume_fmt` hands the same bytes over again from there.
//!
//! The `Try` writers pass errors on; the others are for primitives that
//! cannot fail. Formatted text is handed over as the formatter's fragments.
//! Every wrapper keeps, in spec code, the log of the buffers it was asked to
//! write (for a closure wrapper: one call of the primitive each), and the
//! writers' contracts say how each write extends it.
mod concat_try_writer;
mod concat_writer;
mod flush;
mod flush_fn;
mod fmt_try_writer;
mod fmt_writer;
mod fragments;
mod incremental;
mod into_try_write_fn;
mod into_write_fn;
mod io_try_writer;
mod io_writer;
mod laws;
mod never_error;
mod nul_error;
mod std_errors;
mod write_bytes;
mod write_fns;
mod write_str;

pub use concat_try_writer::{ConcatTryWriter, IntoConcatWriteResult};
pub use concat_writer::{ConcatWriter, ExpectConcatWriteResult};
pub use flush::Flush;
pub use flush_fn::FlushFn;
pub use fmt_try_writer::{FmtTryWriter, IntoFmtWriteResult};
pub use fmt_writer::{ExpectFmtWriteResult, FmtWriter};
pub use fragments::{concat_fragments, encoded, text_of};
pub use incremental::{
    is_position_in, pieces_from, Progress, WriteFmtStop,
    accepts_suffixes, is_suffix_of, is_write_all_run, is_write_pieces_run, reports_at_most_given,
    same_contract, write_all, write_fragments, WriteAllError,
};
pub use into_try_write_fn::IntoTryWriteFn;
pub use into_write_fn::IntoWriteFn;
pub use io_try_writer::{io_count, IntoIoFlushResult, IntoIoWriteResult, IoTryWriter};
pub use io_writer::{ExpectIoFlushResult, ExpectIoWriteResult, IoWriter};
pub use laws::{
    capped_call_count, consumed, lemma_capped_pieces_calls, lemma_capped_write_calls, lemma_stalled_write_fails, lemma_write_all_reassembles,
    never_progresses, writes_at_most,
};
pub use never_error::NeverError;
pub use nul_error::{
    c_bytes, decimal, find_nul, has_no_nul, is_first_nul, nul_message_prefix, to_c_bytes, NulError,
};
pub use write_bytes::WriteBytes;
pub use write_fns::{TryWriteCStrFn, WriteBytesFn, WriteCStrFn, WriteStrFn, WriteStringFn};
pub use write_str::{WriteStr, WriteStrAsBytes};
