use vstd::prelude::*;
use vstd::utf8::encode_utf8;

use crate::write_bytes::WriteBytes;

verus! {

/// Objects which can write text, returning an output of their own choosing.
///
/// The spec functions play the same part as those of `WriteBytes`; the log
/// holds the UTF-8 encoding of every text this object has been asked to
/// write, so that text and byte writers share one notion of what was written.
pub trait WriteStr {
    /// The resulting type after writing.
    type Output;

    /// The UTF-8 encoding of every text this object has been asked to write, oldest first.
    spec fn str_log(&self) -> Seq<Seq<u8>>;

    /// Whether a call with `text` is allowed.
    spec fn str_pre(&self, text: Seq<char>) -> bool;

    /// Whether `out` is an output that a call with `text` may give.
    spec fn str_post(&self, text: Seq<char>, out: Self::Output) -> bool;

    /// Performs text writing.
    fn write_str(&mut self, buf: &str) -> (r: Self::Output)
        requires
            old(self).str_pre(buf@),
        ensures
            old(self).str_post(buf@, r),
            final(self).str_log() == old(self).str_log().push(encode_utf8(buf@)),
            forall|t: Seq<char>| #[trigger] final(self).str_pre(t) == old(self).str_pre(t),
            forall|t: Seq<char>, o: Self::Output|
                #[trigger] final(self).str_post(t, o) == old(self).str_post(t, o),
    ;
}

/// Marks byte writers whose text writing is their byte writing applied to the
/// UTF-8 encoding of the text.
pub trait WriteStrAsBytes: WriteBytes {

}

impl<T: WriteStrAsBytes> WriteStr for T {
    type Output = <T as WriteBytes>::Output;

    open spec fn str_log(&self) -> Seq<Seq<u8>> {
        self.bytes_log()
    }

    open spec fn str_pre(&self, text: Seq<char>) -> bool {
        self.bytes_pre(encode_utf8(text))
    }

    open spec fn str_post(&self, text: Seq<char>, out: Self::Output) -> bool {
        self.bytes_post(encode_utf8(text), out)
    }

    fn write_str(&mut self, buf: &str) -> (r: Self::Output) {
        self.write_bytes(buf.as_bytes())
    }
}

} // verus!
