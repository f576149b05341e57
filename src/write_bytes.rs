use vstd::prelude::*;

verus! {

/// Objects which can write bytes, returning an output of their own choosing.
///
/// Besides the call itself, an implementation describes three things in spec
/// code: the buffers it has been asked to write so far (`bytes_log`), the
/// buffers it accepts (`bytes_pre`) and the outputs it may give for a buffer
/// (`bytes_post`). Writing never changes the last two. For the closure
/// wrappers each logged buffer is one call of the primitive, in the form the
/// primitive takes, save one that `TryWriteCStrFn` refused for a NUL byte.
pub trait WriteBytes {
    /// The resulting type after writing.
    type Output;

    /// Every buffer this object has been asked to write so far, oldest first.
    spec fn bytes_log(&self) -> Seq<Seq<u8>>;

    /// Whether a call with `buf` is allowed.
    spec fn bytes_pre(&self, buf: Seq<u8>) -> bool;

    /// Whether `out` is an output that a call with `buf` may give.
    spec fn bytes_post(&self, buf: Seq<u8>, out: Self::Output) -> bool;

    /// Performs byte writing.
    fn write_bytes(&mut self, buf: &[u8]) -> (r: Self::Output)
        requires
            old(self).bytes_pre(buf@),
        ensures
            old(self).bytes_post(buf@, r),
            final(self).bytes_log() == old(self).bytes_log().push(buf@),
            forall|b: Seq<u8>| #[trigger] final(self).bytes_pre(b) == old(self).bytes_pre(b),
            forall|b: Seq<u8>, o: Self::Output|
                #[trigger] final(self).bytes_post(b, o) == old(self).bytes_post(b, o),
    ;
}

} // verus!
