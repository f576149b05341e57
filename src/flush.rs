use vstd::prelude::*;

verus! {

/// Objects which can flush written data on request.
pub trait Flush {
    /// The resulting type after flushing.
    type Output;

    /// Whether a flush is allowed.
    spec fn flush_pre(&self) -> bool;

    /// Whether `out` is an output that a flush may give.
    spec fn flush_post(&self, out: Self::Output) -> bool;

    /// Performs flush.
    fn flush(&mut self) -> (r: Self::Output)
        requires
            old(self).flush_pre(),
        ensures
            old(self).flush_post(r),
            final(self).flush_pre() == old(self).flush_pre(),
            forall|o: Self::Output| #[trigger] final(self).flush_post(o) == old(self).flush_post(o),
    ;
}

/// The unit value flushes nothing: it stands for a sink without a flush.
impl Flush for () {
    type Output = ();

    open spec fn flush_pre(&self) -> bool {
        true
    }

    open spec fn flush_post(&self, out: ()) -> bool {
        true
    }

    fn flush(&mut self) {
    }
}

} // verus!
