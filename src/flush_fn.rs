use vstd::prelude::*;

use crate::flush::Flush;

verus! {

/// A wrapper for a flush function `FnMut() -> R`.
#[derive(Clone, Copy, Debug)]
#[verifier::reject_recursive_types(R)]
pub struct FlushFn<F, R> where F: FnMut() -> R {
    closure: F,
}

impl<F, R> FlushFn<F, R> where F: FnMut() -> R {
    /// The wrapped closure or function.
    pub closed spec fn closure(&self) -> F {
        self.closure
    }

    /// Creates a new `FlushFn` containing the given closure or function.
    pub fn new(closure: F) -> (r: Self)
        ensures
            r.closure() == closure,
    {
        FlushFn { closure }
    }
}

impl<F, R> Flush for FlushFn<F, R> where F: FnMut() -> R {
    type Output = R;

    open spec fn flush_pre(&self) -> bool {
        call_requires(self.closure(), ())
    }

    open spec fn flush_post(&self, out: R) -> bool {
        call_ensures(self.closure(), (), out)
    }

    fn flush(&mut self) -> (r: R) {
        (self.closure)()
    }
}

} // verus!
