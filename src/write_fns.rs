use vstd::prelude::*;
use vstd::string::StringExecFns;
use vstd::utf8::encode_utf8;

use crate::nul_error::{c_bytes, find_nul, has_no_nul, is_first_nul, to_c_bytes, NulError};
use crate::write_bytes::WriteBytes;
use crate::write_str::{WriteStr, WriteStrAsBytes};

verus! {

broadcast use vstd::function::group_function_axioms;

/// A wrapper for write functions `FnMut(&[u8]) -> R`.
///
/// It implements `WriteBytes` and, through `WriteStrAsBytes`, `WriteStr`.
#[derive(Clone, Copy)]
#[verifier::reject_recursive_types(R)]
pub struct WriteBytesFn<F, R> where F: FnMut(&[u8]) -> R {
    closure: F,
    log: Ghost<Seq<Seq<u8>>>,
}

impl<F, R> WriteBytesFn<F, R> where F: FnMut(&[u8]) -> R {
    /// The wrapped closure or function.
    pub closed spec fn closure(&self) -> F {
        self.closure
    }

    /// Creates a new `WriteBytesFn` containing the given closure or function.
    pub fn new(closure: F) -> (r: Self)
        ensures
            r.closure() == closure,
            r.bytes_log() == Seq::<Seq<u8>>::empty(),
    {
        WriteBytesFn { closure, log: Ghost(Seq::empty()) }
    }
}

impl<F, R> WriteBytes for WriteBytesFn<F, R> where F: FnMut(&[u8]) -> R {
    type Output = R;

    closed spec fn bytes_log(&self) -> Seq<Seq<u8>> {
        self.log@
    }

    open spec fn bytes_pre(&self, buf: Seq<u8>) -> bool {
        forall|s: &[u8]| s@ == buf ==> #[trigger] call_requires(self.closure(), (s,))
    }

    open spec fn bytes_post(&self, buf: Seq<u8>, out: R) -> bool {
        exists|s: &[u8]| s@ == buf && #[trigger] call_ensures(self.closure(), (s,), out)
    }

    fn write_bytes(&mut self, buf: &[u8]) -> (r: R) {
        assert(call_requires(self.closure(), (buf,)));
        let r = (self.closure)(buf);
        self.log = Ghost(self.log@.push(buf@));
        assert(self.closure() == old(self).closure());
        r
    }
}

impl<F, R> WriteStrAsBytes for WriteBytesFn<F, R> where F: FnMut(&[u8]) -> R {

}

/// A wrapper for write functions `FnMut(&str) -> R`.
///
/// It implements `WriteStr`.
#[derive(Clone, Copy)]
#[verifier::reject_recursive_types(R)]
pub struct WriteStrFn<F, R> where F: FnMut(&str) -> R {
    closure: F,
    log: Ghost<Seq<Seq<u8>>>,
}

impl<F, R> WriteStrFn<F, R> where F: FnMut(&str) -> R {
    /// The wrapped closure or function.
    pub closed spec fn closure(&self) -> F {
        self.closure
    }

    /// Creates a new `WriteStrFn` containing the given closure or function.
    pub fn new(closure: F) -> (r: Self)
        ensures
            r.closure() == closure,
            r.str_log() == Seq::<Seq<u8>>::empty(),
    {
        WriteStrFn { closure, log: Ghost(Seq::empty()) }
    }
}

impl<F, R> WriteStr for WriteStrFn<F, R> where F: FnMut(&str) -> R {
    type Output = R;

    closed spec fn str_log(&self) -> Seq<Seq<u8>> {
        self.log@
    }

    open spec fn str_pre(&self, text: Seq<char>) -> bool {
        forall|s: &str| s@ == text ==> #[trigger] call_requires(self.closure(), (s,))
    }

    open spec fn str_post(&self, text: Seq<char>, out: R) -> bool {
        exists|s: &str| s@ == text && #[trigger] call_ensures(self.closure(), (s,), out)
    }

    fn write_str(&mut self, buf: &str) -> (r: R) {
        assert(call_requires(self.closure(), (buf,)));
        let r = (self.closure)(buf);
        self.log = Ghost(self.log@.push(encode_utf8(buf@)));
        assert(self.closure() == old(self).closure());
        r
    }
}

/// A wrapper for write functions `FnMut(String) -> R`.
///
/// It implements `WriteStr`, handing the primitive an owned copy of the text.
#[derive(Clone, Copy)]
#[verifier::reject_recursive_types(R)]
pub struct WriteStringFn<F, R> where F: FnMut(String) -> R {
    closure: F,
    log: Ghost<Seq<Seq<u8>>>,
}

impl<F, R> WriteStringFn<F, R> where F: FnMut(String) -> R {
    /// The wrapped closure or function.
    pub closed spec fn closure(&self) -> F {
        self.closure
    }

    /// Creates a new `WriteStringFn` containing the given closure or function.
    pub fn new(closure: F) -> (r: Self)
        ensures
            r.closure() == closure,
            r.str_log() == Seq::<Seq<u8>>::empty(),
    {
        WriteStringFn { closure, log: Ghost(Seq::empty()) }
    }
}

impl<F, R> WriteStr for WriteStringFn<F, R> where F: FnMut(String) -> R {
    type Output = R;

    closed spec fn str_log(&self) -> Seq<Seq<u8>> {
        self.log@
    }

    open spec fn str_pre(&self, text: Seq<char>) -> bool {
        forall|s: String| s@ == text ==> #[trigger] call_requires(self.closure(), (s,))
    }

    open spec fn str_post(&self, text: Seq<char>, out: R) -> bool {
        exists|s: String| s@ == text && #[trigger] call_ensures(self.closure(), (s,), out)
    }

    fn write_str(&mut self, buf: &str) -> (r: R) {
        let owned = String::from_str(buf);
        assert(call_requires(self.closure(), (owned,)));
        let r = (self.closure)(owned);
        self.log = Ghost(self.log@.push(encode_utf8(buf@)));
        assert(self.closure() == old(self).closure());
        r
    }
}

/// A wrapper for write functions that take a C string: `FnMut(&[u8]) -> R`,
/// where the slice holds the written bytes followed by one NUL.
///
/// It implements `WriteBytes` and `WriteStr`. It does not accept a buffer
/// that holds a NUL byte: `TryWriteCStrFn` reports that as an error instead.
#[derive(Clone, Copy)]
#[verifier::reject_recursive_types(R)]
pub struct WriteCStrFn<F, R> where F: FnMut(&[u8]) -> R {
    closure: F,
    log: Ghost<Seq<Seq<u8>>>,
}

impl<F, R> WriteCStrFn<F, R> where F: FnMut(&[u8]) -> R {
    /// The wrapped closure or function.
    pub closed spec fn closure(&self) -> F {
        self.closure
    }

    /// Creates a new `WriteCStrFn` containing the given closure or function.
    pub fn new(closure: F) -> (r: Self)
        ensures
            r.closure() == closure,
            r.bytes_log() == Seq::<Seq<u8>>::empty(),
    {
        WriteCStrFn { closure, log: Ghost(Seq::empty()) }
    }
}

impl<F, R> WriteBytes for WriteCStrFn<F, R> where F: FnMut(&[u8]) -> R {
    type Output = R;

    closed spec fn bytes_log(&self) -> Seq<Seq<u8>> {
        self.log@
    }

    open spec fn bytes_pre(&self, buf: Seq<u8>) -> bool {
        &&& has_no_nul(buf)
        &&& forall|s: &[u8]| s@ == c_bytes(buf) ==> #[trigger] call_requires(self.closure(), (s,))
    }

    open spec fn bytes_post(&self, buf: Seq<u8>, out: R) -> bool {
        exists|s: &[u8]| s@ == c_bytes(buf) && #[trigger] call_ensures(self.closure(), (s,), out)
    }

    fn write_bytes(&mut self, buf: &[u8]) -> (r: R) {
        let c = to_c_bytes(buf);
        let cs = c.as_slice();
        assert(call_requires(self.closure(), (cs,)));
        let r = (self.closure)(cs);
        self.log = Ghost(self.log@.push(buf@));
        assert(self.closure() == old(self).closure());
        r
    }
}

impl<F, R> WriteStrAsBytes for WriteCStrFn<F, R> where F: FnMut(&[u8]) -> R {

}

/// A wrapper for write functions that take a C string, like `WriteCStrFn`,
/// whose output is `Result<R, NulError>`: a buffer that holds a NUL byte
/// gives an error that names the first one, and the primitive is not called.
#[derive(Clone, Copy)]
#[verifier::reject_recursive_types(R)]
pub struct TryWriteCStrFn<F, R> where F: FnMut(&[u8]) -> R {
    closure: F,
    log: Ghost<Seq<Seq<u8>>>,
}

impl<F, R> TryWriteCStrFn<F, R> where F: FnMut(&[u8]) -> R {
    /// The wrapped closure or function.
    pub closed spec fn closure(&self) -> F {
        self.closure
    }

    /// Creates a new `TryWriteCStrFn` containing the given closure or function.
    pub fn new(closure: F) -> (r: Self)
        ensures
            r.closure() == closure,
            r.bytes_log() == Seq::<Seq<u8>>::empty(),
    {
        TryWriteCStrFn { closure, log: Ghost(Seq::empty()) }
    }
}

impl<F, R> WriteBytes for TryWriteCStrFn<F, R> where F: FnMut(&[u8]) -> R {
    type Output = Result<R, NulError>;

    closed spec fn bytes_log(&self) -> Seq<Seq<u8>> {
        self.log@
    }

    open spec fn bytes_pre(&self, buf: Seq<u8>) -> bool {
        has_no_nul(buf) ==> forall|s: &[u8]|
            s@ == c_bytes(buf) ==> #[trigger] call_requires(self.closure(), (s,))
    }

    open spec fn bytes_post(&self, buf: Seq<u8>, out: Result<R, NulError>) -> bool {
        if has_no_nul(buf) {
            &&& out is Ok
            &&& exists|s: &[u8]|
                s@ == c_bytes(buf) && #[trigger] call_ensures(self.closure(), (s,), out->Ok_0)
        } else {
            &&& out is Err
            &&& is_first_nul(buf, out->Err_0.spec_position() as int)
            &&& out->Err_0.spec_bytes() == buf
        }
    }

    fn write_bytes(&mut self, buf: &[u8]) -> (r: Result<R, NulError>) {
        let r = match find_nul(buf) {
            Some(k) => {
                let e = NulError::new(k, buf);
                assert(!has_no_nul(buf@));
                Err(e)
            },
            None => {
                let c = to_c_bytes(buf);
                let cs = c.as_slice();
                assert(call_requires(self.closure(), (cs,)));
                let v = (self.closure)(cs);
                let ghost o: Result<R, NulError> = Ok(v);
                assert(call_ensures(old(self).closure(), (cs,), o->Ok_0));
                Ok(v)
            },
        };
        self.log = Ghost(self.log@.push(buf@));
        assert(self.closure() == old(self).closure());
        r
    }
}

impl<F, R> WriteStrAsBytes for TryWriteCStrFn<F, R> where F: FnMut(&[u8]) -> R {

}

} // verus!
