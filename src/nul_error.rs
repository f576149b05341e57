use vstd::prelude::*;
use vstd::string::StringExecFns;

verus! {

/// Whether `buf` holds no NUL byte.
pub open spec fn has_no_nul(buf: Seq<u8>) -> bool {
    forall|i: int| 0 <= i < buf.len() ==> buf[i] != 0
}

/// Whether `k` is the position of the first NUL byte of `buf`.
pub open spec fn is_first_nul(buf: Seq<u8>, k: int) -> bool {
    &&& 0 <= k < buf.len()
    &&& buf[k] == 0
    &&& has_no_nul(buf.take(k))
}

/// The C-string form of `buf`: its bytes followed by one NUL.
pub open spec fn c_bytes(buf: Seq<u8>) -> Seq<u8> {
    buf.push(0)
}

/// The digit character for `d`, which is below ten.
pub open spec fn digit_char(d: nat) -> char {
    if d == 0 { '0' }
    else if d == 1 { '1' }
    else if d == 2 { '2' }
    else if d == 3 { '3' }
    else if d == 4 { '4' }
    else if d == 5 { '5' }
    else if d == 6 { '6' }
    else if d == 7 { '7' }
    else if d == 8 { '8' }
    else { '9' }
}

/// The decimal digits of `n`, most significant first, without sign or padding.
pub open spec fn decimal(n: nat) -> Seq<char>
    decreases n,
{
    if n < 10 {
        seq![digit_char(n)]
    } else {
        decimal(n / 10).push(digit_char(n % 10))
    }
}

/// Relies on `usize::to_string`, the `Display` impl of integers: the decimal
/// digits of `n`, without sign or padding.
#[verifier::external_body]
fn decimal_string(n: usize) -> (r: String)
    ensures
        r@ == decimal(n as nat),
{
    n.to_string()
}

/// The text that comes before the position in a `NulError` message.
pub open spec fn nul_message_prefix() -> Seq<char> {
    "nul byte found in provided data at position: "@
}

/// An error telling that a buffer meant for a C string holds an interior NUL byte.
#[derive(Clone, Debug, PartialEq, Eq)]
pub struct NulError {
    position: usize,
    bytes: Vec<u8>,
}

impl NulError {
    /// The position of the first NUL byte.
    pub closed spec fn spec_position(&self) -> nat {
        self.position as nat
    }

    /// The buffer that held it.
    pub closed spec fn spec_bytes(&self) -> Seq<u8> {
        self.bytes@
    }

    /// The error for `buf`, whose first NUL byte is at `position`.
    pub fn new(position: usize, buf: &[u8]) -> (r: NulError)
        ensures
            r.spec_position() == position,
            r.spec_bytes() == buf@,
    {
        NulError { position, bytes: vstd::slice::slice_to_vec(buf) }
    }

    /// Returns the position of the first NUL byte.
    pub fn nul_position(&self) -> (r: usize)
        ensures
            r == self.spec_position(),
    {
        self.position
    }

    /// Returns the buffer that held the NUL byte.
    pub fn into_vec(self) -> (r: Vec<u8>)
        ensures
            r@ == self.spec_bytes(),
    {
        self.bytes
    }

    /// Describes the error: "nul byte found in provided data at position: "
    /// followed by the position in decimal.
    pub fn message(&self) -> (r: String)
        ensures
            r@ == nul_message_prefix() + decimal(self.spec_position()),
    {
        let mut s = String::from_str("nul byte found in provided data at position: ");
        let digits = decimal_string(self.position);
        s.append(digits.as_str());
        s
    }
}

/// Finds the first NUL byte of `buf`.
pub fn find_nul(buf: &[u8]) -> (r: Option<usize>)
    ensures
        match r {
            Some(k) => is_first_nul(buf@, k as int),
            None => has_no_nul(buf@),
        },
{
    let mut i: usize = 0;
    while i < buf.len()
        invariant
            0 <= i <= buf@.len(),
            has_no_nul(buf@.take(i as int)),
        decreases buf@.len() - i,
    {
        if buf[i] == 0 {
            return Some(i);
        }
        assert(buf@.take(i as int + 1) =~= buf@.take(i as int).push(buf@[i as int]));
        i = i + 1;
    }
    assert(buf@.take(i as int) =~= buf@);
    None
}

/// Copies `buf` into a C string: its bytes followed by one NUL.
pub fn to_c_bytes(buf: &[u8]) -> (r: Vec<u8>)
    ensures
        r@ == c_bytes(buf@),
{
    let mut v = vstd::slice::slice_to_vec(buf);
    v.push(0u8);
    v
}

} // verus!
