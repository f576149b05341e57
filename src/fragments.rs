use vstd::prelude::*;
use vstd::string::StringExecFns;
use vstd::utf8::encode_utf8;

verus! {

/// The text that the formatter's fragments make up: their concatenation, in order.
pub open spec fn text_of(fragments: Seq<&str>) -> Seq<char>
    decreases fragments.len(),
{
    if fragments.len() == 0 {
        Seq::empty()
    } else {
        text_of(fragments.drop_last()) + fragments.last()@
    }
}

/// The UTF-8 encoding of each fragment, in order.
pub open spec fn encoded(fragments: Seq<&str>) -> Seq<Seq<u8>> {
    fragments.map_values(|f: &str| encode_utf8(f@))
}

/// Concatenates the formatter's fragments into one owned string.
pub fn concat_fragments(fragments: &[&str]) -> (r: String)
    ensures
        r@ == text_of(fragments@),
{
    let mut s = String::new();
    let mut i: usize = 0;
    while i < fragments.len()
        invariant
            0 <= i <= fragments@.len(),
            s@ == text_of(fragments@.take(i as int)),
        decreases fragments@.len() - i,
    {
        s.append(fragments[i]);
        assert(fragments@.take(i as int + 1).drop_last() =~= fragments@.take(i as int));
        i = i + 1;
    }
    assert(fragments@.take(i as int) =~= fragments@);
    s
}

} // verus!
