use vstd::prelude::*;

use crate::incremental::{is_suffix_of, is_write_all_run, is_write_pieces_run, splits_into_runs};
use crate::write_bytes::WriteBytes;

verus! {

/// Whether every call of `w` writes `cap` bytes, or the whole buffer when it
/// holds fewer, and reports so.
pub open spec fn writes_at_most<W: WriteBytes<Output = std::io::Result<usize>>>(w: W, cap: nat) -> bool {
    forall|b: Seq<u8>, o: std::io::Result<usize>| #[trigger]
        w.bytes_post(b, o) ==> o is Ok && o->Ok_0 == (if b.len() < cap { b.len() } else { cap })
}

/// Whether every call of `w` on a non-empty buffer reports zero bytes written.
pub open spec fn never_progresses<W: WriteBytes<Output = std::io::Result<usize>>>(w: W) -> bool {
    forall|b: Seq<u8>, o: std::io::Result<usize>| #[trigger]
        w.bytes_post(b, o) && b.len() > 0 ==> o is Ok && o->Ok_0 == 0
}

/// The part of each call's buffer that the call consumed: all of it but what
/// the next call was given.
pub open spec fn consumed(calls: Seq<Seq<u8>>) -> Seq<Seq<u8>> {
    Seq::new(
        calls.len(),
        |j: int|
            if j + 1 < calls.len() {
                calls[j].take(calls[j].len() - calls[j + 1].len())
            } else {
                calls[j]
            },
    )
}

proof fn lemma_capped_lengths<W: WriteBytes<Output = std::io::Result<usize>>>(
    w: W,
    buf: Seq<u8>,
    calls: Seq<Seq<u8>>,
    cap: nat,
    j: int,
)
    requires
        cap > 0,
        buf.len() <= usize::MAX,
        writes_at_most(w, cap),
        is_write_all_run(w, buf, calls, true),
        0 <= j < calls.len(),
    ensures
        calls[j].len() == buf.len() - j * cap,
    decreases j,
{
    reveal(is_write_all_run);
    if j > 0 {
        lemma_capped_lengths(w, buf, calls, cap, j - 1);
        let prev = calls[j - 1];
        assert(is_suffix_of(prev, buf));
        assert(w.bytes_post(prev, Ok((prev.len() - calls[j].len()) as usize)));
        assert(calls[j].len() < prev.len());
        assert(prev.len() - calls[j].len() == cap) by {
            if prev.len() < cap {
                assert(prev.len() - calls[j].len() == prev.len());
            }
        }
        assert((j - 1) * cap + cap == j * cap) by (nonlinear_arith);
    } else {
        assert(calls[0] == buf);
        assert(j * cap == 0) by (nonlinear_arith)
            requires
                j == 0,
        ;
    }
}

/// An incremental write of a non-empty buffer to a write function that takes
/// at most `cap` bytes a call makes ceil(len / cap) calls; the `j`-th call gets
/// the buffer without its first `j * cap` bytes, the suffix that the calls
/// before it left.
pub proof fn lemma_capped_write_calls<W: WriteBytes<Output = std::io::Result<usize>>>(
    w: W,
    buf: Seq<u8>,
    calls: Seq<Seq<u8>>,
    cap: nat,
)
    requires
        cap > 0,
        0 < buf.len() <= usize::MAX,
        writes_at_most(w, cap),
        is_write_all_run(w, buf, calls, true),
    ensures
        calls.len() == (buf.len() + cap - 1) / cap as int,
        forall|j: int| 0 <= j < calls.len() ==> #[trigger] calls[j] == buf.subrange(j * cap, buf.len() as int),
{
    reveal(is_write_all_run);
    let m = calls.len() as int;
    assert(m > 0);
    assert forall|j: int| 0 <= j < calls.len() implies #[trigger] calls[j] == buf.subrange(
        j * cap,
        buf.len() as int,
    ) by {
        lemma_capped_lengths(w, buf, calls, cap, j);
        assert(is_suffix_of(calls[j], buf));
    }
    lemma_capped_lengths(w, buf, calls, cap, m - 1);
    let last = calls.last();
    assert(is_suffix_of(last, buf));
    assert(w.bytes_post(last, Ok(last.len() as usize)));
    assert(last.len() <= cap);
    assert(last.len() > 0);
    let l = buf.len() as int;
    let c = cap as int;
    assert(l - (m - 1) * c > 0 && l - (m - 1) * c <= c);
    assert((l + c - 1) / c == m) by (nonlinear_arith)
        requires
            c > 0,
            l - (m - 1) * c > 0,
            l - (m - 1) * c <= c,
    {
        assert(l + c - 1 == (m * c) + (l - (m - 1) * c - 1));
        assert(0 <= l - (m - 1) * c - 1 < c);
    }
}

/// An incremental write that reached the end of its buffer consumed it
/// exactly: what its calls consumed, joined in order, is the buffer.
pub proof fn lemma_write_all_reassembles<W: WriteBytes<Output = std::io::Result<usize>>>(
    w: W,
    buf: Seq<u8>,
    calls: Seq<Seq<u8>>,
)
    requires
        is_write_all_run(w, buf, calls, true),
    ensures
        consumed(calls).flatten_alt() == buf,
{
    reveal(is_write_all_run);
    if calls.len() == 0 {
        assert(consumed(calls).flatten_alt() =~= buf);
    } else {
        lemma_consumed_prefix(buf, calls, calls.len() as int);
        assert(calls.last().len() > 0);
        assert(calls.take(calls.len() as int) =~= calls);
    }
}

proof fn lemma_consumed_prefix(buf: Seq<u8>, calls: Seq<Seq<u8>>, n: int)
    requires
        0 < n <= calls.len(),
        calls[0] == buf,
        forall|j: int| 0 <= j < calls.len() ==> is_suffix_of(#[trigger] calls[j], buf),
        forall|j: int| 0 <= j < calls.len() - 1 ==> calls[j + 1].len() < #[trigger] calls[j].len(),
    ensures
        consumed(calls).take(n - 1).flatten_alt() + calls[n - 1] == buf,
    decreases n,
{
    if n == 1 {
        assert(consumed(calls).take(0).flatten_alt() =~= Seq::<u8>::empty());
        assert(Seq::<u8>::empty() + calls[0] =~= buf);
    } else {
        lemma_consumed_prefix(buf, calls, n - 1);
        let a = calls[n - 2];
        let b = calls[n - 1];
        assert(is_suffix_of(a, buf));
        assert(is_suffix_of(b, buf));
        let head = consumed(calls).take(n - 2).flatten_alt();
        assert(consumed(calls).take(n - 1).drop_last() =~= consumed(calls).take(n - 2));
        assert(consumed(calls)[n - 2] == a.take(a.len() - b.len()));
        assert(a.take(a.len() - b.len()) + b =~= a);
        assert(consumed(calls).take(n - 1).flatten_alt() == head + a.take(a.len() - b.len()));
        assert(head + a.take(a.len() - b.len()) + b =~= head + (a.take(a.len() - b.len()) + b));
    }
}

/// An incremental write of a non-empty buffer to a write function that never
/// makes progress fails, after exactly one call with the whole buffer.
pub proof fn lemma_stalled_write_fails<W: WriteBytes<Output = std::io::Result<usize>>>(
    w: W,
    buf: Seq<u8>,
    calls: Seq<Seq<u8>>,
    done: bool,
)
    requires
        0 < buf.len() <= usize::MAX,
        never_progresses(w),
        is_write_all_run(w, buf, calls, done),
    ensures
        !done,
        calls == seq![buf],
{
    reveal(is_write_all_run);
    assert(calls.len() > 0);
    assert(is_suffix_of(calls[0], buf));
    assert(is_suffix_of(calls.last(), buf));
    if calls.len() > 1 {
        assert(is_suffix_of(calls[1], buf));
        assert(w.bytes_post(calls[0], Ok((calls[0].len() - calls[1].len()) as usize)));
    }
    assert(calls =~= seq![buf]);
    if done {
        assert(w.bytes_post(calls.last(), Ok(calls.last().len() as usize)));
    }
}

/// How many calls incremental writes of each of `pieces` in turn make to a
/// write function that takes at most `cap` bytes a call: ceil(len / cap) each.
pub open spec fn capped_call_count(pieces: Seq<Seq<u8>>, cap: nat) -> int
    decreases pieces.len(),
{
    if pieces.len() == 0 {
        0
    } else {
        capped_call_count(pieces.drop_last(), cap) + (pieces.last().len() + cap - 1) / cap as int
    }
}

proof fn lemma_capped_run_len<W: WriteBytes<Output = std::io::Result<usize>>>(
    w: W,
    buf: Seq<u8>,
    calls: Seq<Seq<u8>>,
    cap: nat,
)
    requires
        cap > 0,
        buf.len() <= usize::MAX,
        writes_at_most(w, cap),
        is_write_all_run(w, buf, calls, true),
    ensures
        calls.len() == (buf.len() + cap - 1) / cap as int,
{
    if buf.len() > 0 {
        lemma_capped_write_calls(w, buf, calls, cap);
    } else {
        reveal(is_write_all_run);
        if calls.len() > 0 {
            assert(calls[0].len() > 0);
        }
        assert((cap - 1) / cap as int == 0) by (nonlinear_arith)
            requires
                cap > 0,
        ;
    }
}

/// Writing formatted text incrementally, fragment by fragment, to a write
/// function that takes at most `cap` bytes a call makes ceil(len / cap) calls
/// for each fragment, in order: `capped_call_count` in all.
pub proof fn lemma_capped_pieces_calls<W: WriteBytes<Output = std::io::Result<usize>>>(
    w: W,
    pieces: Seq<Seq<u8>>,
    calls: Seq<Seq<u8>>,
    cap: nat,
)
    requires
        cap > 0,
        forall|i: int| 0 <= i < pieces.len() ==> #[trigger] pieces[i].len() <= usize::MAX,
        writes_at_most(w, cap),
        is_write_pieces_run(w, pieces, calls),
    ensures
        calls.len() == capped_call_count(pieces, cap),
    decreases pieces.len(),
{
    let run = |p: Seq<u8>, c: Seq<Seq<u8>>| is_write_all_run(w, p, c, true);
    assert(splits_into_runs(pieces, calls, run));
    if pieces.len() > 0 {
        let k = choose|k: int|
            0 <= k <= calls.len() && splits_into_runs(pieces.drop_last(), #[trigger] calls.take(k), run)
                && run(pieces.last(), calls.skip(k));
        assert(is_write_pieces_run(w, pieces.drop_last(), calls.take(k)));
        lemma_capped_pieces_calls(w, pieces.drop_last(), calls.take(k), cap);
        assert(pieces.last() == pieces[pieces.len() - 1]);
        lemma_capped_run_len(w, pieces.last(), calls.skip(k), cap);
    }
}

} // verus!
