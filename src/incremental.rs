use vstd::prelude::*;
use vstd::utf8::encode_utf8;

use crate::fragments::encoded;
use crate::std_errors::{is_interrupted, write_zero_error};
use crate::write_bytes::WriteBytes;

verus! {

/// Why an incremental write stopped before the end of its buffer.
#[derive(Debug)]
pub struct WriteAllError {
    /// How many bytes of the buffer had been written.
    pub written: usize,
    /// What stopped it.
    pub error: std::io::Error,
    /// Whether that is an error of kind `Interrupted`, returned by the write
    /// function: writing the rest again may then succeed.
    pub interrupted: bool,
}

/// Whether `s` is a suffix of `buf`.
pub open spec fn is_suffix_of(s: Seq<u8>, buf: Seq<u8>) -> bool {
    s.len() <= buf.len() && s == buf.subrange(buf.len() - s.len(), buf.len() as int)
}

/// Whether `calls` are the buffers that an incremental write of `buf` handed
/// to `w`, and `done` tells whether the write reached the end of `buf`.
///
/// The first call gets the whole buffer and each later call the suffix that
/// the call before left unconsumed; every call but the last consumed part of
/// its buffer, as its reported count says. A write that reached the end had
/// its last call consume the rest (or made no call, for an empty buffer); one
/// that did not had its last call report zero bytes or an error.
#[verifier::opaque]
pub open spec fn is_write_all_run<W: WriteBytes<Output = std::io::Result<usize>>>(
    w: W,
    buf: Seq<u8>,
    calls: Seq<Seq<u8>>,
    done: bool,
) -> bool {
    &&& calls.len() > 0 ==> calls[0] == buf
    &&& forall|j: int|
        0 <= j < calls.len() ==> is_suffix_of(#[trigger] calls[j], buf) && calls[j].len() > 0
    &&& forall|j: int|
        0 <= j < calls.len() - 1 ==> {
            &&& calls[j + 1].len() < #[trigger] calls[j].len()
            &&& w.bytes_post(calls[j], Ok((calls[j].len() - calls[j + 1].len()) as usize))
        }
    &&& done ==> if calls.len() == 0 {
        buf.len() == 0
    } else {
        w.bytes_post(calls.last(), Ok(calls.last().len() as usize))
    }
    &&& !done ==> {
        &&& calls.len() > 0
        &&& w.bytes_post(calls.last(), Ok(0)) || exists|e: std::io::Error|
            #[trigger] w.bytes_post(calls.last(), Err(e))
    }
}

/// Whether `w` never reports more bytes written than it was given.
pub open spec fn reports_at_most_given<W: WriteBytes<Output = std::io::Result<usize>>>(w: W) -> bool {
    forall|b: Seq<u8>, n: usize| #[trigger] w.bytes_post(b, Ok(n)) ==> n <= b.len()
}

/// Whether `w` accepts every non-empty suffix of `buf`.
pub open spec fn accepts_suffixes<W: WriteBytes<Output = std::io::Result<usize>>>(
    w: W,
    buf: Seq<u8>,
) -> bool {
    forall|b: Seq<u8>| is_suffix_of(b, buf) && b.len() > 0 ==> #[trigger] w.bytes_pre(b)
}

/// Whether `a` and `b` accept the same buffers and may give the same outputs.
pub open spec fn same_contract<W: WriteBytes>(a: W, b: W) -> bool {
    &&& forall|s: Seq<u8>| #[trigger] a.bytes_pre(s) == b.bytes_pre(s)
    &&& forall|s: Seq<u8>, o: W::Output| #[trigger] a.bytes_post(s, o) == b.bytes_post(s, o)
}

proof fn lemma_push_take_skip(log: Seq<Seq<u8>>, x: Seq<u8>, start: int)
    requires
        0 <= start <= log.len(),
    ensures
        log.push(x).take(start) == log.take(start),
        log.push(x).skip(start) == log.skip(start).push(x),
{
    assert(log.push(x).take(start) =~= log.take(start));
    assert(log.push(x).skip(start) =~= log.skip(start).push(x));
}

/// Writes all of `buf` to `w`, calling it again with the unconsumed suffix
/// after each partial write.
///
/// A call that reports zero bytes written ends the write with a `WriteZero`
/// error; an error from `w` ends it too and is handed back, marked when it is
/// of kind `Interrupted`. Either way `written` tells how much of `buf` went
/// through, so that an interrupted write can go on from there.
pub fn write_all<W: WriteBytes<Output = std::io::Result<usize>>>(w: &mut W, buf: &[u8]) -> (r:
    Result<(), WriteAllError>)
    requires
        accepts_suffixes(*old(w), buf@),
        reports_at_most_given(*old(w)),
    ensures
        same_contract(*final(w), *old(w)),
        final(w).bytes_log().len() >= old(w).bytes_log().len(),
        final(w).bytes_log().take(old(w).bytes_log().len() as int) == old(w).bytes_log(),
        is_write_all_run(
            *old(w),
            buf@,
            final(w).bytes_log().skip(old(w).bytes_log().len() as int),
            r is Ok,
        ),
        r matches Err(f) ==> {
            let last = final(w).bytes_log().last();
            &&& f.written + last.len() == buf@.len()
            &&& old(w).bytes_post(last, Err(f.error)) || (old(w).bytes_post(last, Ok(0))
                && !f.interrupted)
        },
{
    let ghost start = old(w).bytes_log().len() as int;
    let mut pos: usize = 0;
    let mut failure: Option<WriteAllError> = None;
    while pos < buf.len() && failure.is_none()
        invariant
            0 <= pos <= buf@.len(),
            start == old(w).bytes_log().len(),
            same_contract(*w, *old(w)),
            accepts_suffixes(*old(w), buf@),
            reports_at_most_given(*old(w)),
            w.bytes_log().len() >= start,
            w.bytes_log().take(start) == old(w).bytes_log(),
            ({
                let calls = w.bytes_log().skip(start);
                &&& calls.len() > 0 ==> calls[0] == buf@
                &&& forall|j: int|
                    0 <= j < calls.len() ==> is_suffix_of(#[trigger] calls[j], buf@)
                        && calls[j].len() > 0
                &&& forall|j: int|
                    0 <= j < calls.len() - 1 ==> {
                        &&& calls[j + 1].len() < #[trigger] calls[j].len()
                        &&& old(w).bytes_post(
                            calls[j],
                            Ok((calls[j].len() - calls[j + 1].len()) as usize),
                        )
                    }
                &&& calls.len() == 0 ==> pos == 0 && failure is None
                &&& calls.len() > 0 && failure is None ==> {
                    &&& calls.last().len() > buf@.len() - pos
                    &&& old(w).bytes_post(
                        calls.last(),
                        Ok((calls.last().len() - (buf@.len() - pos)) as usize),
                    )
                }
                &&& failure is Some ==> {
                    &&& calls.len() > 0
                    &&& failure->Some_0.written + calls.last().len() == buf@.len()
                    &&& old(w).bytes_post(calls.last(), Err(failure->Some_0.error)) || (
                    old(w).bytes_post(calls.last(), Ok(0)) && !failure->Some_0.interrupted)
                }
            }),
        decreases buf@.len() - pos + (if failure is None { 1int } else { 0int }),
    {
        let ghost log0 = w.bytes_log();
        let ghost prev = log0.skip(start);
        let rest = vstd::slice::slice_subrange(buf, pos, buf.len());
        assert(is_suffix_of(rest@, buf@));
        let out = w.write_bytes(rest);
        assert(w.bytes_log() == log0.push(rest@));
        let ghost calls = w.bytes_log().skip(start);
        proof {
            lemma_push_take_skip(log0, rest@, start);
        }
        assert(forall|j: int| 0 <= j < calls.len() - 1 ==> calls[j] == prev[j]);
        assert(old(w).bytes_post(rest@, out));
        match out {
            Ok(n) => {
                if n == 0 {
                    failure = Some(
                        WriteAllError {
                            written: pos,
                            error: write_zero_error("failed to write whole buffer"),
                            interrupted: false,
                        },
                    );
                } else {
                    assert(n <= rest@.len());
                    pos = pos + n;
                }
            },
            Err(e) => {
                assert(old(w).bytes_post(calls.last(), Err(e)));
                let interrupted = is_interrupted(&e);
                failure = Some(WriteAllError { written: pos, error: e, interrupted });
            },
        }
    }
    proof {
        reveal(is_write_all_run);
    }
    match failure {
        Some(f) => Err(f),
        None => Ok(()),
    }
}

/// Whether `calls` split, in order, into one stretch per piece of `pieces`,
/// each of which `run` accepts for its piece.
pub open spec fn splits_into_runs(
    pieces: Seq<Seq<u8>>,
    calls: Seq<Seq<u8>>,
    run: spec_fn(Seq<u8>, Seq<Seq<u8>>) -> bool,
) -> bool
    decreases pieces.len(),
{
    if pieces.len() == 0 {
        calls.len() == 0
    } else {
        exists|k: int|
            0 <= k <= calls.len() && splits_into_runs(pieces.drop_last(), #[trigger] calls.take(k), run)
                && run(pieces.last(), calls.skip(k))
    }
}

/// Whether `calls` are the buffers that incremental writes of each of
/// `pieces` in turn handed to `w`, every one of which reached its end.
pub open spec fn is_write_pieces_run<W: WriteBytes<Output = std::io::Result<usize>>>(
    w: W,
    pieces: Seq<Seq<u8>>,
    calls: Seq<Seq<u8>>,
) -> bool {
    splits_into_runs(pieces, calls, |p: Seq<u8>, c: Seq<Seq<u8>>| is_write_all_run(w, p, c, true))
}

proof fn lemma_run_same_contract<W: WriteBytes<Output = std::io::Result<usize>>>(
    a: W,
    b: W,
    buf: Seq<u8>,
    calls: Seq<Seq<u8>>,
    done: bool,
)
    requires
        same_contract(a, b),
        is_write_all_run(a, buf, calls, done),
    ensures
        is_write_all_run(b, buf, calls, done),
{
    reveal(is_write_all_run);
    if !done {
        if !a.bytes_post(calls.last(), Ok(0)) {
            let e = choose|e: std::io::Error| #[trigger] a.bytes_post(calls.last(), Err(e));
            assert(b.bytes_post(calls.last(), Err(e)));
        }
    }
}

proof fn lemma_log_extends(log0: Seq<Seq<u8>>, log1: Seq<Seq<u8>>, start: int)
    requires
        0 <= start <= log0.len() <= log1.len(),
        log1.take(log0.len() as int) == log0,
    ensures
        log1.take(start) == log0.take(start),
        log1.skip(start) == log0.skip(start) + log1.skip(log0.len() as int),
        log1.skip(start).take(log0.len() - start) == log0.skip(start),
        log1.skip(start).skip(log0.len() - start) == log1.skip(log0.len() as int),
{
    assert(log1.take(start) =~= log1.take(log0.len() as int).take(start));
    assert(log1.skip(start) =~= log0.skip(start) + log1.skip(log0.len() as int));
    assert(log1.skip(start).take(log0.len() - start) =~= log0.skip(start));
    assert(log1.skip(start).skip(log0.len() - start) =~= log1.skip(log0.len() as int));
}

proof fn lemma_splits_step(
    pieces: Seq<Seq<u8>>,
    i: int,
    prev: Seq<Seq<u8>>,
    fresh: Seq<Seq<u8>>,
    run: spec_fn(Seq<u8>, Seq<Seq<u8>>) -> bool,
)
    requires
        0 <= i < pieces.len(),
        splits_into_runs(pieces.take(i), prev, run),
        run(pieces[i], fresh),
    ensures
        splits_into_runs(pieces.take(i + 1), prev + fresh, run),
{
    let all = prev + fresh;
    let longer = pieces.take(i + 1);
    let k = prev.len() as int;
    assert(longer.drop_last() =~= pieces.take(i));
    assert(longer.last() == pieces[i]);
    assert(all.take(k) =~= prev);
    assert(all.skip(k) =~= fresh);
    assert(splits_into_runs(longer.drop_last(), all.take(k), run));
}

proof fn lemma_pieces_step<W: WriteBytes<Output = std::io::Result<usize>>>(
    w: W,
    pieces: Seq<Seq<u8>>,
    i: int,
    prev: Seq<Seq<u8>>,
    fresh: Seq<Seq<u8>>,
)
    requires
        0 <= i < pieces.len(),
        is_write_pieces_run(w, pieces.take(i), prev),
        is_write_all_run(w, pieces[i], fresh, true),
    ensures
        is_write_pieces_run(w, pieces.take(i + 1), prev + fresh),
{
    lemma_splits_step(
        pieces,
        i,
        prev,
        fresh,
        |p: Seq<u8>, c: Seq<Seq<u8>>| is_write_all_run(w, p, c, true),
    );
}

/// Where an incremental write of formatted text stands: at byte `offset` of
/// the UTF-8 encoding of fragment number `fragment`.
#[derive(Clone, Copy, Debug, PartialEq, Eq, Structural)]
pub struct Progress {
    /// The index of the fragment.
    pub fragment: usize,
    /// How many bytes of that fragment were written.
    pub offset: usize,
}

/// Why an incremental write of formatted text stopped before its end.
#[derive(Debug)]
pub struct WriteFmtStop {
    /// Where it stopped: the next call would get the rest from there on.
    pub at: Progress,
    /// What stopped it.
    pub error: std::io::Error,
    /// Whether that is an error of kind `Interrupted`, returned by the write
    /// function: writing again from `at` may then succeed.
    pub interrupted: bool,
}

/// Whether `at` is a position in `fragments`: inside the encoding of one of
/// them, or just past the last one.
pub open spec fn is_position_in(fragments: Seq<&str>, at: Progress) -> bool {
    &&& at.fragment <= fragments.len()
    &&& at.fragment < fragments.len() ==> at.offset <= encode_utf8(fragments[at.fragment as int]@).len()
    &&& at.fragment == fragments.len() ==> at.offset == 0
}

/// The byte pieces that are left to write from position `from` on: the rest
/// of the fragment it is in, then each later fragment whole.
pub open spec fn pieces_from(fragments: Seq<&str>, from: Progress) -> Seq<Seq<u8>> {
    Seq::new(
        (fragments.len() - from.fragment) as nat,
        |k: int|
            if k == 0 {
                encode_utf8(fragments[from.fragment as int]@).skip(from.offset as int)
            } else {
                encode_utf8(fragments[from.fragment + k]@)
            },
    )
}

proof fn lemma_stop_suffix<W: WriteBytes<Output = std::io::Result<usize>>>(
    w: W,
    bytes: Seq<u8>,
    base: int,
    fresh: Seq<Seq<u8>>,
    written: int,
)
    requires
        0 <= base <= bytes.len(),
        is_write_all_run(w, bytes.skip(base), fresh, false),
        fresh.len() > 0 ==> written + fresh.last().len() == bytes.len() - base,
    ensures
        fresh.len() > 0,
        fresh.last() == bytes.skip(base + written),
{
    reveal(is_write_all_run);
    let last = fresh.last();
    assert(is_suffix_of(last, bytes.skip(base)));
    assert(last =~= bytes.skip(base + written));
}

/// From the start, what is left to write is every fragment, whole.
pub proof fn lemma_pieces_from_start(fragments: Seq<&str>)
    ensures
        pieces_from(fragments, Progress { fragment: 0, offset: 0 }) == encoded(fragments),
{
    let start = Progress { fragment: 0, offset: 0 };
    assert forall|i: int| 0 <= i < fragments.len() implies #[trigger] pieces_from(fragments, start)[i]
        == encoded(fragments)[i] by {
        if i == 0 {
            assert(encode_utf8(fragments[0]@).skip(0) =~= encode_utf8(fragments[0]@));
        }
    }
    assert(pieces_from(fragments, start) =~= encoded(fragments));
}

proof fn lemma_accepts_skip<W: WriteBytes<Output = std::io::Result<usize>>>(
    w: W,
    buf: Seq<u8>,
    off: int,
)
    requires
        accepts_suffixes(w, buf),
        0 <= off <= buf.len(),
    ensures
        accepts_suffixes(w, buf.skip(off)),
{
    assert forall|b: Seq<u8>| is_suffix_of(b, buf.skip(off)) && b.len() > 0 implies #[trigger] w.bytes_pre(b) by {
        let rest = buf.skip(off);
        assert(rest.subrange(rest.len() - b.len(), rest.len() as int) =~= buf.subrange(
            buf.len() - b.len(),
            buf.len() as int,
        ));
        assert(is_suffix_of(b, buf));
    }
}

/// Writes formatted text, given as the formatter's fragments, to `w` from
/// position `from` on: an incremental write of what is left of each fragment's
/// UTF-8 encoding in turn, up to the first one that does not reach its end.
///
/// On a stop, `at` tells where the write stood, so that a write stopped by an
/// interruption can go on from there: the first call of that next write gets
/// the very suffix that the interrupted call got.
pub fn write_fragments<W: WriteBytes<Output = std::io::Result<usize>>>(
    w: &mut W,
    fragments: &[&str],
    from: Progress,
) -> (r: Result<(), WriteFmtStop>)
    requires
        is_position_in(fragments@, from),
        forall|i: int|
            0 <= i < fragments@.len() ==> accepts_suffixes(*old(w), encode_utf8(#[trigger] fragments@[i]@)),
        reports_at_most_given(*old(w)),
    ensures
        same_contract(*final(w), *old(w)),
        final(w).bytes_log().len() >= old(w).bytes_log().len(),
        final(w).bytes_log().take(old(w).bytes_log().len() as int) == old(w).bytes_log(),
        ({
            let calls = final(w).bytes_log().skip(old(w).bytes_log().len() as int);
            let pieces = pieces_from(fragments@, from);
            &&& r is Ok ==> is_write_pieces_run(*old(w), pieces, calls)
            &&& r matches Err(stop) ==> exists|i: int, k: int| {
                &&& 0 <= i < pieces.len()
                &&& 0 <= k <= calls.len()
                &&& stop.at.fragment == from.fragment + i
                &&& #[trigger] is_write_pieces_run(*old(w), pieces.take(i), calls.take(k))
                &&& is_write_all_run(*old(w), pieces[i], calls.skip(k), false)
            }
            &&& r matches Err(stop) ==> {
                &&& calls.len() > 0
                &&& from.fragment <= stop.at.fragment < fragments@.len()
                &&& stop.at.offset + calls.last().len() == encode_utf8(
                    fragments@[stop.at.fragment as int]@,
                ).len()
                &&& calls.last() == encode_utf8(fragments@[stop.at.fragment as int]@).skip(
                    stop.at.offset as int,
                )
                &&& old(w).bytes_post(calls.last(), Err(stop.error)) || (old(w).bytes_post(
                    calls.last(),
                    Ok(0),
                ) && !stop.interrupted)
            }
        }),
{
    let ghost start = old(w).bytes_log().len() as int;
    let ghost pieces = pieces_from(fragments@, from);
    let first = from.fragment;
    let mut i: usize = first;
    assert(pieces.take(0) =~= Seq::<Seq<u8>>::empty());
    assert(w.bytes_log().skip(start) =~= Seq::<Seq<u8>>::empty());
    while i < fragments.len()
        invariant
            first == from.fragment,
            first <= i <= fragments@.len(),
            is_position_in(fragments@, from),
            start == old(w).bytes_log().len(),
            pieces == pieces_from(fragments@, from),
            same_contract(*w, *old(w)),
            forall|j: int|
                0 <= j < fragments@.len() ==> accepts_suffixes(*old(w), encode_utf8(#[trigger] fragments@[j]@)),
            reports_at_most_given(*old(w)),
            w.bytes_log().len() >= start,
            w.bytes_log().take(start) == old(w).bytes_log(),
            is_write_pieces_run(*old(w), pieces.take(i - first), w.bytes_log().skip(start)),
        decreases fragments@.len() - i,
    {
        let ghost w0 = *w;
        let ghost prev = w.bytes_log().skip(start);
        let fragment: &str = fragments[i];
        let bytes = fragment.as_bytes();
        let base: usize = if i == first { from.offset } else { 0 };
        let piece = vstd::slice::slice_subrange(bytes, base, bytes.len());
        proof {
            assert(bytes@ == encode_utf8(fragments@[i as int]@));
            assert(piece@ =~= bytes@.skip(base as int));
            assert(piece@ == pieces[i - first]);
            lemma_accepts_skip(*old(w), bytes@, base as int);
        }
        let out = write_all(w, piece);
        proof {
            let fresh = w.bytes_log().skip(w0.bytes_log().len() as int);
            lemma_run_same_contract(w0, *old(w), piece@, fresh, out is Ok);
            lemma_log_extends(w0.bytes_log(), w.bytes_log(), start);
            if out is Ok {
                lemma_pieces_step(*old(w), pieces, i - first, prev, fresh);
            }
        }
        match out {
            Ok(()) => {},
            Err(e) => {
                proof {
                    let fresh = w.bytes_log().skip(w0.bytes_log().len() as int);
                    lemma_stop_suffix(*old(w), bytes@, base as int, fresh, e.written as int);
                    assert(w.bytes_log().skip(start).take(prev.len() as int) == prev);
                    assert(w.bytes_log().skip(start).last() == fresh.last());
                }
                let stop = WriteFmtStop {
                    at: Progress { fragment: i, offset: base + e.written },
                    error: e.error,
                    interrupted: e.interrupted,
                };
                return Err(stop);
            },
        }
        i = i + 1;
    }
    assert(pieces.take(i - first) =~= pieces);
    Ok(())
}

} // verus!
