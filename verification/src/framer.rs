//! Stream framer: owns the buffer of bytes received so far, splits complete
//! records off its front as chunks arrive, and keeps only the unconsumed
//! suffix.
//!
//! `frame_spec` is the mathematical model: what records a byte sequence
//! splits into, what remains, and whether its head is hopeless. `feed` is
//! proved against it, and the lemmas below state the framing laws: records
//! survive arbitrary chunk boundaries, an incomplete prefix is retained
//! unchanged, and a malformed head never recovers.

use vstd::prelude::*;

use crate::codec::{
    init_state, lemma_scan_complete_range, lemma_scan_prefix, lemma_scan_proper_prefix, scan,
    scan_record, ScanOutcome, ScanRes,
};

verus! {

/// The framing failure: the head of the buffer can never become a record.
#[derive(Debug, Clone, Copy, PartialEq, Eq, Structural)]
pub enum FramingError {
    Malformed,
}

/// Result of framing a byte sequence: the complete leading records in order,
/// the unconsumed remainder, and whether framing failed on the remainder's
/// head.
pub struct FrameOut {
    pub recs: Seq<Seq<u8>>,
    pub rest: Seq<u8>,
    pub bad: bool,
}

/// Split a byte sequence into its complete leading records and remainder.
pub open spec fn frame_spec(s: Seq<u8>) -> FrameOut
    decreases s.len(),
{
    match scan(s) {
        ScanRes::Complete(n) => if 1 <= n <= s.len() {
            let tail = frame_spec(s.skip(n));
            FrameOut { recs: seq![s.take(n)] + tail.recs, rest: tail.rest, bad: tail.bad }
        } else {
            // A complete scan always lands in 1..=s.len() (lemma_scan_complete_range);
            // this branch only satisfies the termination checker.
            FrameOut { recs: Seq::empty(), rest: s, bad: true }
        },
        ScanRes::Incomplete(_) => FrameOut { recs: Seq::empty(), rest: s, bad: false },
        ScanRes::Malformed => FrameOut { recs: Seq::empty(), rest: s, bad: true },
    }
}

/// `e` is exactly one complete encoded record: the scan completes precisely
/// at its end.
pub open spec fn wf_frame(e: Seq<u8>) -> bool {
    scan(e) == ScanRes::Complete(e.len() as int)
}

/// After successful framing, the remainder holds no further complete record:
/// its scan is still waiting for more bytes.
pub proof fn lemma_rest_incomplete(s: Seq<u8>)
    ensures
        !frame_spec(s).bad ==> scan(frame_spec(s).rest) is Incomplete,
    decreases s.len(),
{
    match scan(s) {
        ScanRes::Complete(n) => {
            if 1 <= n <= s.len() {
                lemma_rest_incomplete(s.skip(n));
            }
        },
        ScanRes::Incomplete(_) => {},
        ScanRes::Malformed => {},
    }
}

/// Framing distributes over appended input: the records of `s + t` are the
/// records of `s` followed by the records of `s`'s remainder extended by `t`;
/// and a framing failure in `s` persists in `s + t`.
pub proof fn lemma_frame_append(s: Seq<u8>, t: Seq<u8>)
    ensures
        ({
            let su = frame_spec(s);
            let tu = frame_spec(su.rest + t);
            let u = frame_spec(s + t);
            &&& (!su.bad ==> u.recs == su.recs + tu.recs)
            &&& (!su.bad ==> u.rest == tu.rest)
            &&& (!su.bad ==> u.bad == tu.bad)
            &&& (su.bad ==> u.bad)
        }),
    decreases s.len(),
{
    let su = frame_spec(s);
    let u = frame_spec(s + t);
    assert(s =~= (s + t).take(s.len() as int));
    lemma_scan_prefix(s, s + t, 0, init_state());
    match scan(s) {
        ScanRes::Complete(n) => {
            lemma_scan_complete_range(s, 0, init_state(), n);
            assert(scan(s + t) == ScanRes::Complete(n));
            assert((s + t).take(n) =~= s.take(n));
            assert((s + t).skip(n) =~= s.skip(n) + t);
            lemma_frame_append(s.skip(n), t);
            let su2 = frame_spec(s.skip(n));
            if !su.bad {
                let tu = frame_spec(su.rest + t);
                assert(su.rest == su2.rest);
                assert(u.recs == seq![s.take(n)] + (su2.recs + tu.recs));
                assert(seq![s.take(n)] + (su2.recs + tu.recs) =~= (seq![s.take(n)] + su2.recs)
                    + tu.recs);
            }
        },
        ScanRes::Incomplete(_) => {
            let tu = frame_spec(su.rest + t);
            assert(su.rest == s);
            assert(tu == u);
            assert(su.recs + tu.recs =~= tu.recs);
        },
        ScanRes::Malformed => {
            assert(scan(s + t) == ScanRes::Malformed);
        },
    }
}

/// Framing a concatenation of well-formed record encodings yields exactly
/// those encodings, in order, with nothing left over and no failure.
pub proof fn lemma_frames_of_encodings(encs: Seq<Seq<u8>>)
    requires
        forall|i: int| 0 <= i < encs.len() ==> wf_frame(#[trigger] encs[i]),
    ensures
        ({
            let fo = frame_spec(encs.flatten());
            &&& fo.recs == encs
            &&& fo.rest == Seq::<u8>::empty()
            &&& !fo.bad
        }),
    decreases encs.len(),
{
    if encs.len() == 0 {
        assert(encs.flatten() == Seq::<u8>::empty());
        assert(frame_spec(encs.flatten()).recs =~= encs);
    } else {
        let e0 = encs.first();
        let u = encs.flatten();
        assert(wf_frame(e0));
        assert(u == e0 + encs.drop_first().flatten());
        lemma_scan_complete_range(e0, 0, init_state(), e0.len() as int);
        assert(e0 =~= u.take(e0.len() as int));
        lemma_scan_prefix(e0, u, 0, init_state());
        assert(scan(u) == ScanRes::Complete(e0.len() as int));
        assert(u.take(e0.len() as int) =~= e0);
        assert(u.skip(e0.len() as int) =~= encs.drop_first().flatten());
        assert(forall|i: int| 0 <= i < encs.drop_first().len() ==> wf_frame(
            #[trigger] encs.drop_first()[i],
        ));
        lemma_frames_of_encodings(encs.drop_first());
        let fo = frame_spec(u);
        assert(fo.recs == seq![e0] + encs.drop_first());
        assert(seq![e0] + encs.drop_first() =~= encs);
    }
}

/// The records and remainder produced by a sequence of `feed` calls: each
/// chunk is appended to the pending bytes, the complete records are split
/// off, and the remainder is carried to the next call. Once framing fails,
/// no further chunk is fed.
pub open spec fn feed_all(pending: Seq<u8>, chunks: Seq<Seq<u8>>) -> FrameOut
    decreases chunks.len(),
{
    if chunks.len() == 0 {
        FrameOut { recs: Seq::empty(), rest: pending, bad: false }
    } else {
        let fo = frame_spec(pending + chunks.first());
        if fo.bad {
            FrameOut { recs: Seq::empty(), rest: fo.rest, bad: true }
        } else {
            let later = feed_all(fo.rest, chunks.drop_first());
            FrameOut { recs: fo.recs + later.recs, rest: later.rest, bad: later.bad }
        }
    }
}

/// Feeding chunk by chunk extracts the same records, in the same order, as
/// framing all the bytes at once: chunk boundaries do not matter.
pub proof fn lemma_feed_all_chunks(pending: Seq<u8>, chunks: Seq<Seq<u8>>)
    requires
        scan(pending) is Incomplete,
    ensures
        ({
            let fo = frame_spec(pending + chunks.flatten());
            let fa = feed_all(pending, chunks);
            &&& (!fo.bad ==> fa.recs == fo.recs)
            &&& (!fo.bad ==> fa.rest == fo.rest)
            &&& (!fo.bad ==> !fa.bad)
        }),
    decreases chunks.len(),
{
    if chunks.len() == 0 {
        assert(pending + chunks.flatten() =~= pending);
    } else {
        let c0 = chunks.first();
        let s = pending + c0;
        let t = chunks.drop_first().flatten();
        assert(chunks.flatten() == c0 + t);
        assert(pending + chunks.flatten() =~= s + t);
        lemma_frame_append(s, t);
        let fo = frame_spec(s + t);
        let fo1 = frame_spec(s);
        if !fo.bad {
            assert(!fo1.bad);
            lemma_rest_incomplete(s);
            lemma_feed_all_chunks(fo1.rest, chunks.drop_first());
        }
    }
}

/// Framing correctness: any chunk partition of any sequence of well-formed
/// record encodings, fed in order through a fresh framer, yields exactly
/// those records in their original order, with no failure and an empty
/// buffer afterwards.
pub proof fn lemma_framing_correct(encs: Seq<Seq<u8>>, chunks: Seq<Seq<u8>>)
    requires
        forall|i: int| 0 <= i < encs.len() ==> wf_frame(#[trigger] encs[i]),
        chunks.flatten() == encs.flatten(),
    ensures
        ({
            let fa = feed_all(Seq::empty(), chunks);
            &&& fa.recs == encs
            &&& fa.rest == Seq::<u8>::empty()
            &&& !fa.bad
        }),
{
    lemma_frames_of_encodings(encs);
    assert(Seq::<u8>::empty() + chunks.flatten() =~= encs.flatten());
    lemma_feed_all_chunks(Seq::empty(), chunks);
}

/// Incomplete-input idempotence: a proper non-empty prefix of one encoded
/// record frames to no records with the prefix retained unchanged, and the
/// full encoding frames to exactly that one record with nothing left over
/// (so feeding the missing suffix afterwards completes the record: the
/// retained prefix plus the suffix is the full encoding).
pub proof fn lemma_incomplete_prefix(e: Seq<u8>, k: int)
    requires
        wf_frame(e),
        0 < k < e.len(),
    ensures
        ({
            let p = frame_spec(e.take(k));
            &&& p.recs == Seq::<Seq<u8>>::empty()
            &&& p.rest == e.take(k)
            &&& !p.bad
        }),
        ({
            let w = frame_spec(e);
            &&& w.recs == seq![e]
            &&& w.rest == Seq::<u8>::empty()
            &&& !w.bad
        }),
        e.take(k) + e.skip(k) == e,
{
    lemma_scan_proper_prefix(e, k);
    lemma_scan_complete_range(e, 0, init_state(), e.len() as int);
    assert(e.take(e.len() as int) =~= e);
    assert(e.skip(e.len() as int) =~= Seq::<u8>::empty());
    let w = frame_spec(e);
    assert(w.recs == seq![e] + frame_spec(Seq::<u8>::empty()).recs);
    assert(seq![e] + Seq::<Seq<u8>>::empty() =~= seq![e]);
    assert(e.take(k) + e.skip(k) =~= e);
}

/// The stream framer: holds exactly the received bytes not yet consumed into
/// a complete record.
pub struct StreamFramer {
    buf: Vec<u8>,
}

impl StreamFramer {
    /// The bytes received but not yet consumed into a complete record.
    pub closed spec fn pending(&self) -> Seq<u8> {
        self.buf@
    }

    /// A fresh framer holds no bytes.
    pub fn new() -> (f: StreamFramer)
        ensures
            f.pending() == Seq::<u8>::empty(),
    {
        StreamFramer { buf: Vec::new() }
    }

    /// Append `chunk` and split off every record that is now complete, in
    /// order. Afterwards the framer holds exactly the unconsumed remainder;
    /// the call fails exactly when the remainder's head can never become a
    /// record.
    pub fn feed(&mut self, chunk: &[u8]) -> (r: Result<Vec<Vec<u8>>, FramingError>)
        ensures
            ({
                let fo = frame_spec(old(self).pending() + chunk@);
                &&& final(self).pending() == fo.rest
                &&& match r {
                    Ok(recs) => !fo.bad && recs.deep_view() == fo.recs,
                    Err(e) => fo.bad && e == FramingError::Malformed,
                }
            }),
    {
        let mut j: usize = 0;
        while j < chunk.len()
            invariant
                j <= chunk@.len(),
                self.buf@ == old(self).pending() + chunk@.take(j as int),
            decreases chunk@.len() - j,
        {
            let ghost mid = self.buf@;
            self.buf.push(chunk[j]);
            assert(chunk@.take(j as int + 1) =~= chunk@.take(j as int).push(chunk@[j as int]));
            assert(old(self).pending() + chunk@.take(j as int + 1) =~= mid.push(chunk@[j as int]));
            j = j + 1;
        }
        assert(chunk@.take(chunk@.len() as int) =~= chunk@);
        let ghost u = self.buf@;
        assert(u == old(self).pending() + chunk@);
        let mut out: Vec<Vec<u8>> = Vec::new();
        assert(out.deep_view() =~= Seq::<Seq<u8>>::empty());
        assert(frame_spec(u).recs =~= out.deep_view() + frame_spec(u).recs);
        loop
            invariant
                u == old(self).pending() + chunk@,
                frame_spec(u).recs == out.deep_view() + frame_spec(self.buf@).recs,
                frame_spec(u).rest == frame_spec(self.buf@).rest,
                frame_spec(u).bad == frame_spec(self.buf@).bad,
            decreases self.buf@.len(),
        {
            match scan_record(&self.buf) {
                ScanOutcome::Complete(n) => {
                    proof {
                        lemma_scan_complete_range(self.buf@, 0, init_state(), n as int);
                    }
                    let ghost pre = self.buf@;
                    let ghost out_pre = out.deep_view();
                    let mut rec = self.buf.split_off(n);
                    core::mem::swap(&mut self.buf, &mut rec);
                    assert(rec@ == pre.take(n as int));
                    assert(self.buf@ == pre.skip(n as int));
                    out.push(rec);
                    proof {
                        assert(out.deep_view() =~~= out_pre.push(pre.take(n as int)));
                        let tail = frame_spec(pre.skip(n as int));
                        assert(frame_spec(pre).recs == seq![pre.take(n as int)] + tail.recs);
                        assert(out_pre + (seq![pre.take(n as int)] + tail.recs)
                            =~= out_pre.push(pre.take(n as int)) + tail.recs);
                    }
                },
                ScanOutcome::Incomplete => {
                    proof {
                        assert(frame_spec(self.buf@).recs =~= Seq::<Seq<u8>>::empty());
                        assert(out.deep_view() + Seq::<Seq<u8>>::empty() =~= out.deep_view());
                    }
                    return Ok(out);
                },
                ScanOutcome::Malformed => {
                    return Err(FramingError::Malformed);
                },
            }
        }
    }
}

} // verus!
