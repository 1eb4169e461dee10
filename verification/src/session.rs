//! One streaming connection's lifetime: admission by response status, then
//! chunk-by-chunk framing and decoding.
//!
//! The session owns a fresh framer (buffer state never survives
//! reconnection). Each transport chunk is fed to the framer and every record
//! that completes is decoded, in order; a framing or decoding failure is
//! terminal for the session.

use vstd::prelude::*;

use crate::framer::{frame_spec, FramingError, StreamFramer};
use crate::message::{msg_of, Message, MessageView};

verus! {

/// Why a session ended (or could not start).
#[derive(Debug, PartialEq, Eq)]
pub enum StreamError {
    /// The service answered with a non-success status at connection time.
    Api(u16),
    /// The byte stream cannot be framed into records.
    Framing,
    /// A connection-level failure, reported by the transport.
    Transport,
}

/// Whether a connection-time response status admits the stream: success
/// means a 2xx status, anything else is an immediate `Api` error carrying
/// the status.
pub fn check_stream_status(status: u16) -> (r: Result<(), StreamError>)
    ensures
        r is Ok <==> 200 <= status < 300,
        r matches Err(e) ==> e == StreamError::Api(status),
{
    if 200 <= status && status < 300 {
        Ok(())
    } else {
        Err(StreamError::Api(status))
    }
}

/// The messages denoted by a sequence of complete records: present exactly
/// when every record decodes.
pub open spec fn decode_all(recs: Seq<Seq<u8>>) -> Option<Seq<MessageView>>
    decreases recs.len(),
{
    if recs.len() == 0 {
        Some(Seq::empty())
    } else {
        match (msg_of(recs.first()), decode_all(recs.drop_first())) {
            (Some(m), Some(rest)) => Some(seq![m] + rest),
            _ => None,
        }
    }
}

/// Decoding preserves record order: when every record decodes, the decoded
/// messages are exactly the records' messages, one for one, in the records'
/// order — no loss, no reordering, no duplication.
pub proof fn lemma_decode_all_ordered(recs: Seq<Seq<u8>>)
    requires
        forall|i: int| 0 <= i < recs.len() ==> msg_of(#[trigger] recs[i]) is Some,
    ensures
        decode_all(recs) is Some,
        ({
            let ms = decode_all(recs).unwrap();
            &&& ms.len() == recs.len()
            &&& forall|i: int| 0 <= i < recs.len() ==> msg_of(#[trigger] recs[i]) == Some(ms[i])
        }),
    decreases recs.len(),
{
    if recs.len() > 0 {
        assert(forall|i: int| 0 <= i < recs.drop_first().len() ==> msg_of(
            #[trigger] recs.drop_first()[i],
        ) is Some);
        lemma_decode_all_ordered(recs.drop_first());
        let m = msg_of(recs.first()).unwrap();
        let tail = decode_all(recs.drop_first()).unwrap();
        assert(decode_all(recs) == Some(seq![m] + tail));
        let ms = decode_all(recs).unwrap();
        assert(forall|i: int|
            1 <= i < recs.len() ==> recs.drop_first()[i - 1] == #[trigger] recs[i]);
        assert(forall|i: int| 1 <= i < recs.len() ==> #[trigger] ms[i] == tail[i - 1]);
    }
}

/// The whole ingestion pipeline preserves message order: any chunk partition
/// of any sequence of well-formed, decodable record encodings, fed in order
/// through a fresh framer and then decoded, yields exactly the records'
/// messages, in their original order.
pub proof fn lemma_pipeline_order(encs: Seq<Seq<u8>>, chunks: Seq<Seq<u8>>)
    requires
        forall|i: int| 0 <= i < encs.len() ==> crate::framer::wf_frame(#[trigger] encs[i]),
        forall|i: int| 0 <= i < encs.len() ==> msg_of(#[trigger] encs[i]) is Some,
        chunks.flatten() == encs.flatten(),
    ensures
        ({
            let fa = crate::framer::feed_all(Seq::empty(), chunks);
            &&& !fa.bad
            &&& fa.rest == Seq::<u8>::empty()
            &&& decode_all(fa.recs) is Some
            &&& decode_all(fa.recs).unwrap().len() == encs.len()
            &&& forall|i: int| 0 <= i < encs.len() ==> msg_of(#[trigger] encs[i]) == Some(
                decode_all(fa.recs).unwrap()[i],
            )
        }),
{
    crate::framer::lemma_framing_correct(encs, chunks);
    lemma_decode_all_ordered(encs);
}

/// Prepend a decoded prefix to the result of decoding the remaining records.
pub open spec fn opt_concat(pre: Seq<MessageView>, rest: Option<Seq<MessageView>>) -> Option<
    Seq<MessageView>,
> {
    match rest {
        Some(r) => Some(pre + r),
        None => None,
    }
}

/// One streaming connection: a fresh framer whose buffer lives exactly as
/// long as the connection.
pub struct Session {
    framer: StreamFramer,
}

impl Session {
    /// The received bytes not yet consumed into a complete record.
    pub closed spec fn pending(&self) -> Seq<u8> {
        self.framer.pending()
    }

    /// A new session starts with an empty buffer.
    pub fn new() -> (s: Session)
        ensures
            s.pending() == Seq::<u8>::empty(),
    {
        Session { framer: StreamFramer::new() }
    }

    /// Feed one transport chunk: every record that is now complete is
    /// decoded, in order. Succeeds with exactly the messages of those
    /// records; fails with `Framing` exactly when the buffer head can never
    /// become a record or a complete record does not decode.
    pub fn on_chunk(&mut self, chunk: &[u8]) -> (r: Result<Vec<Message>, StreamError>)
        ensures
            ({
                let fo = frame_spec(old(self).pending() + chunk@);
                &&& final(self).pending() == fo.rest
                &&& match r {
                    Ok(msgs) => !fo.bad && decode_all(fo.recs) == Some(msgs.deep_view()),
                    Err(e) => (fo.bad || decode_all(fo.recs) is None) && e == StreamError::Framing,
                }
            }),
    {
        let ghost fo = frame_spec(old(self).pending() + chunk@);
        let frames = match self.framer.feed(chunk) {
            Ok(frames) => frames,
            Err(FramingError::Malformed) => return Err(StreamError::Framing),
        };
        let mut msgs: Vec<Message> = Vec::new();
        let mut i: usize = 0;
        assert(msgs.deep_view() =~= Seq::<MessageView>::empty());
        assert(fo.recs.skip(0) =~= fo.recs);
        assert(decode_all(fo.recs) == opt_concat(msgs.deep_view(), decode_all(fo.recs.skip(0))));
        while i < frames.len()
            invariant
                i <= frames@.len(),
                fo == frame_spec(old(self).pending() + chunk@),
                self.pending() == fo.rest,
                !fo.bad,
                frames.deep_view() == fo.recs,
                decode_all(fo.recs) == opt_concat(
                    msgs.deep_view(),
                    decode_all(fo.recs.skip(i as int)),
                ),
            decreases frames@.len() - i,
        {
            assert(frames[i as int].deep_view() == fo.recs[i as int]);
            assert(frames[i as int].deep_view() =~= frames[i as int]@);
            let ghost rest = fo.recs.skip(i as int);
            assert(rest.first() == fo.recs[i as int]);
            assert(rest.drop_first() =~= fo.recs.skip(i as int + 1));
            let m = match crate::message::decode_message(frames[i].as_slice()) {
                Ok(m) => m,
                Err(_) => {
                    proof {
                        assert(msg_of(fo.recs[i as int]) is None);
                        assert(decode_all(rest) is None);
                    }
                    return Err(StreamError::Framing);
                },
            };
            let ghost msgs_pre = msgs.deep_view();
            msgs.push(m);
            proof {
                assert(msgs.deep_view() =~= msgs_pre.push(m@));
                assert(msg_of(rest.first()) == Some(m@));
                match decode_all(rest.drop_first()) {
                    Some(tail) => {
                        assert(decode_all(rest) == Some(seq![m@] + tail));
                        assert(msgs_pre + (seq![m@] + tail) =~= msgs_pre.push(m@) + tail);
                    },
                    None => {},
                }
            }
            i = i + 1;
        }
        assert(fo.recs.skip(frames@.len() as int) =~= Seq::<Seq<u8>>::empty());
        assert(msgs.deep_view() + Seq::<MessageView>::empty() =~= msgs.deep_view());
        Ok(msgs)
    }
}

} // verus!
