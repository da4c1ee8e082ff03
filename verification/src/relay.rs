//! The relay session: per-chunk processing of the answer stream, the abort
//! flag that cancels it, and the laws the relay obeys.
//!
//! The caller owns the network loop.  For each received chunk it reads the
//! abort flag and hands the chunk to [`RelaySession::on_chunk`]; at end of
//! stream it calls [`RelaySession::on_end`].  The session decides which
//! events to emit, in order, and when the stream is over: after a sentinel
//! payload, after an abort, or after the final carried-over segment.
use vstd::prelude::*;

use crate::frames::{frames_of, rest_of, FrameDecoder, frame_views, lemma_split_concat};
use crate::interpret::{extract_payload, frame_payload, interpret_payload, sentinel_text};
use crate::interpret::{InterpretedPayload, PayloadModel, SentinelKind, spec_interpret};

verus! {

/// One event delivered to the UI: a sentinel token or extracted text.
#[derive(Clone)]
pub struct StreamPayload {
    pub message: String,
}

/// The message texts of a sequence of events.
pub open spec fn message_views(s: Seq<StreamPayload>) -> Seq<Seq<char>> {
    Seq::new(s.len(), |i: int| s[i].message@)
}

/// Whether an answer is currently being streamed: the abort flag.  Exactly
/// one answer may be in flight per flag.
#[derive(PartialEq, Eq, Structural)]
pub struct ChatState {
    pub answering: bool,
}

/// What starting an answer does to the flag: it is taken when free, and a
/// second start while an answer is in flight is rejected unchanged.
pub open spec fn spec_try_begin(s: ChatState) -> (ChatState, bool) {
    if s.answering {
        (s, false)
    } else {
        (ChatState { answering: true }, true)
    }
}

impl ChatState {
    /// A fresh state: no answer in flight.
    pub fn new() -> (s: ChatState)
        ensures
            !s.answering,
    {
        ChatState { answering: false }
    }

    /// Claim the flag for a new answer; rejected while one is in flight.
    pub fn try_begin(&mut self) -> (ok: bool)
        ensures
            (*final(self), ok) == spec_try_begin(*old(self)),
    {
        if self.answering {
            false
        } else {
            self.answering = true;
            true
        }
    }

    /// Clear the flag: stopping is unconditional and idempotent, in flight
    /// or not.
    pub fn stop(&mut self)
        ensures
            !final(self).answering,
    {
        self.answering = false;
    }

    /// Whether an answer is in flight.
    pub fn is_answering(&self) -> (r: bool)
        ensures
            r == self.answering,
    {
        self.answering
    }
}

/// Starting twice takes the flag once: while the first answer is in flight,
/// the second start is rejected and the flag is not touched.
pub proof fn lemma_single_flight(s: ChatState)
    ensures
        ({
            let (s1, ok1) = spec_try_begin(s);
            let (s2, ok2) = spec_try_begin(s1);
            ok1 ==> (!ok2 && s2 == s1)
        }),
{
}

/// What one frame contributes: an event text or nothing, and whether it
/// ends the stream.
pub open spec fn frame_step(frame: Seq<u8>) -> (Option<Seq<char>>, bool) {
    match frame_payload(frame) {
        None => (None, false),
        Some(p) => match spec_interpret(p) {
            PayloadModel::Empty => (None, false),
            PayloadModel::Sentinel(k) => (Some(sentinel_text(k)), true),
            PayloadModel::Text(t) => (Some(t), false),
            PayloadModel::SearchSuggestions(t) => (Some(t), false),
            PayloadModel::Extracted(t) => (Some(t), false),
        },
    }
}

/// The events emitted for a run of frames, in frame order, cut short at the
/// first sentinel; the flag says whether a sentinel cut it short.
pub open spec fn emit_frames(frames: Seq<Seq<u8>>) -> (Seq<Seq<char>>, bool)
    decreases frames.len(),
{
    if frames.len() == 0 {
        (seq![], false)
    } else {
        let (ev, stop) = frame_step(frames[0]);
        if stop {
            (
                match ev {
                    Some(t) => seq![t],
                    None => seq![],
                },
                true,
            )
        } else {
            let rest = emit_frames(frames.drop_first());
            match ev {
                Some(t) => (seq![t] + rest.0, rest.1),
                None => rest,
            }
        }
    }
}

/// Emission over concatenated frame runs: a sentinel in the first run
/// silences the second; otherwise the runs emit one after the other.
pub proof fn lemma_emit_concat(f1: Seq<Seq<u8>>, f2: Seq<Seq<u8>>)
    ensures
        emit_frames(f1 + f2).0 == if emit_frames(f1).1 {
            emit_frames(f1).0
        } else {
            emit_frames(f1).0 + emit_frames(f2).0
        },
        emit_frames(f1 + f2).1 == (emit_frames(f1).1 || emit_frames(f2).1),
    decreases f1.len(),
{
    if f1.len() == 0 {
        assert(f1 + f2 =~= f2);
        assert(emit_frames(f1).0 + emit_frames(f2).0 =~= emit_frames(f2).0);
    } else {
        assert((f1 + f2)[0] == f1[0]);
        assert((f1 + f2).drop_first() =~= f1.drop_first() + f2);
        lemma_emit_concat(f1.drop_first(), f2);
        let (ev, stop) = frame_step(f1[0]);
        if !stop {
            match ev {
                Some(t) => {
                    if !emit_frames(f1).1 {
                        assert(seq![t] + (emit_frames(f1.drop_first()).0 + emit_frames(f2).0)
                            =~= (seq![t] + emit_frames(f1.drop_first()).0) + emit_frames(f2).0);
                    }
                },
                None => {},
            }
        }
    }
}

/// A stream that a sentinel cut short ends with that sentinel's token.
pub proof fn lemma_emit_stop_is_sentinel(frames: Seq<Seq<u8>>)
    requires
        emit_frames(frames).1,
    ensures
        emit_frames(frames).0.len() > 0,
        exists|k: SentinelKind| emit_frames(frames).0.last() == sentinel_text(k),
    decreases frames.len(),
{
    let (ev, stop) = frame_step(frames[0]);
    if stop {
        match frame_payload(frames[0]) {
            Some(p) => match spec_interpret(p) {
                PayloadModel::Sentinel(k) => {
                    assert(emit_frames(frames).0.last() == sentinel_text(k));
                },
                _ => {},
            },
            None => {},
        }
    } else {
        lemma_emit_stop_is_sentinel(frames.drop_first());
        match ev {
            Some(t) => {
                let rest = emit_frames(frames.drop_first());
                assert((seq![t] + rest.0).last() == rest.0.last());
            },
            None => {},
        }
    }
}

/// The abstract state of a relay session: the bytes carried over between
/// chunks, and whether the stream is still live.
pub struct SessionModel {
    pub pending: Seq<u8>,
    pub live: bool,
}

/// A session that has just started: nothing carried over, stream live.
pub open spec fn init_session() -> SessionModel {
    SessionModel { pending: Seq::empty(), live: true }
}

/// One chunk step.  A dead session ignores its input.  A cleared abort flag
/// emits the synthetic `[DONE]` and kills the session without touching the
/// chunk.  Otherwise the chunk's completed frames are emitted in order, cut
/// short at the first sentinel, which kills the session.
pub open spec fn spec_on_chunk(s: SessionModel, answering: bool, chunk: Seq<u8>) -> (
    SessionModel,
    Seq<Seq<char>>,
) {
    if !s.live {
        (s, seq![])
    } else if !answering {
        (SessionModel { pending: s.pending, live: false }, seq![sentinel_text(SentinelKind::Done)])
    } else {
        let whole = s.pending + chunk;
        let (evs, stop) = emit_frames(frames_of(whole));
        (SessionModel { pending: rest_of(whole), live: !stop }, evs)
    }
}

/// The end-of-stream step: the carried-over tail is treated as one final
/// frame, and the session ends.
pub open spec fn spec_on_end(s: SessionModel) -> (SessionModel, Seq<Seq<char>>) {
    if !s.live {
        (s, seq![])
    } else {
        let (evs, stop) = emit_frames(seq![s.pending]);
        (SessionModel { pending: Seq::empty(), live: false }, evs)
    }
}

/// A run of chunk steps: each input is the abort flag as read for that
/// chunk, and the chunk's bytes.
pub open spec fn spec_run(s: SessionModel, inputs: Seq<(bool, Seq<u8>)>) -> (
    SessionModel,
    Seq<Seq<char>>,
)
    decreases inputs.len(),
{
    if inputs.len() == 0 {
        (s, seq![])
    } else {
        let (s1, evs1) = spec_on_chunk(s, inputs[0].0, inputs[0].1);
        let (s2, evs2) = spec_run(s1, inputs.drop_first());
        (s2, evs1 + evs2)
    }
}

/// A dead session stays dead and emits nothing, whatever else arrives.
pub proof fn lemma_dead_session_silent(s: SessionModel, inputs: Seq<(bool, Seq<u8>)>)
    requires
        !s.live,
    ensures
        spec_run(s, inputs).0 == s,
        spec_run(s, inputs).1 == Seq::<Seq<char>>::empty(),
    decreases inputs.len(),
{
    if inputs.len() == 0 {
        assert(spec_run(s, inputs).1 =~= Seq::<Seq<char>>::empty());
    } else {
        lemma_dead_session_silent(s, inputs.drop_first());
        assert(seq![] + Seq::<Seq<char>>::empty() =~= Seq::<Seq<char>>::empty());
    }
}

/// Sentinel termination: a step that ended the stream — a sentinel payload,
/// the final segment, or an abort — leaves a session after which no chunk
/// and no end of stream emits any further event.
pub proof fn lemma_sentinel_termination(
    s: SessionModel,
    answering: bool,
    chunk: Seq<u8>,
    later: Seq<(bool, Seq<u8>)>,
)
    requires
        !spec_on_chunk(s, answering, chunk).0.live,
    ensures
        spec_run(spec_on_chunk(s, answering, chunk).0, later).1 == Seq::<Seq<char>>::empty(),
        spec_on_end(spec_run(spec_on_chunk(s, answering, chunk).0, later).0).1 == Seq::<
            Seq<char>,
        >::empty(),
{
    let s1 = spec_on_chunk(s, answering, chunk).0;
    lemma_dead_session_silent(s1, later);
}

/// Running one more chunk after a run is the run of the longer input.
pub proof fn lemma_run_snoc(s: SessionModel, inputs: Seq<(bool, Seq<u8>)>, x: (bool, Seq<u8>))
    ensures
        spec_run(s, inputs.push(x)) == ({
            let (s1, e1) = spec_run(s, inputs);
            let (s2, e2) = spec_on_chunk(s1, x.0, x.1);
            (s2, e1 + e2)
        }),
    decreases inputs.len(),
{
    reveal_with_fuel(spec_run, 3);
    if inputs.len() == 0 {
        let whole = inputs.push(x);
        assert(whole[0] == x);
        assert(whole.drop_first() =~= Seq::<(bool, Seq<u8>)>::empty());
        let (s1, e1) = spec_on_chunk(s, x.0, x.1);
        assert(e1 + Seq::<Seq<char>>::empty() =~= e1);
        assert(Seq::<Seq<char>>::empty() + e1 =~= e1);
    } else {
        let whole = inputs.push(x);
        assert(whole[0] == inputs[0]);
        assert(whole.drop_first() =~= inputs.drop_first().push(x));
        let (sh, eh) = spec_on_chunk(s, inputs[0].0, inputs[0].1);
        lemma_run_snoc(sh, inputs.drop_first(), x);
        let (s1, e1) = spec_run(sh, inputs.drop_first());
        let (s2, e2) = spec_on_chunk(s1, x.0, x.1);
        assert(eh + (e1 + e2) =~= (eh + e1) + e2);
    }
}

/// The chunk steps that a run of network chunks produces while the abort
/// flag stays set.
pub open spec fn chunk_inputs(chunks: Seq<Seq<u8>>) -> Seq<(bool, Seq<u8>)> {
    Seq::new(chunks.len(), |i: int| (true, chunks[i]))
}

/// Every event a fresh session emits when the stream arrives as `chunks`
/// and the abort flag stays set: the chunk steps, then the end of stream.
pub open spec fn spec_session_events(chunks: Seq<Seq<u8>>) -> Seq<Seq<char>> {
    let (s, evs) = spec_run(init_session(), chunk_inputs(chunks));
    evs + spec_on_end(s).1
}

/// Every event of a byte stream taken as a whole: its complete frames, then
/// the final separator-less segment, emitted in order and cut short at the
/// first sentinel.
pub open spec fn spec_stream_events(b: Seq<u8>) -> Seq<Seq<char>> {
    emit_frames(frames_of(b).push(rest_of(b))).0
}

/// What a run over chunks leaves behind, in terms of the flattened bytes:
/// the events are those of the stream's complete frames so far, and a live
/// session carries exactly the bytes after the last separator.
pub proof fn lemma_session_run_invariant(chunks: Seq<Seq<u8>>)
    ensures
        ({
            let (s, evs) = spec_run(init_session(), chunk_inputs(chunks));
            let (all, stop) = emit_frames(frames_of(chunks.flatten()));
            evs == all && s.live == !stop && (s.live ==> s.pending == rest_of(chunks.flatten()))
        }),
    decreases chunks.len(),
{
    broadcast use vstd::prelude::Seq::lemma_flatten_push;

    if chunks.len() == 0 {
        assert(chunks.flatten() =~= Seq::<u8>::empty());
        assert(frames_of(Seq::<u8>::empty()) =~= Seq::<Seq<u8>>::empty());
        assert(chunk_inputs(chunks) =~= Seq::<(bool, Seq<u8>)>::empty());
    } else {
        let head = chunks.drop_last();
        let last = chunks.last();
        lemma_session_run_invariant(head);
        assert(head.push(last) =~= chunks);
        assert(chunk_inputs(chunks) =~= chunk_inputs(head).push((true, last)));
        lemma_run_snoc(init_session(), chunk_inputs(head), (true, last));
        let (sh, eh) = spec_run(init_session(), chunk_inputs(head));
        let hb = head.flatten();
        let wb = chunks.flatten();
        assert(wb == hb + last);
        lemma_split_concat(hb, last);
        let (ah, sth) = emit_frames(frames_of(hb));
        if sh.live {
            let fresh = frames_of(sh.pending + last);
            assert(sh.pending + last == rest_of(hb) + last);
            lemma_emit_concat(frames_of(hb), fresh);
            assert(frames_of(hb) + fresh == frames_of(wb));
        } else {
            let fresh = frames_of(rest_of(hb) + last);
            lemma_emit_concat(frames_of(hb), fresh);
            assert(frames_of(hb) + fresh == frames_of(wb));
        }
    }
}

/// Ordering under arbitrary chunking: a fresh session fed any chunking of a
/// byte stream emits exactly the events of the stream taken whole — chunk
/// boundaries never affect which events come out, their content, or their
/// order.
pub proof fn lemma_chunking_irrelevant(chunks: Seq<Seq<u8>>)
    ensures
        spec_session_events(chunks) == spec_stream_events(chunks.flatten()),
{
    lemma_session_run_invariant(chunks);
    let (s, evs) = spec_run(init_session(), chunk_inputs(chunks));
    let b = chunks.flatten();
    let (all, stop) = emit_frames(frames_of(b));
    assert(frames_of(b).push(rest_of(b)) =~= frames_of(b) + seq![rest_of(b)]);
    lemma_emit_concat(frames_of(b), seq![rest_of(b)]);
    if s.live {
        assert(spec_on_end(s).1 == emit_frames(seq![rest_of(b)]).0);
    } else {
        assert(evs + spec_on_end(s).1 =~= evs);
    }
}

/// Two chunkings of the same bytes yield the same events.
pub proof fn lemma_order_preserved(c1: Seq<Seq<u8>>, c2: Seq<Seq<u8>>)
    requires
        c1.flatten() == c2.flatten(),
    ensures
        spec_session_events(c1) == spec_session_events(c2),
{
    lemma_chunking_irrelevant(c1);
    lemma_chunking_irrelevant(c2);
}

/// A live relay session: the carry-over frame decoder and the live flag.
pub struct RelaySession {
    dec: FrameDecoder,
    live: bool,
}

/// The token text of a sentinel kind, as an owned string.
fn sentinel_string(k: SentinelKind) -> (r: String)
    ensures
        r@ == sentinel_text(k),
{
    match k {
        SentinelKind::Done => "[DONE]".to_owned(),
        SentinelKind::Error => "[ERROR]".to_owned(),
        SentinelKind::Sensitive => "[SENSITIVE]".to_owned(),
    }
}

/// Process one frame: the event it contributes, if any, and whether it ends
/// the stream.
fn step_frame(frame: &[u8]) -> (r: (Option<StreamPayload>, bool))
    ensures
        ({
            let (ev, stop) = frame_step(frame@);
            r.1 == stop && (match r.0 {
                Some(sp) => ev == Some(sp.message@),
                None => ev is None,
            })
        }),
{
    match extract_payload(frame) {
        None => (None, false),
        Some(p) => match interpret_payload(p.as_slice()) {
            InterpretedPayload::Empty => (None, false),
            InterpretedPayload::Sentinel(k) => (
                Some(StreamPayload { message: sentinel_string(k) }),
                true,
            ),
            InterpretedPayload::Text(s) => (Some(StreamPayload { message: s }), false),
            InterpretedPayload::SearchSuggestions(s) => (
                Some(StreamPayload { message: s }),
                false,
            ),
            InterpretedPayload::Extracted(s) => (Some(StreamPayload { message: s }), false),
        },
    }
}

impl RelaySession {
    /// The abstract state this session is in.
    pub closed spec fn model(&self) -> SessionModel {
        SessionModel { pending: self.dec.pending(), live: self.live }
    }

    /// A fresh session, ready for the first chunk.
    pub fn new() -> (s: RelaySession)
        ensures
            s.model() == init_session(),
    {
        RelaySession { dec: FrameDecoder::new(), live: true }
    }

    /// Whether the stream is still live: no sentinel and no abort yet.
    pub fn is_live(&self) -> (r: bool)
        ensures
            r == self.model().live,
    {
        self.live
    }

    /// Process one received chunk under the abort flag value read for it,
    /// returning the events to deliver, in order.
    pub fn on_chunk(&mut self, answering: bool, chunk: &[u8]) -> (out: Vec<StreamPayload>)
        ensures
            final(self).model() == spec_on_chunk(old(self).model(), answering, chunk@).0,
            message_views(out@) == spec_on_chunk(old(self).model(), answering, chunk@).1,
    {
        if !self.live {
            let out: Vec<StreamPayload> = Vec::new();
            assert(message_views(out@) =~= seq![]);
            return out;
        }
        if !answering {
            self.live = false;
            let mut out: Vec<StreamPayload> = Vec::new();
            out.push(StreamPayload { message: sentinel_string(SentinelKind::Done) });
            assert(message_views(out@) =~= seq![sentinel_text(SentinelKind::Done)]);
            return out;
        }
        let ghost whole = self.dec.pending() + chunk@;
        let frames = self.dec.feed(chunk);
        let ghost fv = frame_views(frames@);
        assert(fv == frames_of(whole));
        let n = frames.len();
        let mut out: Vec<StreamPayload> = Vec::new();
        let mut stopped = false;
        let mut i: usize = 0;
        assert(message_views(out@) =~= seq![]);
        assert(fv.skip(0) =~= fv);
        while i < n && !stopped
            invariant
                n == fv.len(),
                n == frames@.len(),
                fv == frame_views(frames@),
                i <= n,
                !stopped ==> emit_frames(fv) == (
                    message_views(out@) + emit_frames(fv.skip(i as int)).0,
                    emit_frames(fv.skip(i as int)).1,
                ),
                stopped ==> emit_frames(fv).0 == message_views(out@) && emit_frames(fv).1,
            decreases n - i,
        {
            let ghost rest = fv.skip(i as int);
            proof {
                assert(rest[0] == fv[i as int]);
                assert(rest.drop_first() =~= fv.skip(i as int + 1));
            }
            let ghost before = out@;
            let (ev, stop) = step_frame(frames[i].as_slice());
            match ev {
                Some(sp) => {
                    out.push(sp);
                    assert(message_views(out@) =~= message_views(before).push(sp.message@));
                },
                None => {},
            }
            if stop {
                stopped = true;
                proof {
                    assert(message_views(before) + emit_frames(rest).0 =~= message_views(out@));
                }
            } else {
                proof {
                    match frame_step(fv[i as int]).0 {
                        Some(t) => {
                            assert(emit_frames(rest).0 == seq![t] + emit_frames(
                                fv.skip(i as int + 1),
                            ).0);
                            assert(message_views(before) + (seq![t] + emit_frames(
                                fv.skip(i as int + 1),
                            ).0) =~= message_views(out@) + emit_frames(fv.skip(i as int + 1)).0);
                        },
                        None => {},
                    }
                }
            }
            i = i + 1;
        }
        if !stopped {
            proof {
                assert(fv.skip(n as int) =~= Seq::<Seq<u8>>::empty());
                assert(message_views(out@) + emit_frames(fv.skip(n as int)).0 =~= message_views(
                    out@,
                ));
            }
        } else {
            self.live = false;
        }
        out
    }

    /// End of stream: treat the carried-over tail as the final frame and
    /// close the session.
    pub fn on_end(&mut self) -> (out: Vec<StreamPayload>)
        ensures
            final(self).model() == spec_on_end(old(self).model()).0,
            message_views(out@) == spec_on_end(old(self).model()).1,
    {
        if !self.live {
            let out: Vec<StreamPayload> = Vec::new();
            assert(message_views(out@) =~= seq![]);
            return out;
        }
        let ghost pend = self.dec.pending();
        let tail = self.dec.finish();
        self.live = false;
        let ghost single = seq![pend];
        assert(single.drop_first() =~= Seq::<Seq<u8>>::empty());
        let mut out: Vec<StreamPayload> = Vec::new();
        let (ev, stop) = step_frame(tail.as_slice());
        match ev {
            Some(sp) => {
                let ghost before = out@;
                out.push(sp);
                assert(message_views(out@) =~= message_views(before).push(sp.message@));
                assert(message_views(out@) =~= seq![sp.message@]);
            },
            None => {
                assert(message_views(out@) =~= seq![]);
            },
        }
        proof {
            assert(single.len() == 1);
            assert(single[0] == pend);
            let st = frame_step(pend);
            if st.1 {
                match st.0 {
                    Some(t) => {
                        assert(emit_frames(single).0 == seq![t]);
                        assert(message_views(out@) == seq![t]);
                    },
                    None => {
                        assert(emit_frames(single).0 == Seq::<Seq<char>>::empty());
                        assert(message_views(out@) =~= emit_frames(single).0);
                    },
                }
            } else {
                assert(emit_frames(single.drop_first()) == (Seq::<Seq<char>>::empty(), false));
                match st.0 {
                    Some(t) => {
                        assert(emit_frames(single).0 == seq![t] + emit_frames(
                            single.drop_first(),
                        ).0);
                        assert(seq![t] + emit_frames(single.drop_first()).0 =~= seq![t]);
                        assert(message_views(out@) == seq![t]);
                    },
                    None => {
                        assert(emit_frames(single).0 =~= Seq::<Seq<char>>::empty());
                        assert(message_views(out@) =~= emit_frames(single).0);
                    },
                }
            }
            assert(message_views(out@) == spec_on_end(old(self).model()).1);
        }
        out
    }
}

} // verus!
