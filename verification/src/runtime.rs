//! Session layer: stream byte ingestion, sequence numbering, pending
//! acknowledgment tracking, peer statistics and automatic receipt
//! acknowledgments.
//!
//! The session is a state machine. Its abstract state (`SessionCore`) is the
//! configuration, the next sequence number, the table of frames awaiting
//! acknowledgment and the peer statistics; bytes received but not yet
//! delimited stay in a buffer. `drain` says what ingesting does: it cuts the
//! buffer at each 0x00 delimiter and processes the frames in order.
use crate::endpoint::{node_of, EndpointId, NodeId};
use crate::frame::{
    new_frame, FLAG_PAYLOAD_CRC, spec_parse_cobs, FrameError, FrameModel, SynapseFrame, FLAG_ACK_REQ, FLAG_IS_ACK,
};
use crate::protocol::messages::{
    lemma_from_frame_to_payload, spec_from_frame, spec_msg_id, spec_payload, survives_payload,
    with_frame_timestamp, AckDecision, AckReason, AckReceipt, MessageError,
    MessageView, RougeMessage, SynapseMessage,
};
use crate::wire::push_bytes;
use std::collections::HashMap;
use crate::clock::current_timestamp_ms;
use vstd::prelude::*;

verus! {

broadcast use vstd::std_specs::hash::group_hash_axioms;

/// Identifies a sent frame awaiting acknowledgment.
#[derive(Debug, Clone, Copy, PartialEq, Eq, Hash, Structural)]
pub struct PendingMessageKey {
    pub msg_id: u16,
    pub sequence: u16,
}

impl PendingMessageKey {
    /// The slot of the key in the pending table: message id in the high
    /// half, sequence in the low half.
    pub open spec fn spec_slot(self) -> u32 {
        (self.msg_id * 0x1_0000 + self.sequence) as u32
    }

    pub fn new(msg_id: u16, sequence: u16) -> (k: Self)
        ensures
            k == (PendingMessageKey { msg_id, sequence }),
    {
        Self { msg_id, sequence }
    }

    pub fn from_frame(frame: &SynapseFrame) -> (k: Self)
        ensures
            k == (PendingMessageKey { msg_id: frame.msg_id, sequence: frame.sequence }),
    {
        Self::new(frame.msg_id, frame.sequence)
    }

    /// The slot of the key in the pending table.
    pub fn slot(self) -> (s: u32)
        ensures
            s == self.spec_slot(),
    {
        (self.msg_id as u32) * 0x1_0000 + (self.sequence as u32)
    }
}

/// Distinct keys have distinct slots.
pub proof fn lemma_slot_injective(a: PendingMessageKey, b: PendingMessageKey)
    ensures
        a.spec_slot() == b.spec_slot() ==> a == b,
{
}

/// The slot of the frame `msg_id`/`sequence` in the pending table.
pub open spec fn slot_of(msg_id: u16, sequence: u16) -> u32 {
    PendingMessageKey { msg_id, sequence }.spec_slot()
}

/// A sent frame awaiting acknowledgment, with the acknowledgments seen so far.
#[derive(Debug, Clone)]
pub struct PendingTx {
    pub frame: SynapseFrame,
    pub receipt: Option<AckReceipt>,
    pub decision: Option<AckDecision>,
}

/// The abstract content of a pending entry.
pub struct PendingView {
    pub frame: FrameModel,
    pub receipt: Option<AckReceipt>,
    pub decision: Option<AckDecision>,
}

impl View for PendingTx {
    type V = PendingView;

    open spec fn view(&self) -> PendingView {
        PendingView { frame: self.frame@, receipt: self.receipt, decision: self.decision }
    }
}

/// The abstract content of the pending table.
pub open spec fn pending_view(m: Map<u32, PendingTx>) -> Map<u32, PendingView> {
    m.map_values(|p: PendingTx| p@)
}

/// What the session knows of its peer.
#[derive(Debug, Clone, Copy, PartialEq, Eq, Structural)]
pub struct PeerState {
    pub endpoint: Option<EndpointId>,
    pub last_timestamp_ms: Option<u32>,
    pub frames_received: u64,
    pub decode_errors: u64,
}

/// A counter incremented with wrap-around.
pub open spec fn bump(x: u64) -> u64 {
    if x == u64::MAX {
        0
    } else {
        (x + 1) as u64
    }
}

fn bump_counter(x: u64) -> (y: u64)
    ensures
        y == bump(x),
{
    if x == u64::MAX {
        0
    } else {
        x + 1
    }
}

impl PeerState {
    /// Nothing heard from the peer yet.
    pub open spec fn initial() -> PeerState {
        PeerState { endpoint: None, last_timestamp_ms: None, frames_received: 0, decode_errors: 0 }
    }

    pub fn new() -> (s: Self)
        ensures
            s == PeerState::initial(),
    {
        Self { endpoint: None, last_timestamp_ms: None, frames_received: 0, decode_errors: 0 }
    }
}

impl Default for PeerState {
    fn default() -> (s: Self)
        ensures
            s == PeerState::initial(),
    {
        Self::new()
    }
}

/// Session configuration.
#[derive(Debug, Clone, Copy, PartialEq, Eq, Structural)]
pub struct RuntimeConfig {
    pub local_endpoint: Option<EndpointId>,
    pub auto_ack_receipts: bool,
}

impl RuntimeConfig {
    /// Receipts are acknowledged automatically.
    pub fn new(local_endpoint: Option<EndpointId>) -> (c: Self)
        ensures
            c == (RuntimeConfig { local_endpoint, auto_ack_receipts: true }),
    {
        Self { local_endpoint, auto_ack_receipts: true }
    }
}

impl Default for RuntimeConfig {
    fn default() -> (c: Self)
        ensures
            c == (RuntimeConfig { local_endpoint: None, auto_ack_receipts: true }),
    {
        Self::new(None)
    }
}

/// How to send one message.
#[derive(Debug, Clone, Copy, PartialEq, Eq, Structural)]
pub struct SendOptions {
    pub src: Option<EndpointId>,
    pub dst: Option<EndpointId>,
    pub ack_requested: bool,
    pub extra_flags: u8,
}

impl SendOptions {
    pub fn routed(src: EndpointId, dst: EndpointId) -> (o: Self)
        ensures
            o == (SendOptions {
                src: Some(src),
                dst: Some(dst),
                ack_requested: false,
                extra_flags: 0,
            }),
    {
        Self { src: Some(src), dst: Some(dst), ack_requested: false, extra_flags: 0 }
    }
}

impl Default for SendOptions {
    fn default() -> (o: Self)
        ensures
            o == (SendOptions { src: None, dst: None, ack_requested: false, extra_flags: 0 }),
    {
        Self { src: None, dst: None, ack_requested: false, extra_flags: 0 }
    }
}

/// Why received bytes produced no message.
#[derive(Debug, Clone, Copy, PartialEq, Eq)]
pub enum DecodeFailure {
    /// The bytes are not a valid frame.
    Frame { error: FrameError },
    /// The frame does not hold a valid message.
    Message { error: MessageError },
}

/// A received message, with the frames sent automatically in response.
#[derive(Debug, Clone)]
pub struct MessageEvent {
    pub frame: SynapseFrame,
    pub message: SynapseMessage,
    pub auto_responses: Vec<SynapseFrame>,
}

/// What ingesting bytes produced.
#[derive(Debug, Clone)]
pub enum RuntimeEvent {
    Message(MessageEvent),
    AckReceived(AckReceipt),
    AckAccepted(AckDecision),
    AckRejected(AckDecision),
    DecodeError(DecodeFailure),
}

/// The abstract content of an event.
pub enum EventView {
    Message { frame: FrameModel, message: MessageView, auto_responses: Seq<FrameModel> },
    AckReceived(AckReceipt),
    AckAccepted(AckDecision),
    AckRejected(AckDecision),
    DecodeError(DecodeFailure),
}

/// The abstract content of a list of frames.
pub open spec fn frames_view(v: Seq<SynapseFrame>) -> Seq<FrameModel> {
    v.map_values(|f: SynapseFrame| f@)
}

impl View for RuntimeEvent {
    type V = EventView;

    open spec fn view(&self) -> EventView {
        match *self {
            RuntimeEvent::Message(e) => EventView::Message {
                frame: e.frame@,
                message: e.message@,
                auto_responses: frames_view(e.auto_responses@),
            },
            RuntimeEvent::AckReceived(a) => EventView::AckReceived(a),
            RuntimeEvent::AckAccepted(a) => EventView::AckAccepted(a),
            RuntimeEvent::AckRejected(a) => EventView::AckRejected(a),
            RuntimeEvent::DecodeError(d) => EventView::DecodeError(d),
        }
    }
}

/// The abstract content of a list of events.
pub open spec fn events_view(v: Seq<RuntimeEvent>) -> Seq<EventView> {
    v.map_values(|e: RuntimeEvent| e@)
}

/// The abstract state of a session, without its receive buffer.
pub struct SessionCore {
    pub config: RuntimeConfig,
    pub next_sequence: u16,
    pub pending: Map<u32, PendingView>,
    pub peer: PeerState,
}

/// The frame that sending `m` with `options` produces: the message's frame,
/// stamped `timestamp_ms`, numbered with the next sequence number, routed
/// when a source (the option's, else the local endpoint) and a destination
/// are known, with the extra flags and, if asked, the ACK-request flag.
pub open spec fn outgoing_frame(
    st: SessionCore,
    m: MessageView,
    options: SendOptions,
    timestamp_ms: u32,
) -> FrameModel {
    let base = FrameModel {
        sequence: st.next_sequence,
        ..new_frame(spec_msg_id(m), spec_payload(m), timestamp_ms)
    };
    let src = match options.src {
        Some(s) => Some(s),
        None => st.config.local_endpoint,
    };
    let routed = match (src, options.dst) {
        (Some(s), Some(d)) => FrameModel {
            src_endpoint: Some(s.0),
            dst_endpoint: Some(d.0),
            ..base
        },
        _ => base,
    };
    let flags = if options.ack_requested {
        (routed.flags | options.extra_flags) | FLAG_ACK_REQ
    } else {
        routed.flags | options.extra_flags
    };
    FrameModel { flags, ..routed }
}

/// The session after sending: the sequence number advances (wrapping), and
/// a frame that asks for acknowledgment and is not itself one awaits it.
pub open spec fn after_send(
    st: SessionCore,
    m: MessageView,
    options: SendOptions,
    timestamp_ms: u32,
) -> SessionCore {
    let f = outgoing_frame(st, m, options, timestamp_ms);
    let next = if st.next_sequence == 0xFFFF {
        0
    } else {
        (st.next_sequence + 1) as u16
    };
    let pending = if options.ack_requested && f.flags & FLAG_IS_ACK == 0 {
        st.pending.insert(
            slot_of(f.msg_id, f.sequence),
            PendingView { frame: f, receipt: None, decision: None },
        )
    } else {
        st.pending
    };
    SessionCore { next_sequence: next, pending, ..st }
}

/// The three acknowledgments a session sends.
#[derive(Debug, Clone, Copy, PartialEq, Eq, Structural)]
pub enum AckKind {
    Receipt,
    Accept,
    Reject(AckReason),
}

/// The acknowledgment of `frame`, sent by node `from`.
pub open spec fn ack_message(kind: AckKind, frame: FrameModel, from: NodeId) -> MessageView {
    match kind {
        AckKind::Receipt => MessageView::Rouge(
            RougeMessage::AckReceived(
                AckReceipt {
                    original_msg_id: frame.msg_id,
                    original_seq: frame.sequence,
                    from_node: from,
                },
            ),
        ),
        AckKind::Accept => MessageView::Rouge(
            RougeMessage::AckAccepted(
                AckDecision {
                    original_msg_id: frame.msg_id,
                    original_seq: frame.sequence,
                    from_node: from,
                    reason: AckReason::Accepted,
                },
            ),
        ),
        AckKind::Reject(reason) => MessageView::Rouge(
            RougeMessage::AckRejected(
                AckDecision {
                    original_msg_id: frame.msg_id,
                    original_seq: frame.sequence,
                    from_node: from,
                    reason,
                },
            ),
        ),
    }
}

/// The view of an optional frame.
pub open spec fn option_frame_view(f: Option<SynapseFrame>) -> Option<FrameModel> {
    match f {
        Some(f) => Some(f@),
        None => None,
    }
}

/// How acknowledgments are sent: from the local endpoint to the frame's
/// source, flagged as an acknowledgment, asking for none.
pub open spec fn ack_options(st: SessionCore, dst: EndpointId) -> SendOptions {
    SendOptions {
        src: st.config.local_endpoint,
        dst: Some(dst),
        ack_requested: false,
        extra_flags: FLAG_IS_ACK,
    }
}

/// Acknowledging `frame`: possible only when the local endpoint and the
/// frame's source are known; then the acknowledgment is sent.
pub open spec fn ack_step(st: SessionCore, kind: AckKind, frame: FrameModel, timestamp_ms: u32) -> (
    SessionCore,
    Option<FrameModel>,
) {
    match (st.config.local_endpoint, frame.src_endpoint) {
        (Some(local), Some(src)) => {
            let m = ack_message(kind, frame, node_of(local));
            let options = ack_options(st, EndpointId(src));
            (after_send(st, m, options, timestamp_ms), Some(outgoing_frame(st, m, options, timestamp_ms)))
        },
        _ => (st, None),
    }
}

/// Recording a receipt on the frame it acknowledges, if that frame awaits one.
pub open spec fn apply_receipt_spec(st: SessionCore, ack: AckReceipt) -> SessionCore {
    let k = slot_of(ack.original_msg_id, ack.original_seq);
    if st.pending.contains_key(k) {
        SessionCore {
            pending: st.pending.insert(k, PendingView { receipt: Some(ack), ..st.pending[k] }),
            ..st
        }
    } else {
        st
    }
}

/// Recording a decision on the frame it acknowledges, if that frame awaits one.
pub open spec fn apply_decision_spec(st: SessionCore, ack: AckDecision) -> SessionCore {
    let k = slot_of(ack.original_msg_id, ack.original_seq);
    if st.pending.contains_key(k) {
        SessionCore {
            pending: st.pending.insert(k, PendingView { decision: Some(ack), ..st.pending[k] }),
            ..st
        }
    } else {
        st
    }
}

/// Whether an inbound frame asks for an acknowledgment and is not one.
pub open spec fn wants_ack(flags: u8) -> bool {
    flags & FLAG_ACK_REQ != 0 && flags & FLAG_IS_ACK == 0
}

/// The session with one more decode error counted.
pub open spec fn count_decode_error(st: SessionCore) -> SessionCore {
    SessionCore { peer: PeerState { decode_errors: bump(st.peer.decode_errors), ..st.peer }, ..st }
}

/// Handling of a parsed inbound frame: an acknowledgment is recorded and
/// reported; every message is reported, with the receipt acknowledgment sent
/// for it when the session acknowledges receipts and the frame asks for one.
pub open spec fn handle_frame(st: SessionCore, frame: FrameModel, timestamp_ms: u32) -> (
    SessionCore,
    Seq<EventView>,
) {
    match spec_from_frame(frame) {
        Err(error) => (
            count_decode_error(st),
            seq![EventView::DecodeError(DecodeFailure::Message { error })],
        ),
        Ok(m) => {
            let (c1, acks) = match m {
                MessageView::Rouge(RougeMessage::AckReceived(a)) => (
                    apply_receipt_spec(st, a),
                    seq![EventView::AckReceived(a)],
                ),
                MessageView::Rouge(RougeMessage::AckAccepted(a)) => (
                    apply_decision_spec(st, a),
                    seq![EventView::AckAccepted(a)],
                ),
                MessageView::Rouge(RougeMessage::AckRejected(a)) => (
                    apply_decision_spec(st, a),
                    seq![EventView::AckRejected(a)],
                ),
                _ => (st, Seq::empty()),
            };
            let (c2, response) = if c1.config.auto_ack_receipts && wants_ack(frame.flags) {
                ack_step(c1, AckKind::Receipt, frame, timestamp_ms)
            } else {
                (c1, None)
            };
            let responses = match response {
                Some(f) => seq![f],
                None => Seq::empty(),
            };
            (c2, acks.push(EventView::Message { frame, message: m, auto_responses: responses }))
        },
    }
}

/// Processing of one delimited chunk: a valid frame updates the peer
/// statistics and is handled; anything else counts as a decode error.
pub open spec fn process_chunk(st: SessionCore, chunk: Seq<u8>, timestamp_ms: u32) -> (
    SessionCore,
    Seq<EventView>,
) {
    match spec_parse_cobs(chunk) {
        Ok(f) => {
            let peer = PeerState {
                frames_received: bump(st.peer.frames_received),
                last_timestamp_ms: Some(f.timestamp_ms),
                endpoint: match f.src_endpoint {
                    Some(s) => Some(EndpointId(s)),
                    None => None,
                },
                ..st.peer
            };
            handle_frame(SessionCore { peer, ..st }, f, timestamp_ms)
        },
        Err(error) => (
            count_decode_error(st),
            seq![EventView::DecodeError(DecodeFailure::Frame { error })],
        ),
    }
}

/// The position of the first 0x00 byte, if any.
pub open spec fn zero_position(s: Seq<u8>) -> Option<int>
    decreases s.len(),
{
    if s.len() == 0 {
        None
    } else if s[0] == 0 {
        Some(0)
    } else {
        match zero_position(s.drop_first()) {
            Some(p) => Some(p + 1),
            None => None,
        }
    }
}

/// `zero_position` finds the first zero byte, or says there is none.
pub proof fn lemma_zero_position(s: Seq<u8>)
    ensures
        zero_position(s) matches Some(p) ==> 0 <= p < s.len() && s[p] == 0 && forall|j: int|
            0 <= j < p ==> s[j] != 0,
        zero_position(s) is None ==> forall|j: int| 0 <= j < s.len() ==> s[j] != 0,
    decreases s.len(),
{
    if s.len() > 0 && s[0] != 0 {
        lemma_zero_position(s.drop_first());
        assert forall|j: int| 1 <= j < s.len() implies s[j] == s.drop_first()[j - 1] by {}
    }
}

/// Any position of a first zero byte is the one `zero_position` finds.
pub proof fn lemma_zero_position_unique(s: Seq<u8>, p: int)
    requires
        0 <= p < s.len(),
        s[p] == 0,
        forall|j: int| 0 <= j < p ==> s[j] != 0,
    ensures
        zero_position(s) == Some(p),
    decreases s.len(),
{
    if p > 0 {
        let t = s.drop_first();
        assert forall|j: int| 0 <= j < p - 1 implies t[j] != 0 by {
            assert(t[j] == s[j + 1]);
        }
        lemma_zero_position_unique(t, p - 1);
    }
}

/// Ingesting buffered bytes: the buffer is cut after each 0x00 delimiter
/// and each chunk processed in order (a lone delimiter is skipped); the
/// bytes after the last delimiter stay buffered.
pub open spec fn drain(st: SessionCore, buf: Seq<u8>, timestamp_ms: u32) -> (
    SessionCore,
    Seq<u8>,
    Seq<EventView>,
)
    decreases buf.len(),
{
    match zero_position(buf) {
        None => (st, buf, Seq::empty()),
        Some(p) => {
            proof {
                lemma_zero_position(buf);
            }
            let chunk = buf.take(p + 1);
            let rest = buf.skip(p + 1);
            if chunk.len() == 1 {
                drain(st, rest, timestamp_ms)
            } else {
                let (c1, ev1) = process_chunk(st, chunk, timestamp_ms);
                let (c2, left, ev2) = drain(c1, rest, timestamp_ms);
                (c2, left, ev1 + ev2)
            }
        },
    }
}

/// Ingestion does not depend on how the stream is cut: draining `x`, then
/// draining what is left followed by `y`, reaches the same state, leaves
/// the same bytes and reports the same events as draining `x + y` at once.
pub proof fn lemma_drain_split(st: SessionCore, x: Seq<u8>, y: Seq<u8>, timestamp_ms: u32)
    ensures
        ({
            let (s1, l1, e1) = drain(st, x, timestamp_ms);
            let (s2, l2, e2) = drain(s1, l1 + y, timestamp_ms);
            drain(st, x + y, timestamp_ms) == (s2, l2, e1 + e2)
        }),
    decreases x.len(),
{
    lemma_zero_position(x);
    match zero_position(x) {
        None => {
            let r = drain(st, x + y, timestamp_ms);
            assert(Seq::<EventView>::empty() + r.2 =~= r.2);
        },
        Some(p) => {
            lemma_zero_position_unique(x + y, p);
            let rest = x.skip(p + 1);
            assert((x + y).take(p + 1) =~= x.take(p + 1));
            assert((x + y).skip(p + 1) =~= rest + y);
            lemma_drain_split(st, rest, y, timestamp_ms);
            if x.take(p + 1).len() != 1 {
                let (c1, ev1) = process_chunk(st, x.take(p + 1), timestamp_ms);
                lemma_drain_split(c1, rest, y, timestamp_ms);
                let (c2, left, ev2) = drain(c1, rest, timestamp_ms);
                let (s3, l3, e3) = drain(c2, left + y, timestamp_ms);
                assert(ev1 + (ev2 + e3) =~= (ev1 + ev2) + e3);
            }
        },
    }
}

/// An inbound receipt or decision for a frame that awaits acknowledgment is
/// recorded on that frame's pending entry; the entry's frame and its other
/// acknowledgment are kept.
pub proof fn lemma_ack_recorded(st: SessionCore, frame: FrameModel, timestamp_ms: u32)
    ensures
        spec_from_frame(frame) matches Ok(MessageView::Rouge(RougeMessage::AckReceived(a))) ==> (
        st.pending.contains_key(slot_of(a.original_msg_id, a.original_seq)) ==> {
            let k = slot_of(a.original_msg_id, a.original_seq);
            let after = handle_frame(st, frame, timestamp_ms).0.pending;
            &&& after.contains_key(k)
            &&& after[k] == PendingView { receipt: Some(a), ..st.pending[k] }
        }),
        spec_from_frame(frame) matches Ok(MessageView::Rouge(RougeMessage::AckAccepted(a))) ==> (
        st.pending.contains_key(slot_of(a.original_msg_id, a.original_seq)) ==> {
            let k = slot_of(a.original_msg_id, a.original_seq);
            let after = handle_frame(st, frame, timestamp_ms).0.pending;
            &&& after.contains_key(k)
            &&& after[k] == PendingView { decision: Some(a), ..st.pending[k] }
        }),
        spec_from_frame(frame) matches Ok(MessageView::Rouge(RougeMessage::AckRejected(a))) ==> (
        st.pending.contains_key(slot_of(a.original_msg_id, a.original_seq)) ==> {
            let k = slot_of(a.original_msg_id, a.original_seq);
            let after = handle_frame(st, frame, timestamp_ms).0.pending;
            &&& after.contains_key(k)
            &&& after[k] == PendingView { decision: Some(a), ..st.pending[k] }
        }),
{
}

/// An inbound message that asks for acknowledgment (and is not one) is
/// answered, when the session acknowledges receipts and knows its local
/// endpoint and the frame's source, by exactly one frame: sent from the local
/// endpoint to that source, flagged as an acknowledgment, and decoding as the
/// receipt of the inbound frame by the local node.
pub proof fn lemma_auto_receipt(st: SessionCore, frame: FrameModel, timestamp_ms: u32)
    requires
        spec_from_frame(frame) is Ok,
        st.config.auto_ack_receipts,
        wants_ack(frame.flags),
        st.config.local_endpoint is Some,
        frame.src_endpoint is Some,
    ensures
        ({
            let events = handle_frame(st, frame, timestamp_ms).1;
            let local = st.config.local_endpoint.unwrap();
            &&& events.len() > 0
            &&& events.last() matches EventView::Message { auto_responses, .. } && {
                &&& auto_responses.len() == 1
                &&& auto_responses[0].src_endpoint == Some(local.0)
                &&& auto_responses[0].dst_endpoint == frame.src_endpoint
                &&& auto_responses[0].flags & FLAG_IS_ACK != 0
                &&& spec_from_frame(auto_responses[0]) == Ok::<MessageView, MessageError>(
                    MessageView::Rouge(
                        RougeMessage::AckReceived(
                            AckReceipt {
                                original_msg_id: frame.msg_id,
                                original_seq: frame.sequence,
                                from_node: node_of(local),
                            },
                        ),
                    ),
                )
            }
        }),
{
    let local = st.config.local_endpoint.unwrap();
    let m = ack_message(AckKind::Receipt, frame, node_of(local));
    let m0 = spec_from_frame(frame).unwrap();
    let c1 = match m0 {
        MessageView::Rouge(RougeMessage::AckReceived(a)) => apply_receipt_spec(st, a),
        MessageView::Rouge(RougeMessage::AckAccepted(a)) => apply_decision_spec(st, a),
        MessageView::Rouge(RougeMessage::AckRejected(a)) => apply_decision_spec(st, a),
        _ => st,
    };
    let r = outgoing_frame(c1, m, ack_options(c1, EndpointId(frame.src_endpoint.unwrap())), timestamp_ms);
    lemma_from_frame_to_payload(m, r);
    assert((FLAG_PAYLOAD_CRC | FLAG_IS_ACK) & FLAG_IS_ACK != 0) by (bit_vector);
    assert(r.flags == FLAG_PAYLOAD_CRC | FLAG_IS_ACK);
    assert(c1.config == st.config);
    assert(ack_step(c1, AckKind::Receipt, frame, timestamp_ms).1 == Some(r));
    let hf = handle_frame(st, frame, timestamp_ms);
    assert(hf.1.last() == EventView::Message { frame, message: m0, auto_responses: seq![r] });
}

/// Handling an inbound frame reports what the frame decodes to. A frame that
/// is no message is reported as that decode error alone. A message is
/// reported last, with the frame it came in; an acknowledgment is first
/// reported under its own kind (receipt, acceptance or rejection) with the
/// acknowledgment it carries; no other message adds an event.
pub proof fn lemma_handle_frame_events(st: SessionCore, frame: FrameModel, timestamp_ms: u32)
    ensures
        ({
            let ev = handle_frame(st, frame, timestamp_ms).1;
            match spec_from_frame(frame) {
                Err(error) => ev == seq![EventView::DecodeError(DecodeFailure::Message { error })],
                Ok(m) => {
                    &&& ev.len() > 0
                    &&& ev.last() matches EventView::Message { frame: g, message, .. } && g == frame
                        && message == m
                    &&& match m {
                        MessageView::Rouge(RougeMessage::AckReceived(a)) => ev.len() == 2 && ev[0]
                            == EventView::AckReceived(a),
                        MessageView::Rouge(RougeMessage::AckAccepted(a)) => ev.len() == 2 && ev[0]
                            == EventView::AckAccepted(a),
                        MessageView::Rouge(RougeMessage::AckRejected(a)) => ev.len() == 2 && ev[0]
                            == EventView::AckRejected(a),
                        _ => ev.len() == 1,
                    }
                },
            }
        }),
{
}

/// The frame that sending produces carries the message (its identifier and
/// payload, decoding back to it), the session's next sequence number and the
/// given time. It is routed from the source given in the options, or, only
/// when none is given, from the local endpoint, to the destination given in
/// the options; without a destination, or without any source, it is not
/// routed. It carries the extra flags and, if asked, the ACK-request flag.
pub proof fn lemma_outgoing_frame(
    st: SessionCore,
    m: MessageView,
    options: SendOptions,
    timestamp_ms: u32,
)
    ensures
        ({
            let f = outgoing_frame(st, m, options, timestamp_ms);
            &&& f.msg_id == spec_msg_id(m)
            &&& f.payload == spec_payload(m)
            &&& f.sequence == st.next_sequence
            &&& f.timestamp_ms == timestamp_ms
            &&& survives_payload(m) ==> spec_from_frame(f) == Ok::<MessageView, MessageError>(
                with_frame_timestamp(m, timestamp_ms),
            )
            &&& options.src matches Some(s) ==> (options.dst matches Some(d) ==> f.src_endpoint
                == Some(s.0) && f.dst_endpoint == Some(d.0))
            &&& options.src is None ==> (st.config.local_endpoint matches Some(l) ==> (
            options.dst matches Some(d) ==> f.src_endpoint == Some(l.0) && f.dst_endpoint == Some(
                d.0,
            )))
            &&& options.dst is None ==> f.src_endpoint is None && f.dst_endpoint is None
            &&& (options.src is None && st.config.local_endpoint is None) ==> f.src_endpoint is None
                && f.dst_endpoint is None
            &&& f.flags & options.extra_flags == options.extra_flags
            &&& f.flags & FLAG_PAYLOAD_CRC == FLAG_PAYLOAD_CRC
            &&& options.ack_requested ==> f.flags & FLAG_ACK_REQ == FLAG_ACK_REQ
        }),
{
    let f = outgoing_frame(st, m, options, timestamp_ms);
    if survives_payload(m) {
        lemma_from_frame_to_payload(m, f);
    }
    let e = options.extra_flags;
    assert((0x20u8 | e) & e == e && (0x20u8 | e) & 0x20 == 0x20) by (bit_vector);
    assert(((0x20u8 | e) | 0x01) & e == e && ((0x20u8 | e) | 0x01) & 0x20 == 0x20 && ((0x20u8
        | e) | 0x01) & 0x01 == 0x01) by (bit_vector);
}

/// Sending advances the sequence number by one (wrapping from 0xFFFF to 0)
/// and keeps the configuration and peer statistics. A message sent asking
/// for acknowledgment, and not itself flagged as one, then awaits it: the
/// sent frame is recorded under its message identifier and sequence number,
/// with no acknowledgment seen yet. Any other send leaves the table as it was.
pub proof fn lemma_after_send(st: SessionCore, m: MessageView, options: SendOptions, timestamp_ms: u32)
    ensures
        ({
            let after = after_send(st, m, options, timestamp_ms);
            let f = outgoing_frame(st, m, options, timestamp_ms);
            &&& after.next_sequence == (if st.next_sequence == 0xFFFF {
                0
            } else {
                st.next_sequence + 1
            })
            &&& after.config == st.config
            &&& after.peer == st.peer
            &&& options.ack_requested && options.extra_flags & FLAG_IS_ACK == 0 ==> after.pending
                == st.pending.insert(
                slot_of(spec_msg_id(m), st.next_sequence),
                PendingView { frame: f, receipt: None, decision: None },
            )
            &&& !(options.ack_requested && options.extra_flags & FLAG_IS_ACK == 0) ==> after.pending
                == st.pending
        }),
{
    let e = options.extra_flags;
    assert(((0x20u8 | e) | 0x01) & 0x02 == e & 0x02 && (0x20u8 | e) & 0x02 == e & 0x02)
        by (bit_vector);
}

/// Handling a frame counts a decode error exactly when the frame holds no
/// message (wrapping the counter), and otherwise leaves the peer statistics
/// and configuration alone.
pub proof fn lemma_handle_frame_peer(st: SessionCore, frame: FrameModel, timestamp_ms: u32)
    ensures
        ({
            let after = handle_frame(st, frame, timestamp_ms).0;
            &&& after.config == st.config
            &&& spec_from_frame(frame) is Err ==> after.peer == (PeerState {
                decode_errors: if st.peer.decode_errors == 0xFFFF_FFFF_FFFF_FFFF {
                    0
                } else {
                    (st.peer.decode_errors + 1) as u64
                },
                ..st.peer
            })
            &&& spec_from_frame(frame) is Ok ==> after.peer == st.peer
        }),
{
}

/// Processing one delimited chunk: a chunk that is a valid COBS-encoded
/// frame counts one more frame received (wrapping), records the frame's
/// time and source endpoint as the peer's, and is handled; any other chunk
/// counts one decode error and is reported as that frame error alone.
pub proof fn lemma_process_chunk(st: SessionCore, chunk: Seq<u8>, timestamp_ms: u32)
    ensures
        ({
            let (after, ev) = process_chunk(st, chunk, timestamp_ms);
            match spec_parse_cobs(chunk) {
                Ok(f) => {
                    let seen = SessionCore {
                        peer: PeerState {
                            frames_received: if st.peer.frames_received == 0xFFFF_FFFF_FFFF_FFFF {
                                0
                            } else {
                                (st.peer.frames_received + 1) as u64
                            },
                            last_timestamp_ms: Some(f.timestamp_ms),
                            endpoint: match f.src_endpoint {
                                Some(s) => Some(EndpointId(s)),
                                None => None,
                            },
                            decode_errors: st.peer.decode_errors,
                        },
                        ..st
                    };
                    (after, ev) == handle_frame(seen, f, timestamp_ms)
                },
                Err(error) => {
                    &&& ev == seq![EventView::DecodeError(DecodeFailure::Frame { error })]
                    &&& after == SessionCore {
                        peer: PeerState {
                            decode_errors: if st.peer.decode_errors == 0xFFFF_FFFF_FFFF_FFFF {
                                0
                            } else {
                                (st.peer.decode_errors + 1) as u64
                            },
                            ..st.peer
                        },
                        ..st
                    }
                },
            }
        }),
{
}

/// Ingestion keeps exactly the bytes after the last 0x00 delimiter: what is
/// left buffered is a suffix of the input and holds no delimiter, and input
/// with no delimiter is only buffered. A single frame followed by its
/// delimiter is processed as one chunk, leaving nothing buffered.
pub proof fn lemma_drain_leftover(st: SessionCore, buf: Seq<u8>, timestamp_ms: u32)
    ensures
        ({
            let (after, left, ev) = drain(st, buf, timestamp_ms);
            &&& left.len() <= buf.len()
            &&& left == buf.skip(buf.len() - left.len())
            &&& forall|j: int| 0 <= j < left.len() ==> left[j] != 0
            &&& (forall|j: int| 0 <= j < buf.len() ==> buf[j] != 0) ==> (after, left, ev) == (
                st,
                buf,
                Seq::<EventView>::empty(),
            )
        }),
        buf.len() >= 2 && buf.last() == 0 && (forall|j: int| 0 <= j < buf.len() - 1 ==> buf[j]
            != 0) ==> ({
            let (c1, ev1) = process_chunk(st, buf, timestamp_ms);
            drain(st, buf, timestamp_ms) == (c1, Seq::<u8>::empty(), ev1)
        }),
    decreases buf.len(),
{
    lemma_zero_position(buf);
    match zero_position(buf) {
        None => {},
        Some(p) => {
            let rest = buf.skip(p + 1);
            let chunk = buf.take(p + 1);
            if chunk.len() == 1 {
                lemma_drain_leftover(st, rest, timestamp_ms);
                let left = drain(st, rest, timestamp_ms).1;
                assert(rest.skip(rest.len() - left.len()) =~= buf.skip(buf.len() - left.len()));
            } else {
                let c1 = process_chunk(st, chunk, timestamp_ms).0;
                lemma_drain_leftover(c1, rest, timestamp_ms);
                let left = drain(c1, rest, timestamp_ms).1;
                assert(rest.skip(rest.len() - left.len()) =~= buf.skip(buf.len() - left.len()));
            }
        },
    }
    if buf.len() >= 2 && buf.last() == 0 && (forall|j: int| 0 <= j < buf.len() - 1 ==> buf[j] != 0) {
        lemma_zero_position_unique(buf, buf.len() - 1);
        assert(buf.take(buf.len() as int) =~= buf);
        assert(buf.skip(buf.len() as int) =~= Seq::<u8>::empty());
        let (c1, ev1) = process_chunk(st, buf, timestamp_ms);
        assert(ev1 + Seq::<EventView>::empty() =~= ev1);
    }
}

/// An acknowledgment can be sent only when the local endpoint and the
/// acknowledged frame's source are known; otherwise nothing changes. Then
/// exactly one frame is sent, from the local endpoint to that source,
/// numbered with the next sequence number, flagged as an acknowledgment and
/// asking for none, and decoding as the acknowledgment of that frame (its
/// message identifier and sequence number) by the local node: a receipt, an
/// acceptance (reason `Accepted`) or a rejection with the given reason. The
/// sequence number advances and no entry awaits acknowledgment because of it.
pub proof fn lemma_ack_frame(st: SessionCore, kind: AckKind, frame: FrameModel, timestamp_ms: u32)
    ensures
        st.config.local_endpoint is None || frame.src_endpoint is None ==> ack_step(
            st,
            kind,
            frame,
            timestamp_ms,
        ) == (st, None::<FrameModel>),
        st.config.local_endpoint matches Some(local) ==> (frame.src_endpoint matches Some(src) ==> {
            let (after, sent) = ack_step(st, kind, frame, timestamp_ms);
            &&& sent matches Some(a) && {
                &&& a.src_endpoint == Some(local.0)
                &&& a.dst_endpoint == Some(src)
                &&& a.sequence == st.next_sequence
                &&& a.timestamp_ms == timestamp_ms
                &&& a.flags & FLAG_IS_ACK == FLAG_IS_ACK
                &&& a.flags & FLAG_ACK_REQ == 0
                &&& spec_from_frame(a) == Ok::<MessageView, MessageError>(
                    match kind {
                        AckKind::Receipt => MessageView::Rouge(
                            RougeMessage::AckReceived(
                                AckReceipt {
                                    original_msg_id: frame.msg_id,
                                    original_seq: frame.sequence,
                                    from_node: node_of(local),
                                },
                            ),
                        ),
                        AckKind::Accept => MessageView::Rouge(
                            RougeMessage::AckAccepted(
                                AckDecision {
                                    original_msg_id: frame.msg_id,
                                    original_seq: frame.sequence,
                                    from_node: node_of(local),
                                    reason: AckReason::Accepted,
                                },
                            ),
                        ),
                        AckKind::Reject(reason) => MessageView::Rouge(
                            RougeMessage::AckRejected(
                                AckDecision {
                                    original_msg_id: frame.msg_id,
                                    original_seq: frame.sequence,
                                    from_node: node_of(local),
                                    reason,
                                },
                            ),
                        ),
                    },
                )
            }
            &&& after.pending == st.pending
            &&& after.config == st.config
            &&& after.peer == st.peer
            &&& after.next_sequence == (if st.next_sequence == 0xFFFF {
                0
            } else {
                st.next_sequence + 1
            })
        }),
{
    if st.config.local_endpoint is Some && frame.src_endpoint is Some {
        let local = st.config.local_endpoint.unwrap();
        let m = ack_message(kind, frame, node_of(local));
        let options = ack_options(st, EndpointId(frame.src_endpoint.unwrap()));
        let a = outgoing_frame(st, m, options, timestamp_ms);
        lemma_from_frame_to_payload(m, a);
        assert(a.flags == FLAG_PAYLOAD_CRC | FLAG_IS_ACK);
        assert((0x20u8 | 0x02u8) & 0x02 == 0x02 && (0x20u8 | 0x02u8) & 0x01 == 0) by (bit_vector);
    }
}

/// A session over a byte stream.
pub struct SynapseSession {
    config: RuntimeConfig,
    next_sequence: u16,
    rx_buffer: Vec<u8>,
    pending: HashMap<u32, PendingTx>,
    peer: PeerState,
}

impl SynapseSession {
    /// The abstract state of the session.
    pub closed spec fn state(&self) -> SessionCore {
        SessionCore {
            config: self.config,
            next_sequence: self.next_sequence,
            pending: pending_view(self.pending@),
            peer: self.peer,
        }
    }

    /// Bytes received but not yet delimited.
    pub closed spec fn buffered(&self) -> Seq<u8> {
        self.rx_buffer@
    }

    pub fn new(config: RuntimeConfig) -> (s: Self)
        ensures
            s.state() == (SessionCore {
                config,
                next_sequence: 1,
                pending: Map::empty(),
                peer: PeerState::initial(),
            }),
            s.buffered() == Seq::<u8>::empty(),
    {
        let s = Self {
            config,
            next_sequence: 1,
            rx_buffer: Vec::new(),
            pending: HashMap::new(),
            peer: PeerState::new(),
        };
        assert(pending_view(s.pending@) =~= Map::empty());
        s
    }

    pub fn config(&self) -> (c: RuntimeConfig)
        ensures
            c == self.state().config,
    {
        self.config
    }

    pub fn peer_state(&self) -> (p: PeerState)
        ensures
            p == self.state().peer,
    {
        self.peer
    }

    /// The table of frames awaiting acknowledgment, keyed by
    /// `PendingMessageKey::slot`.
    pub fn pending(&self) -> (m: &HashMap<u32, PendingTx>)
        ensures
            pending_view(m@) == self.state().pending,
    {
        &self.pending
    }

    pub fn pending_tx(&self, key: PendingMessageKey) -> (p: Option<&PendingTx>)
        ensures
            match p {
                Some(tx) => self.state().pending.contains_key(key.spec_slot()) && tx@
                    == self.state().pending[key.spec_slot()],
                None => !self.state().pending.contains_key(key.spec_slot()),
            },
    {
        self.pending.get(&key.slot())
    }

    pub fn clear_pending(&mut self, key: PendingMessageKey) -> (p: Option<PendingTx>)
        ensures
            final(self).state() == (SessionCore {
                pending: old(self).state().pending.remove(key.spec_slot()),
                ..old(self).state()
            }),
            final(self).buffered() == old(self).buffered(),
            match p {
                Some(tx) => old(self).state().pending.contains_key(key.spec_slot()) && tx@
                    == old(self).state().pending[key.spec_slot()],
                None => !old(self).state().pending.contains_key(key.spec_slot()),
            },
    {
        let r = self.pending.remove(&key.slot());
        assert(pending_view(self.pending@) =~= pending_view(old(self).pending@).remove(key.spec_slot()));
        r
    }
    /// Send a message: number it, route it, flag it, and track it if it asks
    /// for acknowledgment. The frame is stamped with the current time.
    pub fn send_message(&mut self, message: SynapseMessage, options: SendOptions) -> (frame:
        SynapseFrame)
        ensures
            frame@ == outgoing_frame(old(self).state(), message@, options, frame.timestamp_ms),
            final(self).state() == after_send(
                old(self).state(),
                message@,
                options,
                frame.timestamp_ms,
            ),
            final(self).buffered() == old(self).buffered(),
    {
        let timestamp_ms = current_timestamp_ms();
        self.send_message_at(message, options, timestamp_ms)
    }

    /// Send a message stamped `timestamp_ms`.
    pub fn send_message_at(
        &mut self,
        message: SynapseMessage,
        options: SendOptions,
        timestamp_ms: u32,
    ) -> (frame: SynapseFrame)
        ensures
            frame@ == outgoing_frame(old(self).state(), message@, options, timestamp_ms),
            final(self).state() == after_send(old(self).state(), message@, options, timestamp_ms),
            final(self).buffered() == old(self).buffered(),
    {
        let sequence = self.next_sequence;
        self.next_sequence = if sequence == 0xFFFF {
            0
        } else {
            sequence + 1
        };
        let mut frame = message.to_frame_at(timestamp_ms).with_sequence(sequence);
        let src = match options.src {
            Some(s) => Some(s),
            None => self.config.local_endpoint,
        };
        match (src, options.dst) {
            (Some(s), Some(d)) => {
                frame = frame.with_endpoint_ids(s, d);
            },
            _ => {},
        }
        let mut flags = frame.flags | options.extra_flags;
        if options.ack_requested {
            flags = flags | FLAG_ACK_REQ;
        }
        frame = frame.with_flags(flags);
        if options.ack_requested && (frame.flags & FLAG_IS_ACK) == 0 {
            let key = PendingMessageKey::from_frame(&frame);
            let entry = PendingTx { frame: frame.duplicate(), receipt: None, decision: None };
            self.pending.insert(key.slot(), entry);
        }
        proof {
            let expected = after_send(old(self).state(), message@, options, timestamp_ms);
            assert(pending_view(self.pending@) =~= expected.pending);
        }
        frame
    }

    /// Send the acknowledgment `kind` of `frame`, if the local endpoint and
    /// the frame's source are known.
    fn send_ack_at(&mut self, kind: AckKind, frame: &SynapseFrame, timestamp_ms: u32) -> (r:
        Option<SynapseFrame>)
        ensures
            final(self).state() == ack_step(old(self).state(), kind, frame@, timestamp_ms).0,
            option_frame_view(r) == ack_step(old(self).state(), kind, frame@, timestamp_ms).1,
            final(self).buffered() == old(self).buffered(),
    {
        let local = match self.config.local_endpoint {
            Some(local) => local,
            None => return None,
        };
        let dst = match frame.src_endpoint {
            Some(src) => EndpointId(src),
            None => return None,
        };
        let from_node = local.node();
        let ack = match kind {
            AckKind::Receipt => SynapseMessage::Rouge(
                RougeMessage::AckReceived(AckReceipt::for_frame(frame, from_node)),
            ),
            AckKind::Accept => SynapseMessage::Rouge(
                RougeMessage::AckAccepted(AckDecision::accept_for_frame(frame, from_node)),
            ),
            AckKind::Reject(reason) => SynapseMessage::Rouge(
                RougeMessage::AckRejected(AckDecision::reject_for_frame(frame, from_node, reason)),
            ),
        };
        let options = SendOptions {
            src: self.config.local_endpoint,
            dst: Some(dst),
            ack_requested: false,
            extra_flags: FLAG_IS_ACK,
        };
        Some(self.send_message_at(ack, options, timestamp_ms))
    }

    /// Build and send the receipt acknowledgment of `frame` (stamped with
    /// the current time), if the local endpoint and the frame's source are
    /// known.
    pub fn build_receipt_ack(&mut self, frame: &SynapseFrame) -> (r: Option<SynapseFrame>)
        ensures
            exists|t: u32|
                final(self).state() == ack_step(old(self).state(), AckKind::Receipt, frame@, t).0
                    && option_frame_view(r) == ack_step(
                    old(self).state(),
                    AckKind::Receipt,
                    frame@,
                    t,
                ).1,
            final(self).buffered() == old(self).buffered(),
    {
        let timestamp_ms = current_timestamp_ms();
        self.build_receipt_ack_at(frame, timestamp_ms)
    }

    /// Build and send the receipt acknowledgment of `frame`, stamped `timestamp_ms`.
    pub fn build_receipt_ack_at(&mut self, frame: &SynapseFrame, timestamp_ms: u32) -> (r: Option<
        SynapseFrame,
    >)
        ensures
            final(self).state() == ack_step(old(self).state(), AckKind::Receipt, frame@, timestamp_ms).0,
            option_frame_view(r) == ack_step(old(self).state(), AckKind::Receipt, frame@, timestamp_ms).1,
            final(self).buffered() == old(self).buffered(),
    {
        self.send_ack_at(AckKind::Receipt, frame, timestamp_ms)
    }

    /// Build and send the acceptance of `frame` (stamped with the current
    /// time), if the local endpoint and the frame's source are known.
    pub fn build_accept_ack(&mut self, frame: &SynapseFrame) -> (r: Option<SynapseFrame>)
        ensures
            exists|t: u32|
                final(self).state() == ack_step(old(self).state(), AckKind::Accept, frame@, t).0
                    && option_frame_view(r) == ack_step(
                    old(self).state(),
                    AckKind::Accept,
                    frame@,
                    t,
                ).1,
            final(self).buffered() == old(self).buffered(),
    {
        let timestamp_ms = current_timestamp_ms();
        self.build_accept_ack_at(frame, timestamp_ms)
    }

    /// Build and send the acceptance of `frame`, stamped `timestamp_ms`.
    pub fn build_accept_ack_at(&mut self, frame: &SynapseFrame, timestamp_ms: u32) -> (r: Option<
        SynapseFrame,
    >)
        ensures
            final(self).state() == ack_step(old(self).state(), AckKind::Accept, frame@, timestamp_ms).0,
            option_frame_view(r) == ack_step(old(self).state(), AckKind::Accept, frame@, timestamp_ms).1,
            final(self).buffered() == old(self).buffered(),
    {
        self.send_ack_at(AckKind::Accept, frame, timestamp_ms)
    }

    /// Build and send the refusal of `frame` for `reason` (stamped with the
    /// current time), if the local endpoint and the frame's source are known.
    pub fn build_reject_ack(&mut self, frame: &SynapseFrame, reason: AckReason) -> (r: Option<
        SynapseFrame,
    >)
        ensures
            exists|t: u32|
                final(self).state() == ack_step(
                    old(self).state(),
                    AckKind::Reject(reason),
                    frame@,
                    t,
                ).0 && option_frame_view(r) == ack_step(
                    old(self).state(),
                    AckKind::Reject(reason),
                    frame@,
                    t,
                ).1,
            final(self).buffered() == old(self).buffered(),
    {
        let timestamp_ms = current_timestamp_ms();
        self.build_reject_ack_at(frame, reason, timestamp_ms)
    }

    /// Build and send the refusal of `frame` for `reason`, stamped `timestamp_ms`.
    pub fn build_reject_ack_at(
        &mut self,
        frame: &SynapseFrame,
        reason: AckReason,
        timestamp_ms: u32,
    ) -> (r: Option<SynapseFrame>)
        ensures
            final(self).state() == ack_step(
                old(self).state(),
                AckKind::Reject(reason),
                frame@,
                timestamp_ms,
            ).0,
            option_frame_view(r) == ack_step(
                old(self).state(),
                AckKind::Reject(reason),
                frame@,
                timestamp_ms,
            ).1,
            final(self).buffered() == old(self).buffered(),
    {
        self.send_ack_at(AckKind::Reject(reason), frame, timestamp_ms)
    }

    fn should_auto_ack(&self, frame: &SynapseFrame) -> (b: bool)
        ensures
            b == wants_ack(frame.flags),
    {
        (frame.flags & FLAG_ACK_REQ) != 0 && (frame.flags & FLAG_IS_ACK) == 0
    }

    fn apply_receipt(&mut self, ack: AckReceipt)
        ensures
            final(self).state() == apply_receipt_spec(old(self).state(), ack),
            final(self).buffered() == old(self).buffered(),
    {
        let key = PendingMessageKey::new(ack.original_msg_id, ack.original_seq);
        let slot = key.slot();
        match self.pending.remove(&slot) {
            Some(entry) => {
                let updated = PendingTx { frame: entry.frame, receipt: Some(ack), decision: entry.decision };
                self.pending.insert(slot, updated);
                proof {
                    assert(pending_view(self.pending@) =~= apply_receipt_spec(old(self).state(), ack).pending);
                }
            },
            None => {
                proof {
                    assert(pending_view(self.pending@) =~= pending_view(old(self).pending@));
                }
            },
        }
    }

    fn apply_decision(&mut self, ack: AckDecision)
        ensures
            final(self).state() == apply_decision_spec(old(self).state(), ack),
            final(self).buffered() == old(self).buffered(),
    {
        let key = PendingMessageKey::new(ack.original_msg_id, ack.original_seq);
        let slot = key.slot();
        match self.pending.remove(&slot) {
            Some(entry) => {
                let updated = PendingTx { frame: entry.frame, receipt: entry.receipt, decision: Some(ack) };
                self.pending.insert(slot, updated);
                proof {
                    assert(pending_view(self.pending@) =~= apply_decision_spec(old(self).state(), ack).pending);
                }
            },
            None => {
                proof {
                    assert(pending_view(self.pending@) =~= pending_view(old(self).pending@));
                }
            },
        }
    }
    /// Feed received bytes: buffer them, then cut the buffer after each 0x00
    /// delimiter and process each frame in order (`drain`). Frames sent
    /// automatically are stamped with the current time.
    pub fn ingest_bytes(&mut self, bytes: &[u8]) -> (events: Vec<RuntimeEvent>)
        ensures
            exists|t: u32|
                #![trigger drain(old(self).state(), old(self).buffered() + bytes@, t)]
                {
                    let r = drain(old(self).state(), old(self).buffered() + bytes@, t);
                    &&& final(self).state() == r.0
                    &&& final(self).buffered() == r.1
                    &&& events_view(events@) == r.2
                },
    {
        let timestamp_ms = current_timestamp_ms();
        self.ingest_bytes_at(bytes, timestamp_ms)
    }

    /// Feed received bytes; frames sent automatically are stamped `timestamp_ms`.
    pub fn ingest_bytes_at(&mut self, bytes: &[u8], timestamp_ms: u32) -> (events: Vec<
        RuntimeEvent,
    >)
        ensures
            ({
                let r = drain(old(self).state(), old(self).buffered() + bytes@, timestamp_ms);
                &&& final(self).state() == r.0
                &&& final(self).buffered() == r.1
                &&& events_view(events@) == r.2
            }),
    {
        push_bytes(&mut self.rx_buffer, bytes);
        let mut events: Vec<RuntimeEvent> = Vec::new();
        let ghost target = drain(old(self).state(), old(self).buffered() + bytes@, timestamp_ms);
        assert(events_view(events@) + target.2 =~= target.2);
        loop
            invariant_except_break
                ({
                    let r = drain(self.state(), self.buffered(), timestamp_ms);
                    &&& target.0 == r.0
                    &&& target.1 == r.1
                    &&& target.2 == events_view(events@) + r.2
                }),
            ensures
                self.state() == target.0,
                self.buffered() == target.1,
                events_view(events@) == target.2,
            decreases self.rx_buffer@.len(),
        {
            let ghost before_events = events_view(events@);
            let ghost buf = self.rx_buffer@;
            let len = self.rx_buffer.len();
            let mut pos: usize = 0;
            while pos < len && self.rx_buffer[pos] != 0
                invariant
                    pos <= len,
                    len == self.rx_buffer@.len(),
                    buf == self.rx_buffer@,
                    forall|j: int| 0 <= j < pos ==> buf[j] != 0,
                decreases len - pos,
            {
                pos = pos + 1;
            }
            if pos == len {
                proof {
                    lemma_zero_position(buf);
                    assert(events_view(events@) + Seq::<EventView>::empty() =~= events_view(events@));
                }
                break;
            }
            proof {
                lemma_zero_position_unique(buf, pos as int);
            }
            let mut encoded_frame = self.rx_buffer.split_off(pos + 1);
            std::mem::swap(&mut encoded_frame, &mut self.rx_buffer);
            assert(encoded_frame@ =~= buf.take(pos + 1));
            assert(self.rx_buffer@ =~= buf.skip(pos + 1));
            if encoded_frame.len() == 1 {
                continue;
            }
            let ghost st0 = self.state();
            match SynapseFrame::parse_cobs(encoded_frame.as_slice()) {
                Ok(frame) => {
                    self.peer.frames_received = bump_counter(self.peer.frames_received);
                    self.peer.last_timestamp_ms = Some(frame.timestamp_ms);
                    self.peer.endpoint = match frame.src_endpoint {
                        Some(src) => Some(EndpointId(src)),
                        None => None,
                    };
                    let mut new_events = self.handle_inbound_frame(frame, timestamp_ms);
                    let ghost added = events_view(new_events@);
                    let ghost old_events = events@;
                    events.append(&mut new_events);
                    proof {
                        assert(events_view(events@) =~= events_view(old_events) + added);
                    }
                },
                Err(error) => {
                    self.peer.decode_errors = bump_counter(self.peer.decode_errors);
                    let ghost old_events = events@;
                    events.push(RuntimeEvent::DecodeError(DecodeFailure::Frame { error }));
                    proof {
                        assert(events_view(events@) =~= events_view(old_events).push(
                            EventView::DecodeError(DecodeFailure::Frame { error }),
                        ));
                    }
                },
            }
            proof {
                let step = process_chunk(st0, buf.take(pos + 1), timestamp_ms);
                assert(self.state() == step.0);
                assert(events_view(events@) == before_events + step.1);
                let r = drain(self.state(), self.buffered(), timestamp_ms);
                assert(before_events + (step.1 + r.2) =~= events_view(events@) + r.2);
            }
        }
        events
    }

    fn handle_inbound_frame(&mut self, frame: SynapseFrame, timestamp_ms: u32) -> (events: Vec<
        RuntimeEvent,
    >)
        ensures
            final(self).state() == handle_frame(old(self).state(), frame@, timestamp_ms).0,
            events_view(events@) == handle_frame(old(self).state(), frame@, timestamp_ms).1,
            final(self).buffered() == old(self).buffered(),
    {
        let mut events: Vec<RuntimeEvent> = Vec::new();
        match SynapseMessage::from_frame(&frame) {
            Ok(message) => {
                match &message {
                    SynapseMessage::Rouge(RougeMessage::AckReceived(ack)) => {
                        self.apply_receipt(*ack);
                        events.push(RuntimeEvent::AckReceived(*ack));
                    },
                    SynapseMessage::Rouge(RougeMessage::AckAccepted(ack)) => {
                        self.apply_decision(*ack);
                        events.push(RuntimeEvent::AckAccepted(*ack));
                    },
                    SynapseMessage::Rouge(RougeMessage::AckRejected(ack)) => {
                        self.apply_decision(*ack);
                        events.push(RuntimeEvent::AckRejected(*ack));
                    },
                    _ => {},
                }
                let ghost st1 = self.state();
                let mut auto_responses: Vec<SynapseFrame> = Vec::new();
                if self.config.auto_ack_receipts && self.should_auto_ack(&frame) {
                    match self.build_receipt_ack_at(&frame, timestamp_ms) {
                        Some(ack_frame) => {
                            auto_responses.push(ack_frame);
                        },
                        None => {},
                    }
                }
                proof {
                    let r = if st1.config.auto_ack_receipts && wants_ack(frame.flags) {
                        ack_step(st1, AckKind::Receipt, frame@, timestamp_ms)
                    } else {
                        (st1, None)
                    };
                    let responses = match r.1 {
                        Some(f) => seq![f],
                        None => Seq::empty(),
                    };
                    assert(frames_view(auto_responses@) =~= responses);
                }
                let ghost old_events = events@;
                events.push(RuntimeEvent::Message(MessageEvent { frame, message, auto_responses }));
                proof {
                    assert(events_view(events@) =~= events_view(old_events).push(
                        events@.last()@,
                    ));
                }
            },
            Err(error) => {
                self.peer.decode_errors = bump_counter(self.peer.decode_errors);
                events.push(RuntimeEvent::DecodeError(DecodeFailure::Message { error }));
            },
        }
        assert(events_view(events@) =~= handle_frame(old(self).state(), frame@, timestamp_ms).1);
        events
    }
}

} // verus!
