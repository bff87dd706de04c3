//! Decisions of one realtime websocket connection: what an inbound frame means, which
//! heartbeats are still unanswered, when the liveness guard probes, and how a
//! `postgres_changes` payload becomes a change event. The socket, timers and channels live
//! with the host.

use vstd::prelude::*;
use crate::polybase::events::RealtimeOp;
use crate::polybase::realtime::DisconnectReason;
use crate::polybase::record::{FieldValue, FieldView, Record};
use crate::polybase::string_map::StringMap;
use crate::text::{decimal, push_str, str_eq, string_from_chars, u64_decimal};

verus! {

/// The parts of a Phoenix v2 frame `[join_ref, ref, topic, event, payload]` the connection reads.
#[derive(Debug)]
pub struct PhoenixFrame {
    /// The frame's event name.
    pub event: String,
    /// The frame's `ref`, when it is a string.
    pub reference: Option<String>,
    /// The payload's `status`, when it is a string.
    pub status: Option<String>,
}

/// The frame a decoded Phoenix message holds: the message is an array of `arity` items whose
/// `ref` (second), `topic` (third) and `event` (fourth) items are given when they are strings,
/// as is the `status` of its payload (fifth). A frame needs exactly five items and a string
/// topic and event; the `ref` and `status` are kept when present.
pub fn phoenix_frame(
    arity: usize,
    reference: Option<String>,
    topic: Option<String>,
    event: Option<String>,
    status: Option<String>,
) -> (r: Option<PhoenixFrame>)
    ensures
        (arity == 5 && topic is Some && event is Some) <==> r is Some,
        r matches Some(f) ==> (event matches Some(e) && f.event@ == e@) && match (f.reference, reference) {
            (Some(a), Some(b)) => a@ == b@,
            (None, None) => true,
            _ => false,
        } && match (f.status, status) {
            (Some(a), Some(b)) => a@ == b@,
            (None, None) => true,
            _ => false,
        },
{
    if arity != 5 {
        return None;
    }
    match (topic, event) {
        (Some(_), Some(event)) => Some(PhoenixFrame { event, reference, status }),
        _ => None,
    }
}

/// An inbound websocket frame, as far as the connection's decisions need it.
#[derive(Debug)]
pub enum InboundFrame {
    /// A text frame; `None` when the text is not a Phoenix v2 frame.
    Text(Option<PhoenixFrame>),
    /// A ping.
    Ping,
    /// A pong.
    Pong,
    /// The peer closed the socket.
    Close,
    /// Any other frame (binary, raw).
    Other,
    /// The socket reported an error.
    Error,
}

/// What the read side does with a frame.
#[derive(Debug, Clone, Copy, PartialEq, Eq, Structural)]
pub enum FrameAction {
    /// Decode the payload as `postgres_changes` and broadcast the change.
    Deliver,
    /// A reply: the frame's `ref` (if any) is no longer outstanding.
    Acknowledge,
    /// The connection is over, for the given reason.
    Disconnect(DisconnectReason),
    /// Nothing to do.
    Ignore,
}

/// Optional string, by its characters.
pub open spec fn opt_chars(s: Option<String>) -> Option<Seq<char>> {
    match s {
        Some(t) => Some(t@),
        None => None,
    }
}

/// The decision for a Phoenix frame with event `event` and payload status `status`.
pub open spec fn phoenix_action(event: Seq<char>, status: Option<Seq<char>>) -> FrameAction {
    if event == "postgres_changes"@ {
        FrameAction::Deliver
    } else if event == "phx_reply"@ {
        FrameAction::Acknowledge
    } else if event == "system"@ {
        if status == Some("ok"@) {
            FrameAction::Ignore
        } else {
            FrameAction::Disconnect(DisconnectReason::ChannelClosed)
        }
    } else if event == "phx_error"@ || event == "phx_close"@ {
        FrameAction::Disconnect(DisconnectReason::ChannelClosed)
    } else {
        FrameAction::Ignore
    }
}

/// The decision for an inbound frame.
pub open spec fn frame_action(f: InboundFrame) -> FrameAction {
    match f {
        InboundFrame::Text(Some(p)) => phoenix_action(p.event@, opt_chars(p.status)),
        InboundFrame::Text(None) => FrameAction::Ignore,
        InboundFrame::Close => FrameAction::Disconnect(DisconnectReason::ChannelClosed),
        InboundFrame::Error => FrameAction::Disconnect(DisconnectReason::WebsocketError),
        _ => FrameAction::Ignore,
    }
}

/// Whether the frame counts as inbound traffic for the liveness guard.
pub open spec fn frame_is_traffic(f: InboundFrame) -> bool {
    f is Text || f is Ping || f is Pong
}

/// What the read side does with `frame`: deliver changes, clear answered heartbeats, and end
/// the connection on `phx_close`, `phx_error`, a non-`ok` system message, a close frame or a
/// socket error.
pub fn inbound_action(frame: &InboundFrame) -> (r: FrameAction)
    ensures
        r == frame_action(*frame),
{
    match frame {
        InboundFrame::Text(Some(p)) => {
            let event = p.event.as_str();
            if str_eq(event, "postgres_changes") {
                FrameAction::Deliver
            } else if str_eq(event, "phx_reply") {
                FrameAction::Acknowledge
            } else if str_eq(event, "system") {
                let ok = match &p.status {
                    Some(s) => str_eq(s.as_str(), "ok"),
                    None => false,
                };
                if ok {
                    FrameAction::Ignore
                } else {
                    FrameAction::Disconnect(DisconnectReason::ChannelClosed)
                }
            } else if str_eq(event, "phx_error") || str_eq(event, "phx_close") {
                FrameAction::Disconnect(DisconnectReason::ChannelClosed)
            } else {
                FrameAction::Ignore
            }
        },
        InboundFrame::Text(None) => FrameAction::Ignore,
        InboundFrame::Close => FrameAction::Disconnect(DisconnectReason::ChannelClosed),
        InboundFrame::Error => FrameAction::Disconnect(DisconnectReason::WebsocketError),
        InboundFrame::Ping => FrameAction::Ignore,
        InboundFrame::Pong => FrameAction::Ignore,
        InboundFrame::Other => FrameAction::Ignore,
    }
}

/// Whether `frame` refreshes the liveness clock (text, ping and pong frames do).
pub fn is_traffic(frame: &InboundFrame) -> (r: bool)
    ensures
        r == frame_is_traffic(*frame),
{
    match frame {
        InboundFrame::Text(_) => true,
        InboundFrame::Ping => true,
        InboundFrame::Pong => true,
        _ => false,
    }
}

/// The `ref` of the `n`-th heartbeat: `hb-{n}`.
pub open spec fn heartbeat_ref_spec(n: u64) -> Seq<char> {
    "hb-"@ + decimal(n as nat)
}

/// The `ref` of the `n`-th liveness probe: `live-{n}`.
pub open spec fn probe_ref_spec(n: u64) -> Seq<char> {
    "live-"@ + decimal(n as nat)
}

fn tagged_ref(tag: &str, n: u64) -> (r: String)
    ensures
        r@ == tag@ + decimal(n as nat),
{
    let mut out = tag.to_owned();
    let digits = u64_decimal(n);
    let text = string_from_chars(&digits);
    push_str(&mut out, text.as_str());
    out
}

/// The `ref` of the `n`-th heartbeat.
pub fn heartbeat_ref(n: u64) -> (r: String)
    ensures
        r@ == heartbeat_ref_spec(n),
{
    tagged_ref("hb-", n)
}

/// The `ref` of the `n`-th liveness probe.
pub fn probe_ref(n: u64) -> (r: String)
    ensures
        r@ == probe_ref_spec(n),
{
    tagged_ref("live-", n)
}

/// What an outstanding ref is waiting for.
#[derive(Debug, Clone, Copy, PartialEq, Eq, Structural)]
pub enum ProbeKind {
    /// A periodic heartbeat.
    Heartbeat,
    /// A probe sent after inbound silence.
    Liveness,
}

/// Heartbeats and probes sent and not yet answered, by `ref`, with the time they were sent
/// (milliseconds on the host's clock).
pub struct HeartbeatTracker {
    pending: StringMap<u64>,
}

impl View for HeartbeatTracker {
    type V = Map<Seq<char>, u64>;

    closed spec fn view(&self) -> Map<Seq<char>, u64> {
        self.pending@
    }
}

impl HeartbeatTracker {
    /// Nothing outstanding.
    pub fn new() -> (r: Self)
        ensures
            r@ == Map::<Seq<char>, u64>::empty(),
    {
        HeartbeatTracker { pending: StringMap::new() }
    }

    /// A heartbeat or probe with `reference` was sent at `sent_at_millis`.
    pub fn record_sent(&mut self, reference: &str, sent_at_millis: u64)
        ensures
            final(self)@ == old(self)@.insert(reference@, sent_at_millis),
    {
        self.pending.insert(reference.to_owned(), sent_at_millis);
    }

    /// A reply for `reference` arrived: it is no longer outstanding.
    pub fn record_reply(&mut self, reference: &str)
        ensures
            final(self)@ == old(self)@.remove(reference@),
    {
        self.pending.remove(reference);
    }

    /// Whether `reference` is still waiting for its reply.
    pub fn is_pending(&self, reference: &str) -> (r: bool)
        ensures
            r == self@.contains_key(reference@),
    {
        self.pending.contains_key(reference)
    }

    /// Checked once the reply window of `reference` has passed: the connection is dead
    /// (heartbeat or liveness timeout) when the reply has not arrived.
    pub fn verdict(&self, reference: &str, kind: ProbeKind) -> (r: Option<DisconnectReason>)
        ensures
            r == (if self@.contains_key(reference@) {
                Some(
                    match kind {
                        ProbeKind::Heartbeat => DisconnectReason::HeartbeatTimeout,
                        ProbeKind::Liveness => DisconnectReason::LivenessTimeout,
                    },
                )
            } else {
                None
            }),
    {
        if self.is_pending(reference) {
            match kind {
                ProbeKind::Heartbeat => Some(DisconnectReason::HeartbeatTimeout),
                ProbeKind::Liveness => Some(DisconnectReason::LivenessTimeout),
            }
        } else {
            None
        }
    }
}

/// A heartbeat whose reply arrives before its window passes is never a timeout, and the
/// reply clears only its own ref: one sent and not answered stays outstanding.
pub proof fn lemma_answered_heartbeat_is_no_timeout(
    pending: Map<Seq<char>, u64>,
    sent: Seq<char>,
    at: u64,
    replied: Seq<char>,
)
    ensures
        !pending.insert(sent, at).remove(sent).contains_key(sent),
        replied != sent ==> pending.insert(sent, at).remove(replied).contains_key(sent),
{
}

/// The shortest liveness check period, in nanoseconds (half a second).
pub open spec fn min_liveness_tick_nanos() -> u128 {
    500_000_000
}

/// How often the liveness guard looks at the inbound clock: a quarter of the liveness window,
/// but not more often than every half second.
pub open spec fn liveness_tick_spec(timeout_nanos: u128) -> u128 {
    if timeout_nanos / 4 < min_liveness_tick_nanos() {
        min_liveness_tick_nanos()
    } else {
        timeout_nanos / 4
    }
}

/// The liveness check period for a liveness window, in nanoseconds.
pub fn liveness_tick_nanos(timeout_nanos: u128) -> (r: u128)
    ensures
        r == liveness_tick_spec(timeout_nanos),
{
    let quarter = timeout_nanos / 4;
    if quarter < 500_000_000 {
        500_000_000
    } else {
        quarter
    }
}

/// Whether the guard sends a probe: no inbound traffic for at least the liveness window.
pub fn needs_probe(silence_nanos: u128, timeout_nanos: u128) -> (r: bool)
    ensures
        r == (silence_nanos >= timeout_nanos),
{
    !(silence_nanos < timeout_nanos)
}

/// The operation named by a `postgres_changes` `type`.
pub open spec fn realtime_op_spec(change_type: Seq<char>) -> Option<RealtimeOp> {
    if change_type == "INSERT"@ {
        Some(RealtimeOp::Insert)
    } else if change_type == "UPDATE"@ {
        Some(RealtimeOp::Update)
    } else if change_type == "DELETE"@ {
        Some(RealtimeOp::Delete)
    } else {
        None
    }
}

/// The operation for a `postgres_changes` `type` (`INSERT`, `UPDATE`, `DELETE`).
pub fn realtime_op(change_type: &str) -> (r: Option<RealtimeOp>)
    ensures
        r == realtime_op_spec(change_type@),
{
    if str_eq(change_type, "INSERT") {
        Some(RealtimeOp::Insert)
    } else if str_eq(change_type, "UPDATE") {
        Some(RealtimeOp::Update)
    } else if str_eq(change_type, "DELETE") {
        Some(RealtimeOp::Delete)
    } else {
        None
    }
}

/// Decoded `postgres_changes` payload, schema-agnostic.
#[derive(Debug)]
pub struct RealtimeChange {
    /// Source table name.
    pub table: String,
    /// Insert / update / delete.
    pub op: RealtimeOp,
    /// New row contents (None for DELETE).
    pub record: Option<Record>,
    /// Previous row contents (Some for UPDATE/DELETE; None for INSERT).
    pub old_record: Option<Record>,
}

/// A row by its fields, when there is one.
pub open spec fn row_view(r: Option<Record>) -> Option<Map<Seq<char>, FieldView>> {
    match r {
        Some(x) => Some(x@),
        None => None,
    }
}

/// The string `id` of a row, when the row has one.
pub open spec fn row_id(row: Option<Map<Seq<char>, FieldView>>) -> Option<Seq<char>> {
    match row {
        Some(m) => if m.contains_key("id"@) {
            match m["id"@] {
                FieldView::Text(s) => Some(s),
                FieldView::Json(_) => None,
            }
        } else {
            None
        },
        None => None,
    }
}

/// The id of a change: read from the new row when there is one, else from the old row.
pub open spec fn change_id(record: Option<Record>, old_record: Option<Record>) -> Option<Seq<char>> {
    if record is Some {
        row_id(row_view(record))
    } else {
        row_id(row_view(old_record))
    }
}

fn string_id(row: &Record) -> (r: Option<String>)
    ensures
        opt_chars(r) == row_id(Some(row@)),
{
    match row.get("id") {
        Some(FieldValue::Text(s)) => Some(s.clone()),
        _ => None,
    }
}

impl RealtimeChange {
    /// Entity id of the change: the string `id` of `record`, or of `old_record` when there is
    /// no new row.
    pub fn entity_id(&self) -> (r: Option<String>)
        ensures
            opt_chars(r) == change_id(self.record, self.old_record),
    {
        match &self.record {
            Some(row) => string_id(row),
            None => match &self.old_record {
                Some(row) => string_id(row),
                None => None,
            },
        }
    }
}

/// The change for a decoded `postgres_changes` payload, or `None` for an unknown `type`.
pub fn postgres_change(table: &str, change_type: &str, record: Option<Record>, old_record: Option<Record>) -> (r: Option<
    RealtimeChange,
>)
    ensures
        match realtime_op_spec(change_type@) {
            Some(op) => r matches Some(c) && c.table@ == table@ && c.op == op && c.record == record && c.old_record
                == old_record,
            None => r is None,
        },
{
    match realtime_op(change_type) {
        Some(op) => Some(RealtimeChange { table: table.to_owned(), op, record, old_record }),
        None => None,
    }
}

} // verus!
