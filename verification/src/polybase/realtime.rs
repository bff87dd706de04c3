//! Realtime connection lifecycle: the events hosts observe, the reasons a connection drops,
//! the websocket endpoint and the reconnect backoff schedule.

use vstd::prelude::*;
use crate::text::{has_prefix, push_str, trim_end_char, trim_end_spec};

verus! {

/// Lifecycle event of a realtime subscription.
#[derive(Debug, Clone, Copy, PartialEq, Eq, Structural)]
pub enum LifecycleEvent {
    /// Initial connection established and `phx_join` succeeded.
    Connected,
    /// Underlying socket / channel went away. The supervisor will attempt to reconnect.
    Disconnected(DisconnectReason),
    /// Supervisor successfully reconnected after a prior `Disconnected`.
    Reconnected,
}

/// Why the realtime connection went away.
#[derive(Debug, Clone, Copy, PartialEq, Eq, Structural)]
pub enum DisconnectReason {
    /// Server told us the channel closed (`phx_close`, `phx_error`, or non-ok system message).
    ChannelClosed,
    /// WebSocket-level error (TLS broke, EOF, network gone).
    WebsocketError,
    /// Outbound heartbeat went unacknowledged within the configured timeout.
    HeartbeatTimeout,
    /// No inbound traffic for too long and the synthetic probe also failed.
    LivenessTimeout,
    /// Caller asked for a forced reconnect via the supervisor's mailbox.
    Manual,
}

/// The stable label of a disconnect reason.
pub open spec fn reason_label(r: DisconnectReason) -> Seq<char> {
    match r {
        DisconnectReason::ChannelClosed => "channel_closed"@,
        DisconnectReason::WebsocketError => "websocket_error"@,
        DisconnectReason::HeartbeatTimeout => "heartbeat_timeout"@,
        DisconnectReason::LivenessTimeout => "liveness_timeout"@,
        DisconnectReason::Manual => "manual"@,
    }
}

impl DisconnectReason {
    /// Stable label for logs and metrics.
    pub fn as_str(self) -> (r: &'static str)
        ensures
            r@ == reason_label(self),
    {
        match self {
            DisconnectReason::ChannelClosed => "channel_closed",
            DisconnectReason::WebsocketError => "websocket_error",
            DisconnectReason::HeartbeatTimeout => "heartbeat_timeout",
            DisconnectReason::LivenessTimeout => "liveness_timeout",
            DisconnectReason::Manual => "manual",
        }
    }
}

/// Error class for the realtime layer.
#[derive(Debug, Clone, PartialEq, Eq)]
pub enum RealtimeError {
    /// WebSocket connect or TLS handshake failed.
    ConnectFailed(String),
    /// Phoenix `phx_join` was rejected.
    SubscribeFailed(String),
    /// Caller asked to subscribe twice without an intervening unsubscribe.
    AlreadySubscribed,
    /// Underlying broadcast or watch channel was closed unexpectedly.
    Closed,
    /// Failed to obtain a fresh access token from the session store.
    AuthRefreshFailed(String),
}

/// The websocket base for a project URL: `https://` becomes `wss://`, `http://` becomes
/// `ws://`, anything else is prefixed with `wss://`.
pub open spec fn websocket_base(url: Seq<char>) -> Seq<char> {
    let base = trim_end_spec(url, '/');
    if has_prefix(base, "https://"@) {
        "wss://"@ + base.skip(8)
    } else if has_prefix(base, "http://"@) {
        "ws://"@ + base.skip(7)
    } else {
        "wss://"@ + base
    }
}

/// The Phoenix v2 realtime endpoint for a project URL and anon key.
pub open spec fn websocket_endpoint(url: Seq<char>, anon_key: Seq<char>) -> Seq<char> {
    websocket_base(url) + "/realtime/v1/websocket?apikey="@ + anon_key + "&vsn=2.0.0"@
}

/// `wss://{host}/realtime/v1/websocket?apikey={key}&vsn=2.0.0` for the project URL.
pub fn websocket_url(supabase_url: &str, anon_key: &str) -> (r: String)
    ensures
        r@ == websocket_endpoint(supabase_url@, anon_key@),
{
    let base = trim_end_char(supabase_url, '/');
    let chars = crate::text::chars_of(base);
    let https = crate::text::chars_of("https://");
    let http = crate::text::chars_of("http://");
    proof {
        reveal_strlit("https://");
        reveal_strlit("http://");
    }
    let mut out: String;
    if crate::text::starts_with_chars(&chars, &https) {
        out = "wss://".to_owned();
        push_str(&mut out, base.substring_char(8, chars.len()));
    } else if crate::text::starts_with_chars(&chars, &http) {
        out = "ws://".to_owned();
        push_str(&mut out, base.substring_char(7, chars.len()));
    } else {
        out = "wss://".to_owned();
        push_str(&mut out, base);
    }
    proof {
        assert(base@.skip(8) =~= base@.subrange(8, base@.len() as int));
        assert(base@.skip(7) =~= base@.subrange(7, base@.len() as int));
    }
    push_str(&mut out, "/realtime/v1/websocket?apikey=");
    push_str(&mut out, anon_key);
    push_str(&mut out, "&vsn=2.0.0");
    out
}

/// The delay used when the ladder is empty, in milliseconds.
pub open spec fn fallback_backoff_millis() -> u64 {
    30_000
}

/// The base delay (before jitter) for the reconnect after `consecutive_failures` failures:
/// the initial delay for the first attempt, then the ladder entry for the attempt, clamped
/// to the last entry.
pub open spec fn backoff_base_millis(consecutive_failures: u32, initial_millis: u64, ladder_millis: Seq<u64>) -> u64 {
    if consecutive_failures == 0 {
        initial_millis
    } else if ladder_millis.len() == 0 {
        fallback_backoff_millis()
    } else {
        let idx = consecutive_failures - 1;
        let last = ladder_millis.len() - 1;
        ladder_millis[if idx < last { idx } else { last }]
    }
}

/// The reconnect base delay in milliseconds for the given number of consecutive failures.
pub fn compute_backoff_base_millis(consecutive_failures: u32, initial_millis: u64, ladder_millis: &[u64]) -> (r: u64)
    ensures
        r == backoff_base_millis(consecutive_failures, initial_millis, ladder_millis@),
{
    if consecutive_failures == 0 {
        initial_millis
    } else if ladder_millis.len() == 0 {
        30_000
    } else {
        let idx = (consecutive_failures - 1) as usize;
        let last = ladder_millis.len() - 1;
        if idx < last {
            ladder_millis[idx]
        } else {
            ladder_millis[last]
        }
    }
}

} // verus!
