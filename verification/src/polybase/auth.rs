//! Session state: the active session payload, the `updated_at` stamps that tell stale work
//! apart from current work, the classification of each session change, and the refresh
//! decisions (freshness, cool-down, and the payload built from a refresh response). Clock
//! readings are taken by the caller and handed in.

use vstd::prelude::*;
use crate::polybase::events::SessionChangeKind;
use crate::text::{push_str, str_eq, string_from_chars, trim_chars, trim_ws, u32_decimal, decimal, chars_of};

verus! {

/// Minimum spacing between refresh attempts, in milliseconds.
pub const REFRESH_COOLDOWN_MILLIS: u64 = 30_000;

/// A Supabase session.
#[derive(Debug, Clone, PartialEq, Eq)]
pub struct SessionPayload {
    /// Supabase user id (UUID string).
    pub user_id: String,
    /// Current access JWT.
    pub access_token: String,
    /// Current refresh token.
    pub refresh_token: String,
    /// Unix seconds at which `access_token` expires.
    pub expires_at: i64,
    /// Monotonic stamp assigned when the session was stored (0 before that).
    pub updated_at: u64,
}

/// The value of a [`SessionPayload`].
pub struct SessionView {
    /// User id.
    pub user_id: Seq<char>,
    /// Access token.
    pub access_token: Seq<char>,
    /// Refresh token.
    pub refresh_token: Seq<char>,
    /// Expiry in unix seconds.
    pub expires_at: i64,
    /// Stamp.
    pub updated_at: u64,
}

impl View for SessionPayload {
    type V = SessionView;

    open spec fn view(&self) -> SessionView {
        SessionView {
            user_id: self.user_id@,
            access_token: self.access_token@,
            refresh_token: self.refresh_token@,
            expires_at: self.expires_at,
            updated_at: self.updated_at,
        }
    }
}

impl SessionPayload {
    /// A copy of this payload.
    pub fn duplicate(&self) -> (r: Self)
        ensures
            r@ == self@,
    {
        SessionPayload {
            user_id: self.user_id.clone(),
            access_token: self.access_token.clone(),
            refresh_token: self.refresh_token.clone(),
            expires_at: self.expires_at,
            updated_at: self.updated_at,
        }
    }
}

/// A refresh outcome: the session in effect and whether it was refreshed.
#[derive(Debug, Clone)]
pub struct EnsureFreshResult {
    /// The session after the refresh decision.
    pub session: SessionPayload,
    /// True when a refresh happened.
    pub refreshed: bool,
}

/// What a session mutation did.
#[derive(Debug, Clone, Copy, PartialEq, Eq, Structural)]
pub enum SessionMutationKind {
    /// The same session was already stored; nothing changed.
    Noop,
    /// Same user, new credentials.
    CredentialsRefreshed,
    /// A different (or first) user.
    UserChanged,
    /// The session was cleared.
    Cleared,
}

/// The result of a session mutation: what happened and the stamp of the stored session.
#[derive(Debug, Clone, Copy, PartialEq, Eq, Structural)]
pub struct SessionMutation {
    /// What happened.
    pub kind: SessionMutationKind,
    /// The stamp of the session now stored (0 after a clear).
    pub updated_at: u64,
}

/// The event kind a mutation publishes, if any.
pub open spec fn event_kind_of(kind: SessionMutationKind) -> Option<SessionChangeKind> {
    match kind {
        SessionMutationKind::Noop => None,
        SessionMutationKind::CredentialsRefreshed => Some(SessionChangeKind::CredentialsRefreshed),
        SessionMutationKind::UserChanged => Some(SessionChangeKind::UserChanged),
        SessionMutationKind::Cleared => Some(SessionChangeKind::Cleared),
    }
}

impl SessionMutationKind {
    /// The session-change event this mutation publishes (none for `Noop`).
    pub fn into_event_kind(self) -> (r: Option<SessionChangeKind>)
        ensures
            r == event_kind_of(self),
    {
        match self {
            SessionMutationKind::Noop => None,
            SessionMutationKind::CredentialsRefreshed => Some(SessionChangeKind::CredentialsRefreshed),
            SessionMutationKind::UserChanged => Some(SessionChangeKind::UserChanged),
            SessionMutationKind::Cleared => Some(SessionChangeKind::Cleared),
        }
    }

    /// Whether the user-changed hook runs for this mutation: on a change of user (with the new
    /// user) and on a clear (with none).
    pub fn notifies_user_change(self) -> (r: bool)
        ensures
            r == notifies_user(self),
    {
        match self {
            SessionMutationKind::UserChanged => true,
            SessionMutationKind::Cleared => true,
            _ => false,
        }
    }
}

/// The user-changed hook runs for the mutation.
pub open spec fn notifies_user(kind: SessionMutationKind) -> bool {
    kind is UserChanged || kind is Cleared
}

/// What storing `p` over the stored session `cur` does.
pub open spec fn set_session_kind(cur: Option<SessionView>, p: SessionView) -> SessionMutationKind {
    match cur {
        Some(c) => if same_session(c, p) {
            SessionMutationKind::Noop
        } else if c.user_id == p.user_id {
            SessionMutationKind::CredentialsRefreshed
        } else {
            SessionMutationKind::UserChanged
        },
        None => SessionMutationKind::UserChanged,
    }
}

/// The user-changed hook runs once for a stored session exactly when the user changes (or is
/// first set), never for a credentials refresh or a repeat of the same session; and once for a
/// clear exactly when a session was stored.
pub proof fn lemma_user_hook_fires_on_user_change(cur: Option<SessionView>, p: SessionView)
    ensures
        notifies_user(set_session_kind(cur, p)) <==> (cur is None || cur->0.user_id != p.user_id),
        notifies_user(if cur is Some { SessionMutationKind::Cleared } else { SessionMutationKind::Noop }) <==> cur is Some,
{
}

/// Two sessions carry the same user, tokens and expiry.
pub open spec fn same_session(a: SessionView, b: SessionView) -> bool {
    a.user_id == b.user_id && a.access_token == b.access_token && a.refresh_token == b.refresh_token
        && a.expires_at == b.expires_at
}

/// Whether two sessions carry the same user, tokens and expiry.
pub fn session_matches(left: &SessionPayload, right: &SessionPayload) -> (r: bool)
    ensures
        r == same_session(left@, right@),
{
    str_eq(left.user_id.as_str(), right.user_id.as_str()) && str_eq(left.access_token.as_str(), right.access_token.as_str())
        && str_eq(left.refresh_token.as_str(), right.refresh_token.as_str()) && left.expires_at == right.expires_at
}

/// `now + secs`, saturating at the bounds of `i64`.
pub open spec fn sat_add(now: i64, secs: i64) -> i64 {
    if now + secs > i64::MAX { i64::MAX } else if now + secs < i64::MIN { i64::MIN } else { (now + secs) as i64 }
}

/// The session expires within `min_valid_for` seconds of `now` (unix seconds).
pub open spec fn expires_within(s: SessionView, now: i64, min_valid_for: i64) -> bool {
    s.expires_at <= sat_add(now, min_valid_for)
}

fn saturating_add_i64(a: i64, b: i64) -> (r: i64)
    ensures
        r == sat_add(a, b),
{
    match a.checked_add(b) {
        Some(v) => v,
        None => if b > 0 { i64::MAX } else { i64::MIN },
    }
}

/// Whether `session` expires within `min_valid_for_secs` of `now_secs`.
pub fn session_expires_within(session: &SessionPayload, now_secs: i64, min_valid_for_secs: i64) -> (r: bool)
    ensures
        r == expires_within(session@, now_secs, min_valid_for_secs),
{
    session.expires_at <= saturating_add_i64(now_secs, min_valid_for_secs)
}

/// What a refresh request should do next.
#[derive(Debug)]
pub enum RefreshDecision {
    /// There is no session to refresh.
    NoSession,
    /// The session is valid long enough; use it as is.
    Fresh(SessionPayload),
    /// A refresh was attempted less than the cool-down ago; retry after this many milliseconds.
    CoolingDown(u64),
    /// Refresh this session now.
    Refresh(SessionPayload),
}

/// The session store's state: the stored session, the next stamp to hand out, and when the
/// last refresh attempt started.
pub struct SessionState {
    session: Option<SessionPayload>,
    counter: u64,
    last_refresh_attempt: Option<u64>,
}

impl SessionState {
    /// The stored session.
    pub closed spec fn spec_session(&self) -> Option<SessionView> {
        match self.session {
            Some(s) => Some(s@),
            None => None,
        }
    }

    /// The next stamp to hand out.
    pub closed spec fn spec_counter(&self) -> u64 {
        self.counter
    }

    /// When the pending refresh attempt started (milliseconds), if one is recorded.
    pub closed spec fn spec_last_attempt(&self) -> Option<u64> {
        self.last_refresh_attempt
    }

    /// No session; stamps start at 1.
    pub fn new() -> (r: Self)
        ensures
            r.spec_session() is None,
            r.spec_counter() == 1,
            r.spec_last_attempt() is None,
    {
        SessionState { session: None, counter: 1, last_refresh_attempt: None }
    }

    /// Store `payload`. The same session again is a `Noop` keeping its stamp; otherwise the
    /// payload gets the next stamp and the change is `CredentialsRefreshed` for the same user
    /// or `UserChanged` for another (or the first) one.
    pub fn set_session(&mut self, payload: SessionPayload) -> (r: SessionMutation)
        ensures
            r.kind == set_session_kind(old(self).spec_session(), payload@),
            match old(self).spec_session() {
                Some(cur) => if same_session(cur, payload@) {
                    r == (SessionMutation { kind: SessionMutationKind::Noop, updated_at: cur.updated_at })
                        && final(self).spec_session() == old(self).spec_session()
                        && final(self).spec_counter() == old(self).spec_counter()
                } else {
                    r.kind == (if cur.user_id == payload@.user_id { SessionMutationKind::CredentialsRefreshed } else { SessionMutationKind::UserChanged })
                        && r.updated_at == old(self).spec_counter()
                        && final(self).spec_session() == Some(SessionView { updated_at: old(self).spec_counter(), ..payload@ })
                        && final(self).spec_counter() == (if old(self).spec_counter() == u64::MAX { 0 } else { (old(self).spec_counter() + 1) as u64 })
                },
                None => r.kind == SessionMutationKind::UserChanged
                    && r.updated_at == old(self).spec_counter()
                    && final(self).spec_session() == Some(SessionView { updated_at: old(self).spec_counter(), ..payload@ })
                    && final(self).spec_counter() == (if old(self).spec_counter() == u64::MAX { 0 } else { (old(self).spec_counter() + 1) as u64 }),
            },
            final(self).spec_last_attempt() == old(self).spec_last_attempt(),
    {
        let kind = match &self.session {
            Some(cur) => {
                if session_matches(cur, &payload) {
                    return SessionMutation { kind: SessionMutationKind::Noop, updated_at: cur.updated_at };
                }
                if str_eq(cur.user_id.as_str(), payload.user_id.as_str()) {
                    SessionMutationKind::CredentialsRefreshed
                } else {
                    SessionMutationKind::UserChanged
                }
            },
            None => SessionMutationKind::UserChanged,
        };
        let stamp = self.counter;
        self.counter = self.counter.wrapping_add(1);
        let mut stored = payload;
        stored.updated_at = stamp;
        self.session = Some(stored);
        SessionMutation { kind, updated_at: stamp }
    }

    /// Drop the session and the pending refresh attempt: `Cleared` when there was a session,
    /// `Noop` otherwise; the stamp reported is 0.
    pub fn clear_session(&mut self) -> (r: SessionMutation)
        ensures
            r == (SessionMutation {
                kind: if old(self).spec_session() is Some { SessionMutationKind::Cleared } else { SessionMutationKind::Noop },
                updated_at: 0,
            }),
            final(self).spec_session() is None,
            final(self).spec_counter() == old(self).spec_counter(),
            final(self).spec_last_attempt() is None,
    {
        let had = self.session.is_some();
        self.session = None;
        self.last_refresh_attempt = None;
        SessionMutation { kind: if had { SessionMutationKind::Cleared } else { SessionMutationKind::Noop }, updated_at: 0 }
    }

    /// A copy of the stored session.
    pub fn current(&self) -> (r: Option<SessionPayload>)
        ensures
            match r {
                Some(s) => self.spec_session() == Some(s@),
                None => self.spec_session() is None,
            },
    {
        match &self.session {
            Some(s) => Some(s.duplicate()),
            None => None,
        }
    }

    /// The stored session's user id.
    pub fn current_user_id(&self) -> (r: Option<String>)
        ensures
            match r {
                Some(u) => self.spec_session() matches Some(s) && s.user_id == u@,
                None => self.spec_session() is None,
            },
    {
        match &self.session {
            Some(s) => Some(s.user_id.clone()),
            None => None,
        }
    }

    /// The stored session's stamp, or 0 without a session.
    pub fn current_updated_at(&self) -> (r: u64)
        ensures
            r == match self.spec_session() {
                Some(s) => s.updated_at,
                None => 0,
            },
    {
        match &self.session {
            Some(s) => s.updated_at,
            None => 0,
        }
    }

    /// Whether work started under stamp `min_updated_at` is still current: a session is
    /// stored whose stamp is at least that.
    pub fn is_session_valid(&self, min_updated_at: u64) -> (r: bool)
        ensures
            r == (self.spec_session() matches Some(s) && s.updated_at >= min_updated_at),
    {
        match &self.session {
            Some(s) => s.updated_at >= min_updated_at,
            None => false,
        }
    }

    /// Whether a session is stored that has not expired at `now_secs`.
    pub fn has_unexpired_session(&self, now_secs: i64) -> (r: bool)
        ensures
            r == (self.spec_session() matches Some(s) && !expires_within(s, now_secs, 0)),
    {
        match &self.session {
            Some(s) => !session_expires_within(s, now_secs, 0),
            None => false,
        }
    }

    /// Decide a refresh at `now_secs` / `now_millis`: nothing without a session; the session
    /// as is when not forced and valid for `min_valid_for_secs` more; a cool-down wait when
    /// the last attempt started less than 30 s ago; otherwise refresh (and record the
    /// attempt).
    pub fn begin_refresh(&mut self, now_secs: i64, now_millis: u64, min_valid_for_secs: i64, force: bool) -> (r: RefreshDecision)
        ensures
            final(self).spec_session() == old(self).spec_session(),
            final(self).spec_counter() == old(self).spec_counter(),
            match old(self).spec_session() {
                None => r is NoSession && final(self).spec_last_attempt() == old(self).spec_last_attempt(),
                Some(s) => if !force && !expires_within(s, now_secs, min_valid_for_secs) {
                    r matches RefreshDecision::Fresh(p) && p@ == s && final(self).spec_last_attempt() == old(self).spec_last_attempt()
                } else {
                    match old(self).spec_last_attempt() {
                        Some(t) if now_millis >= t && now_millis - t < REFRESH_COOLDOWN_MILLIS =>
                            r == RefreshDecision::CoolingDown((REFRESH_COOLDOWN_MILLIS - (now_millis - t)) as u64)
                            && final(self).spec_last_attempt() == old(self).spec_last_attempt(),
                        _ => r matches RefreshDecision::Refresh(p) && p@ == s
                            && final(self).spec_last_attempt() == Some(now_millis),
                    }
                },
            },
    {
        let session = match &self.session {
            None => return RefreshDecision::NoSession,
            Some(s) => s.duplicate(),
        };
        if !force && !session_expires_within(&session, now_secs, min_valid_for_secs) {
            return RefreshDecision::Fresh(session);
        }
        match self.last_refresh_attempt {
            Some(t) => {
                if now_millis >= t && now_millis - t < REFRESH_COOLDOWN_MILLIS {
                    return RefreshDecision::CoolingDown(REFRESH_COOLDOWN_MILLIS - (now_millis - t));
                }
            },
            None => {},
        }
        self.last_refresh_attempt = Some(now_millis);
        RefreshDecision::Refresh(session)
    }

    /// A refresh finished successfully: forget the attempt.
    pub fn finish_refresh(&mut self)
        ensures
            final(self).spec_session() == old(self).spec_session(),
            final(self).spec_counter() == old(self).spec_counter(),
            final(self).spec_last_attempt() is None,
    {
        self.last_refresh_attempt = None;
    }
}

/// The expiry of a refreshed session: the response's `expires_at`, else `now + expires_in`,
/// else an hour from now (saturating).
pub open spec fn refreshed_expiry(expires_at: Option<i64>, expires_in: Option<i64>, now_secs: i64) -> i64 {
    match expires_at {
        Some(e) => e,
        None => match expires_in {
            Some(d) => sat_add(now_secs, d),
            None => sat_add(now_secs, 3600),
        },
    }
}

/// Build the session a refresh response describes: the response's user id when present and
/// non-empty (else the old one), its access token, its refresh token (else the old one), and
/// the expiry of [`refreshed_expiry`]; the stamp is assigned when it is stored.
pub fn refreshed_session(
    old: &SessionPayload,
    access_token: String,
    refresh_token: Option<String>,
    expires_at: Option<i64>,
    expires_in: Option<i64>,
    user_id: Option<String>,
    now_secs: i64,
) -> (r: SessionPayload)
    ensures
        r@.user_id == match user_id {
            Some(u) => if u@.len() > 0 { u@ } else { old@.user_id },
            None => old@.user_id,
        },
        r@.access_token == access_token@,
        r@.refresh_token == match refresh_token {
            Some(t) => t@,
            None => old@.refresh_token,
        },
        r.expires_at == refreshed_expiry(expires_at, expires_in, now_secs),
        r.updated_at == 0,
{
    let expiry = match expires_at {
        Some(e) => e,
        None => match expires_in {
            Some(d) => saturating_add_i64(now_secs, d),
            None => saturating_add_i64(now_secs, 3600),
        },
    };
    let uid = match user_id {
        Some(u) => {
            if u.unicode_len() > 0 {
                u
            } else {
                old.user_id.clone()
            }
        },
        None => old.user_id.clone(),
    };
    let rt = match refresh_token {
        Some(t) => t,
        None => old.refresh_token.clone(),
    };
    SessionPayload { user_id: uid, access_token, refresh_token: rt, expires_at: expiry, updated_at: 0 }
}

/// The message of a refused refresh: `session refresh failed: HTTP {status}`, followed by
/// `: {body}` with the body trimmed when it is not blank.
pub open spec fn refresh_failure_text(status: u16, body: Seq<char>) -> Seq<char> {
    let t = trim_ws(body);
    "session refresh failed: HTTP "@ + decimal(status as nat) + if t.len() == 0 { Seq::empty() } else { ": "@ + t }
}

/// The message of a refused refresh.
pub fn refresh_failure_message(status: u16, body: &str) -> (r: String)
    ensures
        r@ == refresh_failure_text(status, body@),
{
    let mut m = "session refresh failed: HTTP ".to_owned();
    let digits = string_from_chars(&u32_decimal(status as u32));
    push_str(&mut m, digits.as_str());
    let trimmed = trim_chars(&chars_of(body));
    if trimmed.len() > 0 {
        push_str(&mut m, ": ");
        let t = string_from_chars(&trimmed);
        push_str(&mut m, t.as_str());
    }
    m
}

/// The message of a refresh refused during the cool-down.
pub fn cooling_down_message(remaining_millis: u64) -> (r: String)
    ensures
        r@ == "session refresh is cooling down; retry in "@ + decimal(remaining_millis as nat) + "ms"@,
{
    let mut m = "session refresh is cooling down; retry in ".to_owned();
    let digits = crate::text::string_from_chars(&crate::text::u64_decimal(remaining_millis));
    push_str(&mut m, digits.as_str());
    push_str(&mut m, "ms");
    m
}

} // verus!
