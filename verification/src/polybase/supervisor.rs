//! The realtime supervisor's reconnect loop as a state machine: from what it learned (a token,
//! a connect outcome, the end of a session, the end of a backoff sleep) to what it does next.
//! The host performs each action (refresh, connect, publish, sleep) and reports back.

use vstd::prelude::*;
use crate::polybase::realtime::{DisconnectReason, LifecycleEvent};

verus! {

/// What the supervisor learned since its last decision.
#[derive(Debug, Clone, Copy, PartialEq, Eq, Structural)]
pub enum SupervisorEvent {
    /// Top of the loop, with the current state of the shutdown signal.
    LoopTop {
        /// Whether shutdown has been requested.
        shutdown: bool,
    },
    /// A fresh access token is at hand.
    TokenReady,
    /// No active session, or refreshing it failed.
    NoToken,
    /// The socket opened and `phx_join` was sent.
    Connected,
    /// Opening the socket failed.
    ConnectFailed,
    /// A live connection ended for the given reason.
    SessionEnded(DisconnectReason),
    /// A backoff sleep ended.
    SleepDone {
        /// Whether shutdown was signalled during the sleep.
        shutdown: bool,
    },
}

/// What the supervisor does next.
#[derive(Debug, Clone, Copy, PartialEq, Eq, Structural)]
pub enum SupervisorAction {
    /// Refresh the session; report `TokenReady` or `NoToken`.
    FetchToken,
    /// Connect with the token; report `Connected` or `ConnectFailed`.
    Connect,
    /// Publish the lifecycle event, run the connection until it ends; report `SessionEnded`.
    PublishAndRun(LifecycleEvent),
    /// Publish the lifecycle event, then sleep the backoff for the failure count; report
    /// `SleepDone`.
    PublishAndSleep(LifecycleEvent, u32),
    /// Sleep the backoff for the failure count; report `SleepDone`.
    Sleep(u32),
    /// Go back to the top of the loop; report `LoopTop`.
    Resume,
    /// Publish the lifecycle event and exit.
    PublishAndStop(LifecycleEvent),
    /// Exit.
    Stop,
    /// The event does not answer the action the supervisor is waiting on: nothing changes.
    Ignored,
}

/// Which report the supervisor is waiting for.
#[derive(Debug, Clone, Copy, PartialEq, Eq, Structural)]
pub enum SupervisorStage {
    /// The top of the loop: `LoopTop`.
    AwaitLoopTop,
    /// A session refresh: `TokenReady` or `NoToken`.
    AwaitToken,
    /// A connect attempt: `Connected` or `ConnectFailed`.
    AwaitConnect,
    /// A live connection: `SessionEnded`.
    Running,
    /// A backoff sleep: `SleepDone`.
    Sleeping,
}

/// The supervisor's memory across connections.
#[derive(Debug, Clone, Copy, PartialEq, Eq, Structural)]
pub struct SupervisorState {
    /// Consecutive failed attempts since the last successful connect.
    pub consecutive_failures: u32,
    /// Whether a connection has ever been established.
    pub had_prior_connection: bool,
    /// The pending sleep follows a missing session: the failure count grows once it ends.
    pub count_after_sleep: bool,
    /// The loop has exited.
    pub stopped: bool,
    /// The report the supervisor is waiting for.
    pub stage: SupervisorStage,
}

/// `n + 1`, saturating at `u32::MAX`.
pub open spec fn saturating_inc(n: u32) -> u32 {
    if n == u32::MAX {
        n
    } else {
        (n + 1) as u32
    }
}

/// The supervisor's transition: next state and action for an event. An event that does not
/// answer the pending action is ignored.
pub open spec fn supervisor_next(s: SupervisorState, e: SupervisorEvent) -> (SupervisorState, SupervisorAction) {
    if s.stopped {
        (s, SupervisorAction::Stop)
    } else {
        match (s.stage, e) {
            (SupervisorStage::AwaitLoopTop, SupervisorEvent::LoopTop { shutdown }) => if shutdown {
                (SupervisorState { stopped: true, ..s }, SupervisorAction::Stop)
            } else {
                (SupervisorState { stage: SupervisorStage::AwaitToken, ..s }, SupervisorAction::FetchToken)
            },
            (SupervisorStage::AwaitToken, SupervisorEvent::TokenReady) => (
                SupervisorState { stage: SupervisorStage::AwaitConnect, ..s },
                SupervisorAction::Connect,
            ),
            (SupervisorStage::AwaitToken, SupervisorEvent::NoToken) => (
                SupervisorState { count_after_sleep: true, stage: SupervisorStage::Sleeping, ..s },
                SupervisorAction::Sleep(s.consecutive_failures),
            ),
            (SupervisorStage::AwaitConnect, SupervisorEvent::Connected) => (
                SupervisorState {
                    consecutive_failures: 0,
                    had_prior_connection: true,
                    count_after_sleep: false,
                    stopped: false,
                    stage: SupervisorStage::Running,
                },
                SupervisorAction::PublishAndRun(
                    if s.had_prior_connection { LifecycleEvent::Reconnected } else { LifecycleEvent::Connected },
                ),
            ),
            (SupervisorStage::AwaitConnect, SupervisorEvent::ConnectFailed) => (
                SupervisorState {
                    consecutive_failures: saturating_inc(s.consecutive_failures),
                    count_after_sleep: false,
                    stage: SupervisorStage::Sleeping,
                    ..s
                },
                SupervisorAction::Sleep(saturating_inc(s.consecutive_failures)),
            ),
            (SupervisorStage::Running, SupervisorEvent::SessionEnded(reason)) => if reason == DisconnectReason::Manual {
                (
                    SupervisorState { stopped: true, ..s },
                    SupervisorAction::PublishAndStop(LifecycleEvent::Disconnected(reason)),
                )
            } else {
                (
                    SupervisorState { count_after_sleep: false, stage: SupervisorStage::Sleeping, ..s },
                    SupervisorAction::PublishAndSleep(LifecycleEvent::Disconnected(reason), s.consecutive_failures),
                )
            },
            (SupervisorStage::Sleeping, SupervisorEvent::SleepDone { shutdown }) => if shutdown {
                (SupervisorState { stopped: true, ..s }, SupervisorAction::Stop)
            } else {
                (
                    SupervisorState {
                        consecutive_failures: if s.count_after_sleep {
                            saturating_inc(s.consecutive_failures)
                        } else {
                            s.consecutive_failures
                        },
                        count_after_sleep: false,
                        stage: SupervisorStage::AwaitLoopTop,
                        ..s
                    },
                    SupervisorAction::Resume,
                )
            },
            _ => (s, SupervisorAction::Ignored),
        }
    }
}

/// The state of a supervisor that has not run yet: at the top of its loop.
pub open spec fn supervisor_initial() -> SupervisorState {
    SupervisorState {
        consecutive_failures: 0,
        had_prior_connection: false,
        count_after_sleep: false,
        stopped: false,
        stage: SupervisorStage::AwaitLoopTop,
    }
}

impl SupervisorState {
    /// A supervisor that has not connected yet.
    pub fn new() -> (r: Self)
        ensures
            r == supervisor_initial(),
    {
        SupervisorState {
            consecutive_failures: 0,
            had_prior_connection: false,
            count_after_sleep: false,
            stopped: false,
            stage: SupervisorStage::AwaitLoopTop,
        }
    }

    /// Take one decision: update the state for `event` and return the next action.
    pub fn step(&mut self, event: SupervisorEvent) -> (a: SupervisorAction)
        ensures
            (*final(self), a) == supervisor_next(*old(self), event),
    {
        if self.stopped {
            return SupervisorAction::Stop;
        }
        match (self.stage, event) {
            (SupervisorStage::AwaitLoopTop, SupervisorEvent::LoopTop { shutdown }) => {
                if shutdown {
                    self.stopped = true;
                    SupervisorAction::Stop
                } else {
                    self.stage = SupervisorStage::AwaitToken;
                    SupervisorAction::FetchToken
                }
            },
            (SupervisorStage::AwaitToken, SupervisorEvent::TokenReady) => {
                self.stage = SupervisorStage::AwaitConnect;
                SupervisorAction::Connect
            },
            (SupervisorStage::AwaitToken, SupervisorEvent::NoToken) => {
                self.count_after_sleep = true;
                self.stage = SupervisorStage::Sleeping;
                SupervisorAction::Sleep(self.consecutive_failures)
            },
            (SupervisorStage::AwaitConnect, SupervisorEvent::Connected) => {
                let event = if self.had_prior_connection {
                    LifecycleEvent::Reconnected
                } else {
                    LifecycleEvent::Connected
                };
                self.consecutive_failures = 0;
                self.had_prior_connection = true;
                self.count_after_sleep = false;
                self.stage = SupervisorStage::Running;
                SupervisorAction::PublishAndRun(event)
            },
            (SupervisorStage::AwaitConnect, SupervisorEvent::ConnectFailed) => {
                self.consecutive_failures = self.consecutive_failures.saturating_add(1);
                self.count_after_sleep = false;
                self.stage = SupervisorStage::Sleeping;
                SupervisorAction::Sleep(self.consecutive_failures)
            },
            (SupervisorStage::Running, SupervisorEvent::SessionEnded(reason)) => {
                if reason == DisconnectReason::Manual {
                    self.stopped = true;
                    SupervisorAction::PublishAndStop(LifecycleEvent::Disconnected(reason))
                } else {
                    self.count_after_sleep = false;
                    self.stage = SupervisorStage::Sleeping;
                    SupervisorAction::PublishAndSleep(LifecycleEvent::Disconnected(reason), self.consecutive_failures)
                }
            },
            (SupervisorStage::Sleeping, SupervisorEvent::SleepDone { shutdown }) => {
                if shutdown {
                    self.stopped = true;
                    SupervisorAction::Stop
                } else {
                    if self.count_after_sleep {
                        self.consecutive_failures = self.consecutive_failures.saturating_add(1);
                    }
                    self.count_after_sleep = false;
                    self.stage = SupervisorStage::AwaitLoopTop;
                    SupervisorAction::Resume
                }
            },
            _ => SupervisorAction::Ignored,
        }
    }
}

/// The actions a supervisor takes, from state `s`, for the events in order.
pub open spec fn supervisor_actions(s: SupervisorState, events: Seq<SupervisorEvent>) -> Seq<SupervisorAction>
    decreases events.len(),
{
    if events.len() == 0 {
        Seq::empty()
    } else {
        let next = supervisor_next(s, events[0]);
        seq![next.1] + supervisor_actions(next.0, events.drop_first())
    }
}

/// The lifecycle event an action announces when it starts running a connection.
pub open spec fn announced(a: SupervisorAction) -> Option<LifecycleEvent> {
    match a {
        SupervisorAction::PublishAndRun(e) => Some(e),
        _ => None,
    }
}

/// The action ends the loop.
pub open spec fn exits(a: SupervisorAction) -> bool {
    a is Stop || a is PublishAndStop
}

proof fn lemma_actions_len(s: SupervisorState, events: Seq<SupervisorEvent>)
    ensures
        supervisor_actions(s, events).len() == events.len(),
    decreases events.len(),
{
    if events.len() > 0 {
        lemma_actions_len(supervisor_next(s, events[0]).0, events.drop_first());
    }
}

proof fn lemma_announce_general(s: SupervisorState, events: Seq<SupervisorEvent>, j: int)
    requires
        0 <= j < events.len(),
        announced(supervisor_actions(s, events)[j]) is Some,
    ensures
        (announced(supervisor_actions(s, events)[j]) == Some(LifecycleEvent::Connected)) <==> (!s.had_prior_connection
            && forall|i: int| 0 <= i < j ==> announced(#[trigger] supervisor_actions(s, events)[i]) is None),
    decreases events.len(),
{
    let acts = supervisor_actions(s, events);
    let next = supervisor_next(s, events[0]);
    let rest = supervisor_actions(next.0, events.drop_first());
    lemma_actions_len(next.0, events.drop_first());
    assert(acts == seq![next.1] + rest);
    assert(next.0.had_prior_connection == (s.had_prior_connection || announced(next.1) is Some));
    if j > 0 {
        assert(acts[j] == rest[j - 1]);
        lemma_announce_general(next.0, events.drop_first(), j - 1);
        assert forall|i: int| 0 < i < j implies acts[i] == rest[i - 1] by {}
        if (forall|i: int| 0 <= i < j ==> announced(#[trigger] acts[i]) is None) {
            assert(announced(acts[0]) is None);
            assert forall|i: int| 0 <= i < j - 1 implies announced(#[trigger] rest[i]) is None by {
                assert(acts[i + 1] == rest[i]);
            }
        }
        if !next.0.had_prior_connection && (forall|i: int| 0 <= i < j - 1 ==> announced(#[trigger] rest[i]) is None) {
            assert forall|i: int| 0 <= i < j implies announced(#[trigger] acts[i]) is None by {
                if i > 0 {
                    assert(acts[i] == rest[i - 1]);
                }
            }
        }
    }
}

/// A fresh supervisor announces its first connection as `Connected` and every later one as
/// `Reconnected`: a connection is announced as `Connected` exactly when none was announced
/// before it.
pub proof fn lemma_first_connection_is_connected(events: Seq<SupervisorEvent>, j: int)
    requires
        0 <= j < events.len(),
        announced(supervisor_actions(supervisor_initial(), events)[j]) is Some,
    ensures
        (announced(supervisor_actions(supervisor_initial(), events)[j]) == Some(LifecycleEvent::Connected)) <==> (
        forall|i: int| 0 <= i < j ==> announced(#[trigger] supervisor_actions(supervisor_initial(), events)[i]) is None),
        announced(supervisor_actions(supervisor_initial(), events)[j]) == Some(LifecycleEvent::Connected)
            || announced(supervisor_actions(supervisor_initial(), events)[j]) == Some(LifecycleEvent::Reconnected),
{
    lemma_announce_general(supervisor_initial(), events, j);
    lemma_announce_values(supervisor_initial(), events, j);
}

proof fn lemma_announce_values(s: SupervisorState, events: Seq<SupervisorEvent>, j: int)
    requires
        0 <= j < events.len(),
    ensures
        announced(supervisor_actions(s, events)[j]) is Some ==> (announced(supervisor_actions(s, events)[j])
            == Some(LifecycleEvent::Connected) || announced(supervisor_actions(s, events)[j]) == Some(
            LifecycleEvent::Reconnected)),
    decreases events.len(),
{
    let next = supervisor_next(s, events[0]);
    let rest = supervisor_actions(next.0, events.drop_first());
    lemma_actions_len(next.0, events.drop_first());
    assert(supervisor_actions(s, events) == seq![next.1] + rest);
    if j > 0 {
        lemma_announce_values(next.0, events.drop_first(), j - 1);
        assert(supervisor_actions(s, events)[j] == rest[j - 1]);
    }
}

proof fn lemma_stopped_stays(s: SupervisorState, events: Seq<SupervisorEvent>)
    requires
        s.stopped,
    ensures
        forall|k: int| 0 <= k < events.len() ==> #[trigger] supervisor_actions(s, events)[k] == SupervisorAction::Stop,
    decreases events.len(),
{
    if events.len() > 0 {
        let next = supervisor_next(s, events[0]);
        let rest = supervisor_actions(next.0, events.drop_first());
        lemma_stopped_stays(next.0, events.drop_first());
        lemma_actions_len(next.0, events.drop_first());
        assert(supervisor_actions(s, events) == seq![next.1] + rest);
        assert forall|k: int| 0 <= k < events.len() implies #[trigger] supervisor_actions(s, events)[k]
            == SupervisorAction::Stop by {
            if k > 0 {
                assert(supervisor_actions(s, events)[k] == rest[k - 1]);
            }
        }
    }
}

proof fn lemma_exit_final(s: SupervisorState, events: Seq<SupervisorEvent>, i: int, j: int)
    requires
        0 <= i < j < events.len(),
        exits(supervisor_actions(s, events)[i]),
    ensures
        supervisor_actions(s, events)[j] == SupervisorAction::Stop,
    decreases events.len(),
{
    let next = supervisor_next(s, events[0]);
    let rest = supervisor_actions(next.0, events.drop_first());
    lemma_actions_len(next.0, events.drop_first());
    assert(supervisor_actions(s, events) == seq![next.1] + rest);
    assert(supervisor_actions(s, events)[j] == rest[j - 1]);
    if i == 0 {
        assert(next.0.stopped);
        lemma_stopped_stays(next.0, events.drop_first());
        assert(rest[j - 1] == SupervisorAction::Stop);
    } else {
        assert(supervisor_actions(s, events)[i] == rest[i - 1]);
        lemma_exit_final(next.0, events.drop_first(), i - 1, j - 1);
    }
}

/// Once the loop has exited (shutdown observed at the top of the loop or during a sleep, or
/// the session ended on request, each answered by `Stop` or `PublishAndStop`), the supervisor
/// never acts again: every later action is `Stop`.
pub proof fn lemma_exit_is_final(s: SupervisorState, events: Seq<SupervisorEvent>, i: int)
    requires
        0 <= i < events.len(),
        exits(supervisor_actions(s, events)[i]),
    ensures
        forall|j: int| i < j < events.len() ==> #[trigger] supervisor_actions(s, events)[j] == SupervisorAction::Stop,
{
    assert forall|j: int| i < j < events.len() implies #[trigger] supervisor_actions(s, events)[j]
        == SupervisorAction::Stop by {
        lemma_exit_final(s, events, i, j);
    }
}

/// The action publishes a `Disconnected` event.
pub open spec fn publishes_disconnect(a: SupervisorAction) -> bool {
    ||| a matches SupervisorAction::PublishAndSleep(LifecycleEvent::Disconnected(_), _)
    ||| a matches SupervisorAction::PublishAndStop(LifecycleEvent::Disconnected(_))
}

proof fn lemma_running_ends_with_disconnect(s: SupervisorState, events: Seq<SupervisorEvent>, j: int)
    requires
        s.stage == SupervisorStage::Running,
        0 <= j < events.len(),
        announced(supervisor_actions(s, events)[j]) is Some,
    ensures
        exists|i: int| 0 <= i < j && publishes_disconnect(#[trigger] supervisor_actions(s, events)[i]),
    decreases events.len(),
{
    let next = supervisor_next(s, events[0]);
    let rest = supervisor_actions(next.0, events.drop_first());
    lemma_actions_len(next.0, events.drop_first());
    assert(supervisor_actions(s, events) == seq![next.1] + rest);
    if s.stopped {
        lemma_stopped_stays(s, events);
        assert(supervisor_actions(s, events)[j] == SupervisorAction::Stop);
    } else if events[0] is SessionEnded {
        assert(publishes_disconnect(supervisor_actions(s, events)[0]));
        assert(j > 0);
    } else {
        assert(next.0 == s);
        assert(j > 0);
        assert(supervisor_actions(s, events)[j] == rest[j - 1]);
        lemma_running_ends_with_disconnect(next.0, events.drop_first(), j - 1);
        let i = choose|i: int| 0 <= i < j - 1 && publishes_disconnect(#[trigger] rest[i]);
        assert(supervisor_actions(s, events)[i + 1] == rest[i]);
    }
}

proof fn lemma_disconnect_between(s: SupervisorState, events: Seq<SupervisorEvent>, k: int, j: int)
    requires
        0 <= k < j < events.len(),
        announced(supervisor_actions(s, events)[k]) is Some,
        announced(supervisor_actions(s, events)[j]) is Some,
    ensures
        exists|i: int| k < i < j && publishes_disconnect(#[trigger] supervisor_actions(s, events)[i]),
    decreases events.len(),
{
    let next = supervisor_next(s, events[0]);
    let rest = supervisor_actions(next.0, events.drop_first());
    lemma_actions_len(next.0, events.drop_first());
    assert(supervisor_actions(s, events) == seq![next.1] + rest);
    assert(supervisor_actions(s, events)[j] == rest[j - 1]);
    if k == 0 {
        assert(next.0.stage == SupervisorStage::Running);
        lemma_running_ends_with_disconnect(next.0, events.drop_first(), j - 1);
        let i = choose|i: int| 0 <= i < j - 1 && publishes_disconnect(#[trigger] rest[i]);
        assert(supervisor_actions(s, events)[i + 1] == rest[i]);
    } else {
        assert(supervisor_actions(s, events)[k] == rest[k - 1]);
        lemma_disconnect_between(next.0, events.drop_first(), k - 1, j - 1);
        let i = choose|i: int| k - 1 < i < j - 1 && publishes_disconnect(#[trigger] rest[i]);
        assert(supervisor_actions(s, events)[i + 1] == rest[i]);
    }
}

/// Between any two connections the supervisor announces, it publishes a `Disconnected`: every
/// `Reconnected` follows a `Disconnected` for the connection before it, whatever the host
/// reports (reports that do not answer the pending action are ignored).
pub proof fn lemma_reconnect_follows_disconnect(events: Seq<SupervisorEvent>, k: int, j: int)
    requires
        0 <= k < j < events.len(),
        announced(supervisor_actions(supervisor_initial(), events)[k]) is Some,
        announced(supervisor_actions(supervisor_initial(), events)[j]) is Some,
    ensures
        announced(supervisor_actions(supervisor_initial(), events)[j]) == Some(LifecycleEvent::Reconnected),
        exists|i: int| k < i < j && publishes_disconnect(#[trigger] supervisor_actions(supervisor_initial(), events)[i]),
{
    lemma_disconnect_between(supervisor_initial(), events, k, j);
    lemma_first_connection_is_connected(events, j);
    assert(announced(supervisor_actions(supervisor_initial(), events)[k]) is Some);
}

} // verus!
