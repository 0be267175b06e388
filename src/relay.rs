//! The decisions of a relay session between one bot and the engine: when to
//! connect, retry, listen, bridge and tear down, and what happens to each
//! frame coming from the engine. The connections themselves are driven by
//! the caller, which reports what happened as events.
use vstd::prelude::*;

use crate::fanout::FanOut;

verus! {

/// Failed upstream connection attempts that are retried before giving up.
pub const UPSTREAM_RETRIES: u32 = 5;

/// Seconds to wait between two upstream connection attempts.
pub const RETRY_DELAY_SECS: u64 = 2;

/// A frame that could not be decoded; it is still forwarded.
#[derive(Clone, Copy, Debug, PartialEq, Eq, Structural)]
pub enum DecodeError {
    Malformed,
}

#[derive(Clone, Copy, Debug, PartialEq, Eq, Structural)]
pub enum Direction {
    ClientToServer,
    ServerToClient,
}

#[derive(Clone, Copy, Debug, PartialEq, Eq, Structural)]
pub enum RelayState {
    Idle,
    ConnectingUpstream { retries_left: u32 },
    WaitingForClient,
    Bridging,
    Closed,
}

/// What the caller saw happen.
#[derive(Clone, Copy, Debug, PartialEq, Eq, Structural)]
pub enum RelayEvent {
    Start,
    UpstreamConnected,
    UpstreamFailed,
    ClientAccepted,
    ListenFailed,
    /// One forwarding loop ended, with a transport error or by a close.
    LoopEnded { direction: Direction, error: bool },
}

/// What the caller is to do next.
#[derive(Clone, Copy, Debug, PartialEq, Eq, Structural)]
pub enum RelayAction {
    ConnectUpstream,
    /// Wait, then attempt the upstream connection again.
    RetryAfter { secs: u64 },
    /// Report a fatal startup error and release what is held.
    GiveUp,
    Listen,
    /// Run both forwarding loops.
    Bridge,
    /// Stop the other loop and release both connections.
    Teardown { direction: Direction, error: bool },
    /// The event does not apply in this state.
    Ignore,
}

/// The next state and the action for an event.
pub open spec fn transition(s: RelayState, e: RelayEvent) -> (RelayState, RelayAction) {
    match (s, e) {
        (RelayState::Idle, RelayEvent::Start) => (
            RelayState::ConnectingUpstream { retries_left: UPSTREAM_RETRIES },
            RelayAction::ConnectUpstream,
        ),
        (RelayState::ConnectingUpstream { .. }, RelayEvent::UpstreamConnected) => (
            RelayState::WaitingForClient,
            RelayAction::Listen,
        ),
        (RelayState::ConnectingUpstream { retries_left }, RelayEvent::UpstreamFailed) => {
            if retries_left == 0 {
                (RelayState::Closed, RelayAction::GiveUp)
            } else {
                (
                    RelayState::ConnectingUpstream { retries_left: (retries_left - 1) as u32 },
                    RelayAction::RetryAfter { secs: RETRY_DELAY_SECS },
                )
            }
        },
        (RelayState::WaitingForClient, RelayEvent::ClientAccepted) => (
            RelayState::Bridging,
            RelayAction::Bridge,
        ),
        (RelayState::WaitingForClient, RelayEvent::ListenFailed) => (
            RelayState::Closed,
            RelayAction::GiveUp,
        ),
        (RelayState::Bridging, RelayEvent::LoopEnded { direction, error }) => (
            RelayState::Closed,
            RelayAction::Teardown { direction, error },
        ),
        _ => (s, RelayAction::Ignore),
    }
}

/// The state after a run of events, from `s`.
pub open spec fn run(s: RelayState, events: Seq<RelayEvent>) -> RelayState
    decreases events.len(),
{
    if events.len() == 0 {
        s
    } else {
        transition(run(s, events.drop_last()), events.last()).0
    }
}

/// One relay session, from its start to its teardown.
pub struct RelaySession {
    state: RelayState,
}

impl RelaySession {
    pub closed spec fn spec_state(&self) -> RelayState {
        self.state
    }

    pub fn new() -> (r: Self)
        ensures
            r.spec_state() == RelayState::Idle,
    {
        RelaySession { state: RelayState::Idle }
    }

    pub fn state(&self) -> (r: RelayState)
        ensures
            r == self.spec_state(),
    {
        self.state
    }

    /// Moves to the next state and says what to do.
    pub fn step(&mut self, event: RelayEvent) -> (action: RelayAction)
        ensures
            (final(self).spec_state(), action) == transition(old(self).spec_state(), event),
    {
        let (next, action) = match (self.state, event) {
            (RelayState::Idle, RelayEvent::Start) => (
                RelayState::ConnectingUpstream { retries_left: UPSTREAM_RETRIES },
                RelayAction::ConnectUpstream,
            ),
            (RelayState::ConnectingUpstream { .. }, RelayEvent::UpstreamConnected) => (
                RelayState::WaitingForClient,
                RelayAction::Listen,
            ),
            (RelayState::ConnectingUpstream { retries_left }, RelayEvent::UpstreamFailed) => {
                if retries_left == 0 {
                    (RelayState::Closed, RelayAction::GiveUp)
                } else {
                    (
                        RelayState::ConnectingUpstream { retries_left: retries_left - 1 },
                        RelayAction::RetryAfter { secs: RETRY_DELAY_SECS },
                    )
                }
            },
            (RelayState::WaitingForClient, RelayEvent::ClientAccepted) => (
                RelayState::Bridging,
                RelayAction::Bridge,
            ),
            (RelayState::WaitingForClient, RelayEvent::ListenFailed) => (
                RelayState::Closed,
                RelayAction::GiveUp,
            ),
            (RelayState::Bridging, RelayEvent::LoopEnded { direction, error }) => (
                RelayState::Closed,
                RelayAction::Teardown { direction, error },
            ),
            (s, _) => (s, RelayAction::Ignore),
        };
        self.state = next;
        action
    }
}

/// A start followed by `n` failed upstream attempts.
pub open spec fn start_then_failures(n: nat) -> Seq<RelayEvent> {
    seq![RelayEvent::Start] + Seq::new(n, |i: int| RelayEvent::UpstreamFailed)
}

proof fn lemma_failures(k: nat)
    requires
        k <= UPSTREAM_RETRIES,
    ensures
        run(RelayState::Idle, start_then_failures(k)) == (RelayState::ConnectingUpstream {
            retries_left: (UPSTREAM_RETRIES - k) as u32,
        }),
    decreases k,
{
    let evs = start_then_failures(k);
    if k > 0 {
        lemma_failures((k - 1) as nat);
        assert(evs.drop_last() =~= start_then_failures((k - 1) as nat));
        assert(evs.last() == RelayEvent::UpstreamFailed);
        assert(run(RelayState::Idle, evs) == transition(run(RelayState::Idle, evs.drop_last()), evs.last()).0);
    } else {
        assert(evs.drop_last() =~= Seq::<RelayEvent>::empty());
        assert(evs.last() == RelayEvent::Start);
        assert(run(RelayState::Idle, evs.drop_last()) == RelayState::Idle);
    }
}

/// After a start, the upstream connection is retried a fixed number of
/// times: `k` failures in a row leave `UPSTREAM_RETRIES - k` retries, and
/// the failure after the last retry closes the session.
pub proof fn lemma_bounded_retries(k: nat)
    requires
        k <= UPSTREAM_RETRIES,
    ensures
        run(RelayState::Idle, start_then_failures(k)) == (RelayState::ConnectingUpstream {
            retries_left: (UPSTREAM_RETRIES - k) as u32,
        }),
        run(RelayState::Idle, start_then_failures(UPSTREAM_RETRIES as nat + 1)) == RelayState::Closed,
{
    lemma_failures(k);
    lemma_failures(UPSTREAM_RETRIES as nat);
    let evs = start_then_failures(UPSTREAM_RETRIES as nat + 1);
    assert(evs.drop_last() =~= start_then_failures(UPSTREAM_RETRIES as nat));
    assert(evs.last() == RelayEvent::UpstreamFailed);
}

/// Handles a frame from the engine: the frame goes on to the bot byte for
/// byte, whether it decoded or not, and a decoded response is published to
/// the subscribers after those of every earlier frame.
pub fn relay_upstream_frame<R: Clone>(
    fanout: &mut FanOut<R>,
    frame: Vec<u8>,
    decoded: Result<R, DecodeError>,
) -> (out: Vec<u8>)
    requires
        old(fanout).wf(),
        old(fanout).published().len() < u64::MAX,
    ensures
        out@ == frame@,
        final(fanout).wf(),
        final(fanout).subscriber_count() == old(fanout).subscriber_count(),
        match decoded {
            Ok(r) => final(fanout).published() == old(fanout).published().push(r),
            Err(_) => final(fanout).published() == old(fanout).published(),
        },
{
    match decoded {
        Ok(r) => {
            fanout.publish(r);
        },
        Err(_) => {},
    }
    frame
}

/// The first delay of the reconnect loop of a plain connection, in
/// milliseconds.
pub const FIRST_BACKOFF_MS: u64 = 200;

/// The longest delay of that loop, in milliseconds.
pub const MAX_BACKOFF_MS: u64 = 3000;

/// The delay after `delay_ms`: doubled, but never above the cap.
pub fn next_backoff_ms(delay_ms: u64) -> (r: u64)
    ensures
        r == (if 2 * delay_ms > MAX_BACKOFF_MS { MAX_BACKOFF_MS as int } else { 2 * delay_ms }),
        r <= MAX_BACKOFF_MS,
{
    if delay_ms > MAX_BACKOFF_MS / 2 {
        MAX_BACKOFF_MS
    } else {
        2 * delay_ms
    }
}

/// Whether a one-shot request retries its connection after `attempts`
/// failed attempts out of `max_attempts`.
pub fn should_retry(attempts: u32, max_attempts: u32) -> (r: bool)
    ensures
        r == (attempts < max_attempts),
{
    attempts < max_attempts
}

} // verus!
