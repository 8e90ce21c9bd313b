//! The external-bus relay: the state machine that keeps a wildcard
//! subscription on the external publish/subscribe system alive and turns
//! every received message into an envelope for the in-process fan-out.
//!
//! The relay loops forever: `Disconnected -> Connecting -> Subscribed`, and
//! back to `Disconnected` on any failure, after a fixed backoff delay. The
//! surrounding I/O loop performs each returned [`RelayAction`] against the
//! external bus and feeds the resulting [`RelayEvent`] back into
//! [`relay_step`].

use vstd::prelude::*;

verus! {

/// Seconds to wait after a failure before reconnecting.
pub const RETRY_DELAY_SECS: u64 = 5;

/// One message of the external bus, wrapped with the channel it was published
/// on. This is also the document forwarded to streaming clients, so that they
/// can tell which channel a payload belongs to.
#[derive(Debug, Clone, PartialEq)]
pub struct RedisMessage {
    /// The exact origin channel name, as published externally.
    pub channel: String,
    /// The payload, carried verbatim and never parsed by the hub.
    pub data: String,
}

impl RedisMessage {
    pub fn new(channel: String, data: String) -> (m: RedisMessage)
        ensures
            m.channel == channel,
            m.data == data,
    {
        RedisMessage { channel, data }
    }

    /// An equal envelope, cheap enough for fan-out to many subscribers.
    pub fn duplicate(&self) -> (m: RedisMessage)
        ensures
            m == *self,
    {
        RedisMessage { channel: self.channel.clone(), data: self.data.clone() }
    }
}

/// The wildcard pattern covering every job-update channel of the external bus.
pub fn redis_channel_pattern() -> (p: String)
    ensures
        p@ == "ws_channel:job:*"@,
{
    "ws_channel:job:*".to_owned()
}

/// Where the relay stands with respect to the external bus.
#[derive(Debug, Clone, Copy, PartialEq, Eq, Structural)]
pub enum RelayState {
    /// No live connection; waiting out the backoff delay.
    Disconnected,
    /// Connection attempt and wildcard subscription in flight.
    Connecting,
    /// Subscription acknowledged; consuming the message stream.
    Subscribed,
}

/// What the outside world reports to the relay.
pub enum RelayEvent {
    /// The backoff delay has elapsed; a new attempt may start.
    RetryTimerElapsed,
    /// The connection is up and the wildcard subscription was acknowledged.
    SubscribeAcknowledged,
    /// The connection attempt failed.
    ConnectFailed,
    /// The subscription request failed.
    SubscribeFailed,
    /// A message arrived on `channel`; `payload` is `None` when its payload
    /// could not be extracted.
    MessageArrived { channel: String, payload: Option<String> },
    /// The message stream ended without an error. A relay that stops silently
    /// would stop all real-time updates, so this too is treated as a failure.
    StreamEnded,
    /// Reading from the stream failed.
    ReadError,
}

/// What the surrounding loop must do next.
#[derive(Debug, PartialEq)]
pub enum RelayAction {
    /// Open a connection to the external bus and issue the wildcard
    /// subscription.
    Connect,
    /// Wait for the next message of the stream.
    AwaitMessage,
    /// Publish this envelope onto the in-process fan-out.
    Publish(RedisMessage),
    /// Drop the malformed message just received and keep consuming. A single
    /// bad message must not end the subscription.
    SkipMessage,
    /// Sleep this many seconds, then report `RetryTimerElapsed`.
    RetryAfterDelay(u64),
    /// The event does not apply in the current state; do nothing.
    Ignore,
}

/// Connection failures, subscription failures, stream errors, and the stream
/// ending at all are equally failures: each sends the relay back to
/// `Disconnected` for a retry.
pub open spec fn is_failure_event(e: &RelayEvent) -> bool {
    match e {
        RelayEvent::ConnectFailed => true,
        RelayEvent::SubscribeFailed => true,
        RelayEvent::StreamEnded => true,
        RelayEvent::ReadError => true,
        _ => false,
    }
}

/// The successor state of the relay. Total: the relay has no terminal state.
pub open spec fn spec_next_state(s: RelayState, e: &RelayEvent) -> RelayState {
    if is_failure_event(e) {
        RelayState::Disconnected
    } else {
        match (s, e) {
            (RelayState::Disconnected, RelayEvent::RetryTimerElapsed) => RelayState::Connecting,
            (RelayState::Connecting, RelayEvent::SubscribeAcknowledged) => RelayState::Subscribed,
            _ => s,
        }
    }
}

/// The exact action owed for a state/event pair.
pub open spec fn action_matches(s: RelayState, e: &RelayEvent, a: &RelayAction) -> bool {
    if is_failure_event(e) {
        a matches RelayAction::RetryAfterDelay(d) && d == RETRY_DELAY_SECS
    } else {
        match (s, e) {
            (RelayState::Disconnected, RelayEvent::RetryTimerElapsed) => a is Connect,
            (RelayState::Connecting, RelayEvent::SubscribeAcknowledged) => a is AwaitMessage,
            (
                RelayState::Subscribed,
                RelayEvent::MessageArrived { channel, payload },
            ) => match payload {
                Some(p) => a matches RelayAction::Publish(m) && m.channel == channel
                    && m.data == p,
                None => a is SkipMessage,
            },
            _ => a is Ignore,
        }
    }
}

/// One step of the relay: from the current state and the event just observed,
/// the next state and the action owed to the external bus.
pub fn relay_step(state: RelayState, event: RelayEvent) -> (r: (RelayState, RelayAction))
    ensures
        r.0 == spec_next_state(state, &event),
        action_matches(state, &event, &r.1),
{
    match event {
        RelayEvent::ConnectFailed => (
            RelayState::Disconnected,
            RelayAction::RetryAfterDelay(RETRY_DELAY_SECS),
        ),
        RelayEvent::SubscribeFailed => (
            RelayState::Disconnected,
            RelayAction::RetryAfterDelay(RETRY_DELAY_SECS),
        ),
        RelayEvent::StreamEnded => (
            RelayState::Disconnected,
            RelayAction::RetryAfterDelay(RETRY_DELAY_SECS),
        ),
        RelayEvent::ReadError => (
            RelayState::Disconnected,
            RelayAction::RetryAfterDelay(RETRY_DELAY_SECS),
        ),
        RelayEvent::RetryTimerElapsed => {
            if state == RelayState::Disconnected {
                (RelayState::Connecting, RelayAction::Connect)
            } else {
                (state, RelayAction::Ignore)
            }
        },
        RelayEvent::SubscribeAcknowledged => {
            if state == RelayState::Connecting {
                (RelayState::Subscribed, RelayAction::AwaitMessage)
            } else {
                (state, RelayAction::Ignore)
            }
        },
        RelayEvent::MessageArrived { channel, payload } => {
            if state == RelayState::Subscribed {
                match payload {
                    Some(p) => (
                        RelayState::Subscribed,
                        RelayAction::Publish(RedisMessage { channel, data: p }),
                    ),
                    None => (RelayState::Subscribed, RelayAction::SkipMessage),
                }
            } else {
                (state, RelayAction::Ignore)
            }
        },
    }
}

/// The state after a whole sequence of events.
pub open spec fn spec_run(s: RelayState, evs: Seq<RelayEvent>) -> RelayState
    decreases evs.len(),
{
    if evs.len() == 0 {
        s
    } else {
        spec_run(spec_next_state(s, &evs[0]), evs.drop_first())
    }
}

/// Any failure sends the relay to `Disconnected` with the fixed backoff; and
/// once the backoff elapses and the external bus acknowledges the wildcard
/// subscription again, the relay is `Subscribed` again. The connection
/// registry and the fan-out buffers are no part of the relay state, so
/// existing client connections keep their subscriptions across the outage and
/// resume receiving what is published afterwards, without reconnecting.
pub proof fn lemma_relay_recovers(s: RelayState, e: RelayEvent)
    requires
        is_failure_event(&e),
    ensures
        spec_next_state(s, &e) is Disconnected,
        spec_run(
            s,
            seq![e, RelayEvent::RetryTimerElapsed, RelayEvent::SubscribeAcknowledged],
        ) is Subscribed,
{
    reveal_with_fuel(spec_run, 4);
    let evs = seq![e, RelayEvent::RetryTimerElapsed, RelayEvent::SubscribeAcknowledged];
    assert(evs.drop_first() =~= seq![
        RelayEvent::RetryTimerElapsed,
        RelayEvent::SubscribeAcknowledged,
    ]);
    assert(evs.drop_first().drop_first() =~= seq![RelayEvent::SubscribeAcknowledged]);
    assert(evs.drop_first().drop_first().drop_first() =~= Seq::<RelayEvent>::empty());
}

} // verus!
