use relay_hub::connection_manager::ConnectionManager;
use relay_hub::protocol::{write_step, WriteOutcome};
use relay_hub::relay::{
    redis_channel_pattern, relay_step, RedisMessage, RelayAction, RelayEvent, RelayState,
    RETRY_DELAY_SECS,
};

#[test]
fn pattern_and_delay_constants() {
    assert_eq!(redis_channel_pattern(), "ws_channel:job:*");
    assert_eq!(RETRY_DELAY_SECS, 5);
}

#[test]
fn startup_path_reaches_subscribed() {
    let (s, a) = relay_step(RelayState::Disconnected, RelayEvent::RetryTimerElapsed);
    assert_eq!(s, RelayState::Connecting);
    assert_eq!(a, RelayAction::Connect);
    let (s, a) = relay_step(s, RelayEvent::SubscribeAcknowledged);
    assert_eq!(s, RelayState::Subscribed);
    assert_eq!(a, RelayAction::AwaitMessage);
}

#[test]
fn every_failure_backs_off_and_retries() {
    for state in [RelayState::Disconnected, RelayState::Connecting, RelayState::Subscribed] {
        let (s, a) = relay_step(state, RelayEvent::ConnectFailed);
        assert_eq!(s, RelayState::Disconnected);
        assert_eq!(a, RelayAction::RetryAfterDelay(RETRY_DELAY_SECS));
        let (s, a) = relay_step(state, RelayEvent::ReadError);
        assert_eq!(s, RelayState::Disconnected);
        assert_eq!(a, RelayAction::RetryAfterDelay(RETRY_DELAY_SECS));
        let (s, a) = relay_step(state, RelayEvent::SubscribeFailed);
        assert_eq!(s, RelayState::Disconnected);
        assert_eq!(a, RelayAction::RetryAfterDelay(RETRY_DELAY_SECS));
    }
}

#[test]
fn clean_stream_end_is_treated_as_failure() {
    let (s, a) = relay_step(RelayState::Subscribed, RelayEvent::StreamEnded);
    assert_eq!(s, RelayState::Disconnected);
    assert_eq!(a, RelayAction::RetryAfterDelay(RETRY_DELAY_SECS));
}

#[test]
fn subscribed_message_is_republished_with_exact_channel() {
    let (s, a) = relay_step(
        RelayState::Subscribed,
        RelayEvent::MessageArrived {
            channel: "ws_channel:job:42".to_string(),
            payload: Some("{\"p\":1}".to_string()),
        },
    );
    assert_eq!(s, RelayState::Subscribed);
    assert_eq!(
        a,
        RelayAction::Publish(RedisMessage::new(
            "ws_channel:job:42".to_string(),
            "{\"p\":1}".to_string()
        ))
    );
}

#[test]
fn malformed_message_is_skipped_not_fatal() {
    let (s, a) = relay_step(
        RelayState::Subscribed,
        RelayEvent::MessageArrived { channel: "ws_channel:job:1".to_string(), payload: None },
    );
    assert_eq!(s, RelayState::Subscribed);
    assert_eq!(a, RelayAction::SkipMessage);
    // and the stream keeps going: the next good message is published
    let (s, a) = relay_step(
        s,
        RelayEvent::MessageArrived {
            channel: "ws_channel:job:1".to_string(),
            payload: Some("ok".to_string()),
        },
    );
    assert_eq!(s, RelayState::Subscribed);
    assert!(matches!(a, RelayAction::Publish(_)));
}

#[test]
fn inapplicable_events_are_ignored() {
    let (s, a) = relay_step(RelayState::Disconnected, RelayEvent::SubscribeAcknowledged);
    assert_eq!(s, RelayState::Disconnected);
    assert_eq!(a, RelayAction::Ignore);
    let (s, a) = relay_step(
        RelayState::Connecting,
        RelayEvent::MessageArrived { channel: "c".to_string(), payload: Some("d".to_string()) },
    );
    assert_eq!(s, RelayState::Connecting);
    assert_eq!(a, RelayAction::Ignore);
    let (s, a) = relay_step(RelayState::Subscribed, RelayEvent::RetryTimerElapsed);
    assert_eq!(s, RelayState::Subscribed);
    assert_eq!(a, RelayAction::Ignore);
}

#[test]
fn clients_resume_after_reconnect_without_reconnecting_themselves() {
    // a client subscribes while the relay is up
    let mut cm = ConnectionManager::new(8);
    cm.add_connection(1);
    cm.subscribe(1, "ws_channel:job:5".to_string());

    // the relay loses the bus and recovers
    let mut state = RelayState::Subscribed;
    let (s, a) = relay_step(state, RelayEvent::ReadError);
    state = s;
    assert_eq!(a, RelayAction::RetryAfterDelay(RETRY_DELAY_SECS));
    let (s, _) = relay_step(state, RelayEvent::RetryTimerElapsed);
    state = s;
    let (s, _) = relay_step(state, RelayEvent::SubscribeAcknowledged);
    state = s;
    assert_eq!(state, RelayState::Subscribed);

    // the first message after recovery flows to the old subscription
    let (_, a) = relay_step(
        state,
        RelayEvent::MessageArrived {
            channel: "ws_channel:job:5".to_string(),
            payload: Some("back".to_string()),
        },
    );
    let m = match a {
        RelayAction::Publish(m) => m,
        other => panic!("expected a publish, got {:?}", other),
    };
    cm.publish(&m);
    assert_eq!(
        write_step(&mut cm, 1),
        WriteOutcome::Forward("{\"channel\":\"ws_channel:job:5\",\"data\":\"back\"}".to_string())
    );
}
