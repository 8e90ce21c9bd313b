use relay_hub::connection_manager::ConnectionManager;
use relay_hub::protocol::{apply_client_text, write_step, WriteOutcome};
use relay_hub::relay::{relay_step, RelayAction, RelayEvent, RelayState};

#[test]
fn subscribed_client_receives_exactly_the_published_payload() {
    let mut cm = ConnectionManager::new(100);

    // two clients connect; only the first subscribes
    cm.add_connection(1);
    cm.add_connection(2);
    apply_client_text(&mut cm, 1, "{\"type\":\"SUBSCRIBE\",\"channel\":\"job:42\"}");
    assert_eq!(cm.current_channel(1), Some("ws_channel:job:42".to_string()));
    assert_eq!(cm.current_channel(2), None);

    // the relay comes up and receives one bus message for that job
    let (state, _) = relay_step(RelayState::Disconnected, RelayEvent::RetryTimerElapsed);
    let (state, _) = relay_step(state, RelayEvent::SubscribeAcknowledged);
    assert_eq!(state, RelayState::Subscribed);
    let payload = "{\"job_id\":\"42\",\"status\":\"running\"}";
    let (_, action) = relay_step(
        state,
        RelayEvent::MessageArrived {
            channel: "ws_channel:job:42".to_string(),
            payload: Some(payload.to_string()),
        },
    );
    let envelope = match action {
        RelayAction::Publish(m) => m,
        other => panic!("expected a publish, got {:?}", other),
    };
    cm.publish(&envelope);

    // the subscriber receives exactly that payload, wrapped with its channel
    let expected = format!(
        "{{\"channel\":\"ws_channel:job:42\",\"data\":\"{}\"}}",
        payload.replace('\"', "\\\"")
    );
    assert_eq!(write_step(&mut cm, 1), WriteOutcome::Forward(expected));
    assert_eq!(write_step(&mut cm, 1), WriteOutcome::Idle);

    // the unsubscribed connection receives nothing from the same publish
    assert_eq!(write_step(&mut cm, 2), WriteOutcome::Skipped);
    assert_eq!(write_step(&mut cm, 2), WriteOutcome::Idle);
}

#[test]
fn resubscribing_switches_delivery_to_the_new_job() {
    let mut cm = ConnectionManager::new(100);
    cm.add_connection(9);
    apply_client_text(&mut cm, 9, "{\"type\":\"SUBSCRIBE\",\"channel\":\"job:a\"}");
    apply_client_text(&mut cm, 9, "{\"type\":\"SUBSCRIBE\",\"channel\":\"job:b\"}");

    let (_, a1) = relay_step(
        RelayState::Subscribed,
        RelayEvent::MessageArrived {
            channel: "ws_channel:job:a".to_string(),
            payload: Some("old".to_string()),
        },
    );
    let (_, a2) = relay_step(
        RelayState::Subscribed,
        RelayEvent::MessageArrived {
            channel: "ws_channel:job:b".to_string(),
            payload: Some("new".to_string()),
        },
    );
    for a in [a1, a2] {
        match a {
            RelayAction::Publish(m) => {
                cm.publish(&m);
            },
            other => panic!("expected a publish, got {:?}", other),
        }
    }

    assert_eq!(write_step(&mut cm, 9), WriteOutcome::Skipped);
    assert_eq!(
        write_step(&mut cm, 9),
        WriteOutcome::Forward("{\"channel\":\"ws_channel:job:b\",\"data\":\"new\"}".to_string())
    );
}

#[test]
fn malformed_frames_leave_the_session_running() {
    let mut cm = ConnectionManager::new(100);
    cm.add_connection(3);
    apply_client_text(&mut cm, 3, "{\"type\":\"SUBSCRIBE\",\"channel\":\"job:1\"}");
    // garbage and unknown commands are ignored without closing anything
    apply_client_text(&mut cm, 3, "garbage");
    apply_client_text(&mut cm, 3, "{\"type\":\"HELLO\"}");
    assert_eq!(cm.current_channel(3), Some("ws_channel:job:1".to_string()));

    // an UNSUBSCRIBE then stops delivery
    apply_client_text(&mut cm, 3, "{\"type\":\"UNSUBSCRIBE\"}");
    assert_eq!(cm.current_channel(3), None);
}

#[test]
fn teardown_removes_the_connection_exactly_once() {
    let mut cm = ConnectionManager::new(100);
    cm.add_connection(4);
    apply_client_text(&mut cm, 4, "{\"type\":\"SUBSCRIBE\",\"channel\":\"job:9\"}");
    cm.remove_connection(4);
    assert_eq!(cm.current_channel(4), None);
    let n = cm.publish(&relay_hub::relay::RedisMessage::new(
        "ws_channel:job:9".to_string(),
        "x".to_string(),
    ));
    assert_eq!(n, 0);
    assert_eq!(write_step(&mut cm, 4), WriteOutcome::Idle);
}
