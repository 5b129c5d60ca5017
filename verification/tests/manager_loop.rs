use media_sync::SyncError;
use media_sync::codec::encode_message;
use media_sync::manager::{
    Inbound, RetryState, begin_reconnect, build_ws_url, compute_latency, connect,
    disconnect, finish_reconnect, handle_message, heartbeat_tick, on_link_success,
    should_stop,
};
use media_sync::protocol::Message;
use media_sync::state::{AppState, ConnectionStatus};

#[test]
fn endpoint_address_forms() {
    assert_eq!(
        build_ws_url("wss://relay.example", "movie-night").unwrap(),
        "wss://relay.example/ws?room=movie-night"
    );
    assert_eq!(build_ws_url("wss://relay.example/", "r").unwrap(), "wss://relay.example/ws?room=r");
    assert_eq!(
        build_ws_url("wss://relay.example/ws", "r").unwrap(),
        "wss://relay.example/ws?room=r"
    );
    assert_eq!(build_ws_url("", "r"), Err(SyncError::InvalidAddress));
    assert_eq!(build_ws_url("not a url", "r"), Err(SyncError::InvalidAddress));
    assert_eq!(SyncError::InvalidAddress.text(), "Invalid address");
}

#[test]
fn connect_schedules_and_installs_handle() {
    let mut s = AppState::new();
    let url = connect(&mut s, "wss://relay.example", "movie-night").unwrap();
    assert_eq!(url, "wss://relay.example/ws?room=movie-night");
    assert_eq!(s.get_status(), ConnectionStatus::Connecting);
    assert_eq!(s.get_room(), Some("movie-night".to_string()));
    assert_eq!(s.current_server, Some("wss://relay.example".to_string()));
    assert!(s.sender.is_some());
    assert!(!should_stop(&s));
}

#[test]
fn connect_with_bad_address_fails_and_installs_nothing() {
    let mut s = AppState::new();
    assert_eq!(connect(&mut s, "", "r"), Err(SyncError::InvalidAddress));
    assert!(s.sender.is_none());
    // the attempt was recorded before the address was refused
    assert_eq!(s.get_status(), ConnectionStatus::Connecting);
}

#[test]
fn disconnect_clears_everything_and_stops() {
    let mut s = AppState::new();
    connect(&mut s, "wss://relay.example", "r").unwrap();
    let mut retry = RetryState::new();
    on_link_success(&mut retry, &mut s);
    disconnect(&mut s);
    assert_eq!(s.get_status(), ConnectionStatus::Disconnected);
    assert_eq!(s.get_room(), None);
    assert_eq!(s.current_server, None);
    assert!(should_stop(&s));
    // no heartbeat fires and no send succeeds after the stop signal
    assert!(!heartbeat_tick(&mut s, 1));
    assert_eq!(
        s.send_message(Message::toggle()),
        Err(SyncError::NotConnected)
    );
    assert_eq!(s.get_status(), ConnectionStatus::Disconnected);
    // idempotent
    disconnect(&mut s);
    assert_eq!(s.get_status(), ConnectionStatus::Disconnected);
}

#[test]
fn immediate_close_status_sequence() {
    // connect("wss://relay.example", "movie-night"), server closes at once
    let mut s = AppState::new();
    assert_eq!(s.get_status(), ConnectionStatus::Disconnected);
    connect(&mut s, "wss://relay.example", "movie-night").unwrap();
    assert_eq!(s.get_status(), ConnectionStatus::Connecting);
    let mut retry = RetryState::new();
    on_link_success(&mut retry, &mut s);
    assert_eq!(
        s.get_status(),
        ConnectionStatus::Connected { room: "movie-night".to_string(), latency_ms: None }
    );
    // the peer closes: first retry is shown at once, waits 1000 ms
    let w1 = begin_reconnect(&mut retry, &mut s);
    assert_eq!(s.get_status(), ConnectionStatus::Reconnecting { attempt: 1 });
    assert_eq!(w1, 1000);
    finish_reconnect(&mut retry, &mut s);
    // the retry fails too: second attempt after the 1000 ms wait
    let w2 = begin_reconnect(&mut retry, &mut s);
    assert_eq!(s.get_status(), ConnectionStatus::Reconnecting { attempt: 2 });
    assert_eq!(w2, 2000);
}

#[test]
fn backoff_doubles_to_cap_and_resets_on_success() {
    let mut s = AppState::new();
    s.set_sender(Some(Vec::new()));
    let mut retry = RetryState::new();
    let mut waits = Vec::new();
    for _ in 0..8 {
        waits.push(begin_reconnect(&mut retry, &mut s));
        finish_reconnect(&mut retry, &mut s);
    }
    assert_eq!(waits, vec![1000, 2000, 4000, 8000, 16000, 30000, 30000, 30000]);
    assert_eq!(s.get_status(), ConnectionStatus::Reconnecting { attempt: 8 });
    on_link_success(&mut retry, &mut s);
    assert_eq!(begin_reconnect(&mut retry, &mut s), 1000);
    assert_eq!(s.get_status(), ConnectionStatus::Reconnecting { attempt: 1 });
}

#[test]
fn heartbeat_enqueues_ping_and_records_pending() {
    let mut s = AppState::new();
    s.set_sender(Some(Vec::new()));
    assert!(heartbeat_tick(&mut s, 5000));
    assert_eq!(s.last_ping_time, Some(5000));
    let ping = s.pop_outbound().unwrap();
    assert_eq!(ping.msg_type, "ping");
    assert_eq!(ping.timestamp, 5000);
    assert_eq!(ping.position, None);
    assert_eq!(ping.client_id, None);
    assert_eq!(s.pop_outbound(), None);
}

#[test]
fn pong_applies_latency_from_pending_ping() {
    let mut s = AppState::new();
    s.set_status(ConnectionStatus::Connected { room: "r".to_string(), latency_ms: None });
    s.set_last_ping(1000);
    let r = handle_message(&mut s, "{\"type\":\"pong\",\"timestamp\":0}", 1250);
    assert!(matches!(r, Inbound::Pong { applied: Some(250) }));
    assert_eq!(
        s.get_status(),
        ConnectionStatus::Connected { room: "r".to_string(), latency_ms: Some(250) }
    );
    assert_eq!(s.last_ping_time, None);
    // a pong with no pending ping is a no-op
    let r = handle_message(&mut s, "{\"type\":\"pong\",\"timestamp\":0}", 1300);
    assert!(matches!(r, Inbound::Pong { applied: None }));
    assert_eq!(
        s.get_status(),
        ConnectionStatus::Connected { room: "r".to_string(), latency_ms: Some(250) }
    );
}

#[test]
fn pong_outside_connected_consumes_ping_quietly() {
    let mut s = AppState::new();
    s.set_status(ConnectionStatus::Reconnecting { attempt: 1 });
    s.set_last_ping(10);
    let r = handle_message(&mut s, "{\"type\":\"pong\",\"timestamp\":0}", 20);
    assert!(matches!(r, Inbound::Pong { applied: None }));
    assert_eq!(s.last_ping_time, None);
    assert_eq!(s.get_status(), ConnectionStatus::Reconnecting { attempt: 1 });
}

#[test]
fn latency_is_clamped() {
    assert_eq!(compute_latency(100, 300), 0);
    assert_eq!(compute_latency(300, 100), 200);
    assert_eq!(compute_latency(i64::MAX, i64::MIN), u32::MAX);
}

#[test]
fn malformed_inbound_is_dropped_without_state_change() {
    let mut s = AppState::new();
    s.set_status(ConnectionStatus::Connected { room: "r".to_string(), latency_ms: Some(9) });
    s.set_last_ping(123);
    let r = handle_message(&mut s, "{\"type\":\"pong\",\"timestamp\":", 200);
    assert!(matches!(r, Inbound::Malformed));
    assert_eq!(
        s.get_status(),
        ConnectionStatus::Connected { room: "r".to_string(), latency_ms: Some(9) }
    );
    assert_eq!(s.last_ping_time, Some(123));
}

#[test]
fn playback_controls_are_delivered_and_simulated() {
    let mut s = AppState::new();
    for (ty, simulate) in
        [("toggle", true), ("play", true), ("pause", true), ("chat", false)]
    {
        let text = format!("{{\"type\":\"{}\",\"timestamp\":1}}", ty);
        match handle_message(&mut s, &text, 2) {
            Inbound::Deliver { msg, simulate: sim } => {
                assert_eq!(msg.msg_type, ty);
                assert_eq!(sim, simulate);
            },
            _ => panic!("expected delivery for {}", ty),
        }
    }
}

#[test]
fn two_toggles_reach_the_wire_in_order() {
    // two enqueues in immediate succession on a healthy link
    let mut s = AppState::new();
    connect(&mut s, "wss://relay.example", "r").unwrap();
    let m1 = Message { msg_type: "toggle".to_string(), position: None, timestamp: 1, client_id: None };
    let m2 = Message { msg_type: "toggle".to_string(), position: None, timestamp: 2, client_id: None };
    s.send_message(m1).unwrap();
    s.send_message(m2).unwrap();
    let w1 = encode_message(&s.pop_outbound().unwrap());
    let w2 = encode_message(&s.pop_outbound().unwrap());
    assert_eq!(w1, "{\"type\":\"toggle\",\"timestamp\":1}");
    assert_eq!(w2, "{\"type\":\"toggle\",\"timestamp\":2}");
}

#[test]
fn live_toggles_have_nondecreasing_timestamps_in_order() {
    let mut s = AppState::new();
    s.set_sender(Some(Vec::new()));
    s.send_message(Message::toggle()).unwrap();
    s.send_message(Message::toggle()).unwrap();
    let w1 = s.pop_outbound().unwrap();
    let w2 = s.pop_outbound().unwrap();
    assert_eq!(w1.msg_type, "toggle");
    assert_eq!(w2.msg_type, "toggle");
    assert!(w1.timestamp <= w2.timestamp);
}
