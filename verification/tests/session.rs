use media_sync::SyncError;
use media_sync::protocol::Message;
use media_sync::state::{AppState, ConnectionStatus, cooldown_deadline};

fn toggle_at(timestamp: i64) -> Message {
    Message { msg_type: "toggle".to_string(), position: None, timestamp, client_id: None }
}

#[test]
fn fresh_state_defaults() {
    let s = AppState::new();
    assert_eq!(s.get_status(), ConnectionStatus::Disconnected);
    assert_eq!(s.get_room(), None);
    assert_eq!(s.current_server, None);
    assert!(s.sender.is_none());
    assert_eq!(s.last_ping_time, None);
    assert_eq!(s.simulate_cooldown_until, 0);
    assert_eq!(ConnectionStatus::default(), ConnectionStatus::Disconnected);
}

#[test]
fn send_before_any_connect_is_not_connected() {
    let mut s = AppState::new();
    assert_eq!(s.send_message(toggle_at(1)), Err(SyncError::NotConnected));
    assert_eq!(SyncError::NotConnected.text(), "Not connected");
}

#[test]
fn send_succeeds_whenever_handle_installed() {
    let mut s = AppState::new();
    s.set_sender(Some(Vec::new()));
    // enqueue-only semantics: success does not depend on link health
    assert_eq!(s.send_message(toggle_at(1)), Ok(()));
    assert_eq!(s.send_message(toggle_at(2)), Ok(()));
    s.set_sender(None);
    assert_eq!(s.send_message(toggle_at(3)), Err(SyncError::NotConnected));
}

#[test]
fn outbound_queue_is_fifo() {
    let mut s = AppState::new();
    s.set_sender(Some(Vec::new()));
    s.send_message(toggle_at(10)).unwrap();
    s.send_message(toggle_at(20)).unwrap();
    s.send_message(toggle_at(30)).unwrap();
    assert_eq!(s.pop_outbound(), Some(toggle_at(10)));
    assert_eq!(s.pop_outbound(), Some(toggle_at(20)));
    assert_eq!(s.pop_outbound(), Some(toggle_at(30)));
    assert_eq!(s.pop_outbound(), None);
}

#[test]
fn status_is_replaced_wholesale() {
    let mut s = AppState::new();
    s.set_status(ConnectionStatus::Connected { room: "r".to_string(), latency_ms: Some(5) });
    assert_eq!(
        s.get_status(),
        ConnectionStatus::Connected { room: "r".to_string(), latency_ms: Some(5) }
    );
    s.set_status(ConnectionStatus::Reconnecting { attempt: 3 });
    assert_eq!(s.get_status(), ConnectionStatus::Reconnecting { attempt: 3 });
}

#[test]
fn room_and_server_accessors() {
    let mut s = AppState::new();
    s.set_room(Some("movie-night".to_string()));
    s.set_server(Some("wss://relay.example".to_string()));
    assert_eq!(s.get_room(), Some("movie-night".to_string()));
    assert_eq!(s.current_server, Some("wss://relay.example".to_string()));
    s.set_room(None);
    assert_eq!(s.get_room(), None);
}

#[test]
fn take_last_ping_reads_and_clears() {
    let mut s = AppState::new();
    assert_eq!(s.take_last_ping(), None);
    s.set_last_ping(777);
    assert_eq!(s.take_last_ping(), Some(777));
    assert_eq!(s.take_last_ping(), None);
}

#[test]
fn cooldown_window() {
    let mut s = AppState::new();
    let until = cooldown_deadline(10_000);
    assert_eq!(until, 10_500);
    s.set_cooldown(until);
    assert_eq!(s.simulate_cooldown_until, 10_500);
}
