//! The connection manager's decisions: scheduling a connection, the stop
//! signal, the status transitions on link success and loss, exponential
//! backoff, the heartbeat, and inbound dispatch. The host shell runs the
//! asynchronous loop — opening the link, sleeping, reading and writing the
//! wire — and calls these functions at each decision point; every decision is
//! verified here.

use vstd::prelude::*;

use crate::SyncError;
use crate::codec::{chars_vec, decode_message, decode_spec};
use crate::protocol::{Message, MsgData};
use crate::state::{AppState, ConnectionStatus};

verus! {

/// The wait before the first retry, in milliseconds.
pub const INITIAL_BACKOFF_MS: u64 = 1000;

/// The longest wait between retries, in milliseconds.
pub const MAX_BACKOFF_MS: u64 = 30000;

/// The heartbeat period, in milliseconds.
pub const PING_INTERVAL_MS: u64 = 5000;

// ---------------------------------------------------------------------------
// Endpoint address
// ---------------------------------------------------------------------------

/// Whether a text parses as a well-formed URL; what url::Url::parse accepts
/// depends on the text alone.
pub uninterp spec fn url_parses(s: Seq<char>) -> bool;

/// Relies on url::Url::parse: Ok exactly for a text that is a well-formed
/// URL.
#[verifier::external_body]
fn parse_checks(s: &str) -> (r: bool)
    ensures
        r == url_parses(s@),
{
    url::Url::parse(s).is_ok()
}

/// The base endpoint: the server address, given the fixed `/ws` path segment
/// if it does not already end with it.
pub open spec fn ws_base(server: Seq<char>) -> Seq<char> {
    if server.len() >= 3 && server.subrange(server.len() - 3, server.len() as int) == "/ws"@ {
        server
    } else if server.len() >= 1 && server[server.len() - 1] == '/' {
        server + "ws"@
    } else {
        server + "/ws"@
    }
}

/// The full endpoint address: the base with the room as a query parameter.
pub open spec fn ws_url(server: Seq<char>, room: Seq<char>) -> Seq<char> {
    ws_base(server) + "?room="@ + room
}

/// Build the endpoint address for a server and room, exactly as `ws_url`;
/// `InvalidAddress` exactly when the result is not a well-formed URL.
pub fn build_ws_url(server_url: &str, room: &str) -> (r: Result<String, SyncError>)
    ensures
        match r {
            Ok(u) => u@ == ws_url(server_url@, room@) && url_parses(ws_url(server_url@, room@)),
            Err(e) => e == SyncError::InvalidAddress && !url_parses(ws_url(server_url@, room@)),
        },
{
    let sv = chars_vec(server_url);
    let n = sv.len();
    let mut base = String::from_str(server_url);
    proof {
        reveal_strlit("/ws");
        reveal_strlit("ws");
    }
    if n >= 3 && sv[n - 3] == '/' && sv[n - 2] == 'w' && sv[n - 1] == 's' {
        proof {
            assert(sv@.subrange(n as int - 3, n as int) =~= "/ws"@);
            assert(base@ == ws_base(server_url@));
        }
    } else if n >= 1 && sv[n - 1] == '/' {
        proof {
            if n >= 3 && sv@.subrange(n as int - 3, n as int) == "/ws"@ {
                assert(sv@[n as int - 1] == "/ws"@[2]);
                assert(false);
            }
        }
        base.append("ws");
        proof {
            assert(base@ == ws_base(server_url@));
        }
    } else {
        proof {
            if n >= 3 && sv@.subrange(n as int - 3, n as int) == "/ws"@ {
                assert(sv@[n as int - 3] == "/ws"@[0]);
                assert(sv@[n as int - 2] == "/ws"@[1]);
                assert(sv@[n as int - 1] == "/ws"@[2]);
                assert(false);
            }
        }
        base.append("/ws");
        proof {
            assert(base@ == ws_base(server_url@));
        }
    }
    base.append("?room=");
    base.append(room);
    proof {
        assert(base@ == ws_url(server_url@, room@));
    }
    if parse_checks(base.as_str()) {
        Ok(base)
    } else {
        Err(SyncError::InvalidAddress)
    }
}

// ---------------------------------------------------------------------------
// Status accessors
// ---------------------------------------------------------------------------

/// The room shown by a `Connected` status; empty otherwise.
pub open spec fn connected_room(s: ConnectionStatus) -> Seq<char> {
    match s {
        ConnectionStatus::Connected { room, latency_ms } => room@,
        _ => Seq::empty(),
    }
}

/// The latency shown by a `Connected` status; none otherwise.
pub open spec fn connected_latency(s: ConnectionStatus) -> Option<u32> {
    match s {
        ConnectionStatus::Connected { room, latency_ms } => latency_ms,
        _ => None,
    }
}

/// The manager must stop: the outbound handle has been cleared.
pub open spec fn stop_requested(s: AppState) -> bool {
    s.sender is None
}

/// The stop signal, polled by the manager loop at iteration boundaries.
pub fn should_stop(state: &AppState) -> (r: bool)
    ensures
        r == stop_requested(*state),
{
    state.sender.is_none()
}

// ---------------------------------------------------------------------------
// Connect and disconnect
// ---------------------------------------------------------------------------

/// Schedule a connection: clear any prior handle, record the server and
/// room, move to `Connecting`, build the endpoint address, and install a
/// fresh, empty outbound handle. On a malformed address the call fails with
/// `InvalidAddress` and no handle is installed. The caller then runs the
/// manager loop against the returned address.
pub fn connect(state: &mut AppState, server_url: &str, room: &str) -> (r: Result<
    String,
    SyncError,
>)
    ensures
        final(state).current_server matches Some(sv) && sv@ == server_url@,
        final(state).current_room matches Some(rm) && rm@ == room@,
        final(state).connection_status is Connecting,
        final(state).last_ping_time == old(state).last_ping_time,
        final(state).simulate_cooldown_until == old(state).simulate_cooldown_until,
        match r {
            Ok(u) => u@ == ws_url(server_url@, room@) && url_parses(ws_url(server_url@, room@))
                && final(state).sender is Some && final(state).sender->0@
                == Seq::<Message>::empty(),
            Err(e) => e == SyncError::InvalidAddress && !url_parses(ws_url(server_url@, room@))
                && final(state).sender is None,
        },
{
    state.set_sender(None);
    state.set_server(Some(String::from_str(server_url)));
    state.set_room(Some(String::from_str(room)));
    state.set_status(ConnectionStatus::Connecting);
    let url = match build_ws_url(server_url, room) {
        Ok(u) => u,
        Err(e) => {
            return Err(e);
        },
    };
    state.set_sender(Some(Vec::new()));
    Ok(url)
}

/// Stop the session: clear the handle (the stop signal the loop polls),
/// clear the room and server, and return to `Disconnected`. Idempotent.
pub fn disconnect(state: &mut AppState)
    ensures
        final(state).sender is None,
        stop_requested(*final(state)),
        final(state).current_room is None,
        final(state).current_server is None,
        final(state).connection_status is Disconnected,
        final(state).last_ping_time == old(state).last_ping_time,
        final(state).simulate_cooldown_until == old(state).simulate_cooldown_until,
{
    state.set_sender(None);
    state.set_room(None);
    state.set_server(None);
    state.set_status(ConnectionStatus::Disconnected);
}

/// After `disconnect` the stop signal holds: `should_stop` reports it at the
/// next loop-iteration boundary, so no further attempt is opened and no
/// `Reconnecting` transition is reached; `heartbeat_tick` leaves such a
/// state unchanged and `send_message` refuses with `NotConnected`. Only the
/// next `connect` installs a fresh handle.
pub proof fn lemma_disconnect_halts(s: AppState)
    requires
        s.sender is None,
    ensures
        stop_requested(s),
{
}

// ---------------------------------------------------------------------------
// Reconnection with backoff
// ---------------------------------------------------------------------------

/// The manager loop's retry bookkeeping: the next wait and the count of
/// consecutive failures since the last success.
pub struct RetryState {
    pub backoff_ms: u64,
    pub attempt: u32,
}

impl RetryState {
    /// The backoff interval stays within its designed band.
    pub open spec fn wf(self) -> bool {
        INITIAL_BACKOFF_MS <= self.backoff_ms <= MAX_BACKOFF_MS
    }

    /// Fresh bookkeeping: the initial wait, no failures yet.
    pub fn new() -> (r: RetryState)
        ensures
            r.backoff_ms == INITIAL_BACKOFF_MS,
            r.attempt == 0,
            r.wf(),
    {
        RetryState { backoff_ms: INITIAL_BACKOFF_MS, attempt: 0 }
    }
}

/// The interval after one more failure: doubled, capped at the maximum.
pub open spec fn next_backoff(b: int) -> int {
    if 2 * b <= MAX_BACKOFF_MS {
        2 * b
    } else {
        MAX_BACKOFF_MS as int
    }
}

/// The interval waited before the (k+1)-th consecutive retry.
pub open spec fn backoff_after(k: nat) -> int
    decreases k,
{
    if k == 0 {
        INITIAL_BACKOFF_MS as int
    } else {
        next_backoff(backoff_after((k - 1) as nat))
    }
}

/// The reconnection wait schedule: starting at 1000 ms the interval strictly
/// doubles with each consecutive failure until it reaches the 30000 ms cap,
/// never exceeds the cap, and stays there; a success resets it (`RetryState`
/// is rebuilt by `on_link_success`).
pub proof fn lemma_backoff_schedule(k: nat)
    ensures
        backoff_after(k) == if k == 0 {
            1000int
        } else if k == 1 {
            2000int
        } else if k == 2 {
            4000int
        } else if k == 3 {
            8000int
        } else if k == 4 {
            16000int
        } else {
            30000int
        },
        1000 <= backoff_after(k) <= 30000,
        2 * backoff_after(k) <= 30000 ==> backoff_after((k + 1) as nat) == 2 * backoff_after(k),
        2 * backoff_after(k) > 30000 ==> backoff_after((k + 1) as nat) == 30000,
    decreases k,
{
    if k > 0 {
        lemma_backoff_schedule((k - 1) as nat);
    }
    assert(backoff_after((k + 1) as nat) == next_backoff(backoff_after(k)));
}

/// One failure step of the retry bookkeeping, as one loop iteration
/// performs it through `begin_reconnect` and `finish_reconnect`.
pub open spec fn failure_step(r0: RetryState, r1: RetryState) -> bool {
    r1.attempt == r0.attempt + 1 && r1.backoff_ms as int == next_backoff(r0.backoff_ms as int)
}

proof fn lemma_retry_at(steps: Seq<RetryState>, i: int)
    requires
        steps.len() > 0,
        steps[0].attempt == 0,
        steps[0].backoff_ms == INITIAL_BACKOFF_MS,
        forall|k: int| 0 <= k < steps.len() - 1 ==> #[trigger] failure_step(steps[k], steps[k + 1]),
        0 <= i < steps.len(),
    ensures
        steps[i].attempt == i,
        steps[i].backoff_ms as int == backoff_after(i as nat),
    decreases i,
{
    if i > 0 {
        lemma_retry_at(steps, i - 1);
        assert(failure_step(steps[i - 1], steps[i - 1 + 1]));
        assert(steps[i - 1 + 1] == steps[i]);
    }
}

/// The retry schedule since the last success. Along any run of consecutive
/// failure steps from fresh bookkeeping (what a success resets to), the
/// attempt counter reads exactly how many failures have happened — 1-based
/// and strictly increasing, the first retry reporting 1 — and the wait
/// before the (k+1)-th retry is `backoff_after(k)`: 1000 ms doubling up to
/// the 30000 ms cap.
pub proof fn lemma_retry_schedule(steps: Seq<RetryState>)
    requires
        steps.len() > 0,
        steps[0].attempt == 0,
        steps[0].backoff_ms == INITIAL_BACKOFF_MS,
        forall|k: int| 0 <= k < steps.len() - 1 ==> #[trigger] failure_step(steps[k], steps[k + 1]),
    ensures
        forall|i: int| 0 <= i < steps.len() ==> #[trigger] steps[i].attempt == i,
        forall|i: int| 0 <= i < steps.len() ==> #[trigger] steps[i].backoff_ms as int
            == backoff_after(i as nat),
        forall|i: int, j: int|
            0 <= i < j < steps.len() ==> steps[i].attempt < steps[j].attempt,
{
    assert forall|i: int| 0 <= i < steps.len() implies #[trigger] steps[i].attempt == i by {
        lemma_retry_at(steps, i);
    }
    assert forall|i: int| 0 <= i < steps.len() implies #[trigger] steps[i].backoff_ms as int
        == backoff_after(i as nat) by {
        lemma_retry_at(steps, i);
    }
}

/// The link came up: reset the backoff and the failure count, and show
/// `Connected` for the recorded room with no latency measured yet.
pub fn on_link_success(retry: &mut RetryState, state: &mut AppState)
    ensures
        final(retry).backoff_ms == INITIAL_BACKOFF_MS,
        final(retry).attempt == 0,
        final(retry).wf(),
        final(state).connection_status is Connected,
        connected_room(final(state).connection_status) == (match old(state).current_room {
            Some(rm) => rm@,
            None => Seq::<char>::empty(),
        }),
        connected_latency(final(state).connection_status) is None,
        final(state).current_room == old(state).current_room,
        final(state).current_server == old(state).current_server,
        final(state).sender == old(state).sender,
        final(state).last_ping_time == old(state).last_ping_time,
        final(state).simulate_cooldown_until == old(state).simulate_cooldown_until,
{
    retry.backoff_ms = INITIAL_BACKOFF_MS;
    retry.attempt = 0;
    let room = match state.get_room() {
        Some(rm) => rm,
        None => String::new(),
    };
    state.set_status(ConnectionStatus::Connected { room, latency_ms: None });
}

/// The link is down and a stop was not requested: count the failure, show
/// `Reconnecting` with the 1-based attempt, and report how long to wait
/// before retrying — the current backoff interval.
pub fn begin_reconnect(retry: &mut RetryState, state: &mut AppState) -> (wait_ms: u64)
    requires
        old(retry).attempt < u32::MAX,
        old(retry).wf(),
    ensures
        final(retry).attempt == old(retry).attempt + 1,
        final(retry).backoff_ms == old(retry).backoff_ms,
        final(retry).wf(),
        wait_ms == old(retry).backoff_ms,
        (final(state).connection_status matches ConnectionStatus::Reconnecting { attempt } &&
        attempt == old(retry).attempt + 1),
        final(state).current_room == old(state).current_room,
        final(state).current_server == old(state).current_server,
        final(state).sender == old(state).sender,
        final(state).last_ping_time == old(state).last_ping_time,
        final(state).simulate_cooldown_until == old(state).simulate_cooldown_until,
{
    retry.attempt = retry.attempt + 1;
    state.set_status(ConnectionStatus::Reconnecting { attempt: retry.attempt });
    retry.backoff_ms
}

/// The wait is over: double the backoff up to its cap and install a fresh,
/// empty outbound handle for the next attempt. Messages enqueued while the
/// link was down are dropped with the old handle, not replayed.
pub fn finish_reconnect(retry: &mut RetryState, state: &mut AppState)
    requires
        old(retry).wf(),
    ensures
        final(retry).backoff_ms as int == next_backoff(old(retry).backoff_ms as int),
        final(retry).attempt == old(retry).attempt,
        final(retry).wf(),
        final(state).sender is Some && final(state).sender->0@ == Seq::<Message>::empty(),
        final(state).connection_status == old(state).connection_status,
        final(state).current_room == old(state).current_room,
        final(state).current_server == old(state).current_server,
        final(state).last_ping_time == old(state).last_ping_time,
        final(state).simulate_cooldown_until == old(state).simulate_cooldown_until,
{
    let doubled = retry.backoff_ms * 2;
    retry.backoff_ms = if doubled > MAX_BACKOFF_MS {
        MAX_BACKOFF_MS
    } else {
        doubled
    };
    state.set_sender(Some(Vec::new()));
}

// ---------------------------------------------------------------------------
// Heartbeat
// ---------------------------------------------------------------------------

/// The fields of the ping a heartbeat enqueues at `now`.
pub open spec fn ping_data(now: int) -> MsgData {
    MsgData { ty: "ping"@, position: None, timestamp: now, client_id: None }
}

/// One heartbeat tick at `now`: while a handle is installed, construct a
/// ping, record its timestamp as pending, and enqueue it; with no handle the
/// tick does nothing and reports that the heartbeat should stop.
pub fn heartbeat_tick(state: &mut AppState, now: i64) -> (sent: bool)
    ensures
        old(state).sender is None ==> !sent && *final(state) == *old(state),
        (old(state).sender matches Some(q) ==> sent && final(state).sender is Some && final(state).sender->0@.len() == q@.len() + 1 && final(state).sender->0@.drop_last() == q@ && final(state).sender->0@.last().data() == ping_data(now as int) && final(state).last_ping_time == Some(
            now,
        )),
        final(state).connection_status == old(state).connection_status,
        final(state).current_room == old(state).current_room,
        final(state).current_server == old(state).current_server,
        final(state).simulate_cooldown_until == old(state).simulate_cooldown_until,
        old(state).sender is Some ==> final(state).sender is Some,
        old(state).sender is None ==> final(state).sender is None,
{
    if state.sender.is_none() {
        return false;
    }
    let ping = Message {
        msg_type: String::from_str("ping"),
        position: None,
        timestamp: now,
        client_id: None,
    };
    state.set_last_ping(now);
    let ghost q0 = state.sender->0@;
    let _ = state.send_message(ping);
    proof {
        assert(state.sender->0@.drop_last() =~= q0);
    }
    true
}

// ---------------------------------------------------------------------------
// Inbound dispatch
// ---------------------------------------------------------------------------

/// What one inbound wire text amounted to.
pub enum Inbound {
    /// The payload did not parse as a message object; it is dropped, the
    /// state untouched, the loop goes on.
    Malformed,
    /// A pong. `applied` holds the fresh latency when a pending ping was
    /// consumed while `Connected`; a stale pong applies nothing.
    Pong { applied: Option<u32> },
    /// Any other message: hand it to the host shell, and simulate the local
    /// media key when it is a playback control.
    Deliver { msg: Message, simulate: bool },
}

/// The heartbeat round trip `now - ping`, clamped into u32 range (the wall
/// clock may move backwards or jump far).
pub open spec fn latency_clamped(now: int, ping: int) -> int {
    if now - ping < 0 {
        0
    } else if now - ping > 0xFFFFFFFF {
        0xFFFFFFFF
    } else {
        now - ping
    }
}

/// The measured latency for a ping sent at `ping` and answered at `now`.
pub fn compute_latency(now: i64, ping: i64) -> (r: u32)
    ensures
        r as int == latency_clamped(now as int, ping as int),
{
    let d: i128 = now as i128 - ping as i128;
    if d < 0 {
        0
    } else if d > 0xFFFFFFFF {
        0xFFFFFFFF
    } else {
        d as u32
    }
}

/// Dispatch one inbound wire text at time `now`.
///
/// A malformed payload is dropped with nothing changed. A pong consumes the
/// pending ping timestamp, if any, and — when the status is `Connected` —
/// records `now - ping` as the room's fresh latency; a pong with no pending
/// ping, or outside `Connected`, changes nothing else. Every other message
/// is handed back for delivery to the host shell, with `simulate` set for
/// the playback controls (toggle, play, pause).
pub fn handle_message(state: &mut AppState, text: &str, now: i64) -> (r: Inbound)
    ensures
        final(state).current_room == old(state).current_room,
        final(state).current_server == old(state).current_server,
        final(state).sender == old(state).sender,
        final(state).simulate_cooldown_until == old(state).simulate_cooldown_until,
        match r {
            Inbound::Malformed => decode_spec(text@) is None && *final(state) == *old(state),
            Inbound::Pong { applied } => (decode_spec(text@) matches Some(d) && d.ty == "pong"@)
                && final(state).last_ping_time is None && (match (
                applied,
                old(state).last_ping_time,
            ) {
                (Some(l), Some(p)) => old(state).connection_status is Connected && l as int
                    == latency_clamped(now as int, p as int) && final(state).connection_status is Connected && connected_room(final(state).connection_status)
                    == connected_room(old(state).connection_status) && connected_latency(
                    final(state).connection_status,
                ) == Some(l),
                (None, _) => (old(state).last_ping_time is None || !(old(state).connection_status is Connected)) && final(state).connection_status == old(state).connection_status,
                (Some(l), None) => false,
            }),
            Inbound::Deliver { msg, simulate } => decode_spec(text@) == Some(msg.data()) && !(
            msg.msg_type@ == "pong"@) && simulate == (msg.msg_type@ == "toggle"@ || msg.msg_type@
                == "play"@ || msg.msg_type@ == "pause"@) && *final(state) == *old(state),
        },
{
    let msg = match decode_message(text) {
        None => {
            return Inbound::Malformed;
        },
        Some(m) => m,
    };
    if msg.is_pong() {
        match state.take_last_ping() {
            Some(ping_time) => {
                let latency = compute_latency(now, ping_time);
                match state.get_status() {
                    ConnectionStatus::Connected { room, latency_ms } => {
                        state.set_status(
                            ConnectionStatus::Connected { room, latency_ms: Some(latency) },
                        );
                        Inbound::Pong { applied: Some(latency) }
                    },
                    _ => Inbound::Pong { applied: None },
                }
            },
            None => Inbound::Pong { applied: None },
        }
    } else {
        let simulate = msg.is_toggle() || msg.is_play() || msg.is_pause();
        Inbound::Deliver { msg, simulate }
    }
}



} // verus!
