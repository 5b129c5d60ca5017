//! The shared session state: the connection status, the active room and
//! server, the outbound message queue standing for the open channel handle,
//! the pending heartbeat timestamp, and the local-feedback suppression
//! window. The host shell shares one value of this behind its own lock; every
//! method states exactly how it moves the state.

use vstd::prelude::*;

use crate::SyncError;
use crate::protocol::Message;

verus! {

/// The single source of truth for link state: exactly one variant is current
/// at any instant, and only the connection manager's transitions change it.
#[derive(Debug, Clone, PartialEq)]
pub enum ConnectionStatus {
    /// No link and none sought.
    Disconnected,
    /// A first connection attempt is being scheduled.
    Connecting,
    /// A link is up; `latency_ms` is absent until the first heartbeat
    /// round-trip completes, then holds the most recent measurement.
    Connected { room: String, latency_ms: Option<u32> },
    /// The link was lost; `attempt` counts consecutive failed attempts since
    /// the last success, starting at 1.
    Reconnecting { attempt: u32 },
}

impl Default for ConnectionStatus {
    /// The status a fresh session starts in.
    fn default() -> (r: ConnectionStatus)
        ensures
            r is Disconnected,
    {
        ConnectionStatus::Disconnected
    }
}

impl ConnectionStatus {
    /// An equal status value, built without relying on a derived clone.
    pub fn snapshot(&self) -> (r: ConnectionStatus)
        ensures
            r == *self,
    {
        match self {
            ConnectionStatus::Disconnected => ConnectionStatus::Disconnected,
            ConnectionStatus::Connecting => ConnectionStatus::Connecting,
            ConnectionStatus::Connected { room, latency_ms } => ConnectionStatus::Connected {
                room: room.clone(),
                latency_ms: *latency_ms,
            },
            ConnectionStatus::Reconnecting { attempt } => ConnectionStatus::Reconnecting {
                attempt: *attempt,
            },
        }
    }
}

/// The shared record mutated by the connection manager and read by the host
/// shell. The outbound channel is modelled by its contents: `sender` is the
/// queue of enqueued, not yet written messages while a handle is installed,
/// and `None` while none is — its absence is the stop signal the manager
/// polls.
pub struct AppState {
    pub connection_status: ConnectionStatus,
    pub current_room: Option<String>,
    pub current_server: Option<String>,
    pub sender: Option<Vec<Message>>,
    pub last_ping_time: Option<i64>,
    pub simulate_cooldown_until: i64,
}

impl AppState {
    /// A fresh session: disconnected, no room, no server, no handle, no
    /// pending ping, no suppression window.
    pub fn new() -> (r: AppState)
        ensures
            r.connection_status is Disconnected,
            r.current_room is None,
            r.current_server is None,
            r.sender is None,
            r.last_ping_time is None,
            r.simulate_cooldown_until == 0,
    {
        AppState {
            connection_status: ConnectionStatus::Disconnected,
            current_room: None,
            current_server: None,
            sender: None,
            last_ping_time: None,
            simulate_cooldown_until: 0,
        }
    }

    /// Replace the status wholesale.
    pub fn set_status(&mut self, status: ConnectionStatus)
        ensures
            final(self).connection_status == status,
            final(self).current_room == old(self).current_room,
            final(self).current_server == old(self).current_server,
            final(self).sender == old(self).sender,
            final(self).last_ping_time == old(self).last_ping_time,
            final(self).simulate_cooldown_until == old(self).simulate_cooldown_until,
    {
        self.connection_status = status;
    }

    /// A snapshot of the current status.
    pub fn get_status(&self) -> (r: ConnectionStatus)
        ensures
            r == self.connection_status,
    {
        self.connection_status.snapshot()
    }

    /// Install or clear the outbound handle; clearing it is the canonical
    /// stop signal consumed by the manager loop.
    pub fn set_sender(&mut self, sender: Option<Vec<Message>>)
        ensures
            final(self).sender == sender,
            final(self).connection_status == old(self).connection_status,
            final(self).current_room == old(self).current_room,
            final(self).current_server == old(self).current_server,
            final(self).last_ping_time == old(self).last_ping_time,
            final(self).simulate_cooldown_until == old(self).simulate_cooldown_until,
    {
        self.sender = sender;
    }

    /// Enqueue a message on the outbound handle. Fails with `NotConnected`
    /// exactly when no handle is installed; with one installed it always
    /// succeeds and appends the message, whatever the link's health.
    pub fn send_message(&mut self, msg: Message) -> (r: Result<(), SyncError>)
        ensures
            old(self).sender is None ==> r == Err::<(), SyncError>(SyncError::NotConnected)
                && *final(self) == *old(self),
            old(self).sender matches Some(q) ==> r == Ok::<(), SyncError>(())
                && final(self).sender is Some && final(self).sender->0@ == q@ + seq![msg],
            final(self).connection_status == old(self).connection_status,
            final(self).current_room == old(self).current_room,
            final(self).current_server == old(self).current_server,
            final(self).last_ping_time == old(self).last_ping_time,
            final(self).simulate_cooldown_until == old(self).simulate_cooldown_until,
    {
        match &mut self.sender {
            Some(q) => {
                q.push(msg);
                Ok(())
            },
            None => Err(SyncError::NotConnected),
        }
    }

    /// Take the oldest enqueued message, if any: the queue hands messages out
    /// in the order they were enqueued.
    pub fn pop_outbound(&mut self) -> (r: Option<Message>)
        ensures
            match r {
                Some(m) => old(self).sender matches Some(q) && q@.len() > 0 && m == q@[0]
                    && final(self).sender is Some && final(self).sender->0@ == q@.drop_first(),
                None => *final(self) == *old(self) && (old(self).sender matches Some(q) ==> q@.len()
                    == 0) || old(self).sender is None,
            },
            final(self).connection_status == old(self).connection_status,
            final(self).current_room == old(self).current_room,
            final(self).current_server == old(self).current_server,
            final(self).last_ping_time == old(self).last_ping_time,
            final(self).simulate_cooldown_until == old(self).simulate_cooldown_until,
    {
        match &mut self.sender {
            Some(q) => {
                if q.len() > 0 {
                    let m = q.remove(0);
                    proof {
                        assert(final(self).sender->0@ =~= old(self).sender->0@.drop_first());
                    }
                    Some(m)
                } else {
                    None
                }
            },
            None => None,
        }
    }

    /// Record the active room, or clear it.
    pub fn set_room(&mut self, room: Option<String>)
        ensures
            final(self).current_room == room,
            final(self).connection_status == old(self).connection_status,
            final(self).current_server == old(self).current_server,
            final(self).sender == old(self).sender,
            final(self).last_ping_time == old(self).last_ping_time,
            final(self).simulate_cooldown_until == old(self).simulate_cooldown_until,
    {
        self.current_room = room;
    }

    /// Record the active server address, or clear it.
    pub fn set_server(&mut self, server: Option<String>)
        ensures
            final(self).current_server == server,
            final(self).connection_status == old(self).connection_status,
            final(self).current_room == old(self).current_room,
            final(self).sender == old(self).sender,
            final(self).last_ping_time == old(self).last_ping_time,
            final(self).simulate_cooldown_until == old(self).simulate_cooldown_until,
    {
        self.current_server = server;
    }

    /// A snapshot of the active room.
    pub fn get_room(&self) -> (r: Option<String>)
        ensures
            r == self.current_room,
    {
        match &self.current_room {
            Some(room) => Some(room.clone()),
            None => None,
        }
    }

    /// Record the timestamp of the heartbeat just sent.
    pub fn set_last_ping(&mut self, time: i64)
        ensures
            final(self).last_ping_time == Some(time),
            final(self).connection_status == old(self).connection_status,
            final(self).current_room == old(self).current_room,
            final(self).current_server == old(self).current_server,
            final(self).sender == old(self).sender,
            final(self).simulate_cooldown_until == old(self).simulate_cooldown_until,
    {
        self.last_ping_time = Some(time);
    }

    /// Read and clear the pending heartbeat timestamp: each sent ping is
    /// consumed by at most one reply.
    pub fn take_last_ping(&mut self) -> (r: Option<i64>)
        ensures
            r == old(self).last_ping_time,
            final(self).last_ping_time is None,
            final(self).connection_status == old(self).connection_status,
            final(self).current_room == old(self).current_room,
            final(self).current_server == old(self).current_server,
            final(self).sender == old(self).sender,
            final(self).simulate_cooldown_until == old(self).simulate_cooldown_until,
    {
        let r = self.last_ping_time;
        self.last_ping_time = None;
        r
    }

    /// Record the end of the local feedback-suppression window.
    pub fn set_cooldown(&mut self, until: i64)
        ensures
            final(self).simulate_cooldown_until == until,
            final(self).connection_status == old(self).connection_status,
            final(self).current_room == old(self).current_room,
            final(self).current_server == old(self).current_server,
            final(self).sender == old(self).sender,
            final(self).last_ping_time == old(self).last_ping_time,
    {
        self.simulate_cooldown_until = until;
    }
}

/// How long a locally simulated key press suppresses re-broadcasting, in
/// milliseconds.
pub const COOLDOWN_MS: i64 = 500;

/// The end of the suppression window armed at `now`: half a second later.
pub fn cooldown_deadline(now: i64) -> (r: i64)
    requires
        now <= i64::MAX - COOLDOWN_MS,
    ensures
        r == now + COOLDOWN_MS,
{
    now + COOLDOWN_MS
}

} // verus!
