//! The wire message model: the unit exchanged with the relay server and the
//! millisecond timestamp source used to stamp it.

use vstd::prelude::*;

verus! {

/// The wire unit exchanged with the relay server. Immutable once constructed;
/// `timestamp` is set by the sender at construction time.
#[derive(Debug, Clone, PartialEq)]
pub struct Message {
    /// The message tag: the client sends `toggle` and `ping`; the server may
    /// send `play`, `pause` and `pong`, and further tags pass through.
    pub msg_type: String,
    /// Optional playback position, carried but not interpreted by the core.
    pub position: Option<i64>,
    /// Milliseconds since the Unix epoch, set at construction time.
    pub timestamp: i64,
    /// Optional originating-client identifier.
    pub client_id: Option<String>,
}

/// The fields of a message as mathematical values.
pub ghost struct MsgData {
    pub ty: Seq<char>,
    pub position: Option<int>,
    pub timestamp: int,
    pub client_id: Option<Seq<char>>,
}

impl Message {
    /// The message seen as mathematical data.
    pub open spec fn data(self) -> MsgData {
        MsgData {
            ty: self.msg_type@,
            position: match self.position {
                Some(p) => Some(p as int),
                None => None,
            },
            timestamp: self.timestamp as int,
            client_id: match self.client_id {
                Some(c) => Some(c@),
                None => None,
            },
        }
    }

    /// A toggle message stamped with the current wall-clock time, with no
    /// position and no client identifier.
    pub fn toggle() -> (r: Message)
        ensures
            r.msg_type@ == "toggle"@,
            r.position is None,
            r.client_id is None,
            r.timestamp >= 0,
    {
        Message {
            msg_type: String::from_str("toggle"),
            position: None,
            timestamp: now_ms(),
            client_id: None,
        }
    }

    /// A ping message stamped with the current wall-clock time, with no
    /// position and no client identifier.
    pub fn ping() -> (r: Message)
        ensures
            r.msg_type@ == "ping"@,
            r.position is None,
            r.client_id is None,
            r.timestamp >= 0,
    {
        Message {
            msg_type: String::from_str("ping"),
            position: None,
            timestamp: now_ms(),
            client_id: None,
        }
    }

    /// Exact-tag classification: is this a toggle message?
    pub fn is_toggle(&self) -> (r: bool)
        ensures
            r == (self.msg_type@ == "toggle"@),
    {
        self.msg_type == String::from_str("toggle")
    }

    /// Exact-tag classification: is this a play message?
    pub fn is_play(&self) -> (r: bool)
        ensures
            r == (self.msg_type@ == "play"@),
    {
        self.msg_type == String::from_str("play")
    }

    /// Exact-tag classification: is this a pause message?
    pub fn is_pause(&self) -> (r: bool)
        ensures
            r == (self.msg_type@ == "pause"@),
    {
        self.msg_type == String::from_str("pause")
    }

    /// Exact-tag classification: is this a pong message?
    pub fn is_pong(&self) -> (r: bool)
        ensures
            r == (self.msg_type@ == "pong"@),
    {
        self.msg_type == String::from_str("pong")
    }
}

/// Relies on std::time::SystemTime::now and Duration::as_millis: the current
/// wall-clock time as milliseconds since the Unix epoch. Of the clock nothing
/// can be promised except that the reading is never negative: a clock before
/// the epoch reads as zero, and one beyond the range of i64 saturates.
#[verifier::external_body]
pub fn now_ms() -> (r: i64)
    ensures
        r >= 0,
{
    match std::time::SystemTime::now().duration_since(std::time::UNIX_EPOCH) {
        Ok(d) => i64::try_from(d.as_millis()).unwrap_or(i64::MAX),
        Err(_) => 0,
    }
}

} // verus!
