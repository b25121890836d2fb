//! The life of a websocket connection.
use vstd::prelude::*;

use super::api::{EndpointClientConfig, EndpointData};
use super::query::{parse_query_u32, url_number};

verus! {

/// The seconds between two pings where the platform names no number.
pub const DEFAULT_PING_SECS: u64 = 120;

/// The longest wait before a connection is tried again, in seconds.
pub const MAX_BACKOFF_SECS: u64 = 30;

/// How a connection is kept alive.
#[derive(Debug, Clone, Copy, PartialEq, Eq, Structural)]
pub struct ConnectionPlan {
    pub ping_interval: u64,
    pub service_id: u32,
}

/// The seconds between two pings: a positive number that the platform names,
/// or the default.
pub open spec fn ping_interval(config: Option<EndpointClientConfig>) -> u64 {
    match config {
        Some(config) => match config.ping_interval {
            Some(seconds) if seconds > 0 => seconds,
            _ => DEFAULT_PING_SECS,
        },
        None => DEFAULT_PING_SECS,
    }
}

/// How a connection to that address is kept alive.
pub fn connection_plan(endpoint: &EndpointData) -> (r: ConnectionPlan)
    ensures
        r.ping_interval == ping_interval(endpoint.client_config),
        r.ping_interval > 0,
        r.service_id == match url_number(endpoint.url@, "service_id"@) {
            Some(n) => n as u32,
            None => 0u32,
        },
{
    let ping_interval: u64 = match &endpoint.client_config {
        Some(config) => match config.ping_interval {
            Some(seconds) => {
                if seconds > 0 {
                    seconds
                } else {
                    DEFAULT_PING_SECS
                }
            },
            None => DEFAULT_PING_SECS,
        },
        None => DEFAULT_PING_SECS,
    };
    let service_id: u32 = match parse_query_u32(endpoint.url.as_str(), "service_id") {
        Some(n) => n,
        None => 0,
    };
    ConnectionPlan { ping_interval, service_id }
}

/// What happens on a connection.
#[derive(Debug)]
pub enum SocketEvent {
    /// The channel is to stop.
    Cancelled,
    /// It is time for a ping.
    KeepaliveDue,
    /// A frame came.
    Binary(Vec<u8>),
    /// The frame that came last was taken in; this is its response, where it
    /// has one.
    Handled(Option<Vec<u8>>),
    /// A ping of the websocket came.
    Ping(Vec<u8>),
    /// The platform closed the connection.
    Closed,
    /// The connection ended.
    Ended,
    /// The connection could not be read.
    ReadFailed,
    /// Something could not be sent.
    SendFailed,
    /// Something else came.
    Other,
}

/// What is done about it.
#[derive(Debug)]
pub enum SocketAction {
    /// The connection is closed and left.
    Close,
    /// A ping frame is sent.
    SendPing,
    /// The frame is taken in.
    Receive(Vec<u8>),
    /// The response to a frame is sent.
    Respond(Vec<u8>),
    /// The ping of the websocket is answered.
    SendPong(Vec<u8>),
    /// The connection is left.
    Leave,
    /// Nothing.
    Wait,
}

/// What is done about what happens on a connection.
pub open spec fn action_on(event: SocketEvent) -> SocketAction {
    match event {
        SocketEvent::Cancelled => SocketAction::Close,
        SocketEvent::KeepaliveDue => SocketAction::SendPing,
        SocketEvent::Binary(bytes) => SocketAction::Receive(bytes),
        SocketEvent::Handled(Some(response)) => SocketAction::Respond(response),
        SocketEvent::Handled(None) => SocketAction::Wait,
        SocketEvent::Ping(payload) => SocketAction::SendPong(payload),
        SocketEvent::Closed => SocketAction::Leave,
        SocketEvent::Ended => SocketAction::Leave,
        SocketEvent::ReadFailed => SocketAction::Leave,
        SocketEvent::SendFailed => SocketAction::Leave,
        SocketEvent::Other => SocketAction::Wait,
    }
}

/// Decides what is done about what happens on a connection.
pub fn on_socket_event(event: SocketEvent) -> (r: SocketAction)
    ensures
        r == action_on(event),
{
    match event {
        SocketEvent::Cancelled => SocketAction::Close,
        SocketEvent::KeepaliveDue => SocketAction::SendPing,
        SocketEvent::Binary(bytes) => SocketAction::Receive(bytes),
        SocketEvent::Handled(Some(response)) => SocketAction::Respond(response),
        SocketEvent::Handled(None) => SocketAction::Wait,
        SocketEvent::Ping(payload) => SocketAction::SendPong(payload),
        SocketEvent::Closed => SocketAction::Leave,
        SocketEvent::Ended => SocketAction::Leave,
        SocketEvent::ReadFailed => SocketAction::Leave,
        SocketEvent::SendFailed => SocketAction::Leave,
        SocketEvent::Other => SocketAction::Wait,
    }
}

/// What was made of a frame, as something that happens on a connection: a frame
/// that could not be taken in counts as one without a response.
pub open spec fn handling<E>(result: Result<Option<Vec<u8>>, E>) -> SocketEvent {
    match result {
        Ok(response) => SocketEvent::Handled(response),
        Err(_) => SocketEvent::Handled(None),
    }
}

/// Tells the connection what was made of a frame: its response, where it has one,
/// or an error.
pub fn on_frame_handled<E>(result: Result<Option<Vec<u8>>, E>) -> (r: SocketEvent)
    ensures
        r == handling(result),
{
    match result {
        Ok(response) => SocketEvent::Handled(response),
        Err(_) => SocketEvent::Handled(None),
    }
}

/// How an open connection ends with what is done, where it does: well, whether
/// the connection is closed or left.
pub open spec fn ending(action: SocketAction) -> Option<bool> {
    match action {
        SocketAction::Close | SocketAction::Leave => Some(true),
        _ => None,
    }
}

/// Whether an open connection ends with what is done, and whether it ends well.
pub fn ends_connection(action: &SocketAction) -> (r: Option<bool>)
    ensures
        r == ending(*action),
{
    match action {
        SocketAction::Close | SocketAction::Leave => Some(true),
        _ => None,
    }
}

/// When a connection that was lost is tried again.
#[derive(Debug)]
pub struct Reconnect {
    backoff_secs: u64,
}

/// The wait that follows a wait.
pub open spec fn next_backoff(secs: nat) -> nat {
    if secs * 2 < MAX_BACKOFF_SECS {
        secs * 2
    } else {
        MAX_BACKOFF_SECS as nat
    }
}

/// The wait after a connection ended, well or not, where there is one, and the
/// wait that follows it.
pub open spec fn wait_of(secs: nat, ended_well: bool, cancelled: bool) -> (Option<nat>, nat) {
    if ended_well && cancelled {
        (None, secs)
    } else {
        (Some(secs), next_backoff(secs))
    }
}

impl View for Reconnect {
    type V = nat;

    /// The seconds of the next wait.
    closed spec fn view(&self) -> nat {
        self.backoff_secs as nat
    }
}

impl Reconnect {
    /// The invariant: a wait takes from one second up to the longest wait.
    pub open spec fn wf(&self) -> bool {
        1 <= self@ <= MAX_BACKOFF_SECS
    }

    /// No connection was lost yet.
    pub fn new() -> (r: Reconnect)
        ensures
            r.wf(),
            r@ == 1,
    {
        Reconnect { backoff_secs: 1 }
    }

    /// How many seconds to wait after a connection ended, well or not; nothing
    /// where it ended well because the channel is to stop. The wait after that
    /// is twice as long, up to the longest.
    pub fn after_connection(&mut self, ended_well: bool, cancelled: bool) -> (r: Option<u64>)
        requires
            old(self).wf(),
        ensures
            final(self).wf(),
            final(self)@ == wait_of(old(self)@, ended_well, cancelled).1,
            match r {
                Some(secs) => wait_of(old(self)@, ended_well, cancelled).0 == Some(secs as nat),
                None => wait_of(old(self)@, ended_well, cancelled).0 is None,
            },
    {
        if ended_well && cancelled {
            return None;
        }
        let secs: u64 = self.backoff_secs;
        self.backoff_secs = if secs * 2 < MAX_BACKOFF_SECS {
            secs * 2
        } else {
            MAX_BACKOFF_SECS
        };
        Some(secs)
    }
}

} // verus!
