//! An engine that accepts connections and runs one session for each.
//!
//! The waiting on sockets and queues is left to the program around this
//! library. What is here is what the engine and a session decide: a state, and
//! for every event that the program reports the next state and the actions
//! the program has to take.

use std::collections::HashMap;
use vstd::prelude::*;

pub mod engine;
pub mod session;

verus! {

/// Name of the gauge that holds the number of registered sessions.
pub const SESSIONS_GAUGE: &'static str = "net_server_sessions";

/// Name of the counter of failed accepts.
pub const FAILED_ACCEPTS_COUNTER: &'static str = "net_server_failed_accepts";

/// Name of the counter of bytes read from all sessions.
pub const RECEIVED_BYTES_COUNTER: &'static str = "net_server_received_bytes";

/// Name of the counter of bytes written to all sessions.
pub const SENT_BYTES_COUNTER: &'static str = "net_server_sent_bytes";

/// Number of signals the control channel holds.
pub const CONTROL_CHANNEL_SIZE: usize = 2;

/// Number of session identifiers the disconnect channel holds.
pub const DISCONNECT_CHANNEL_SIZE: usize = 32;

/// Where the engine stands.
#[derive(Debug, Clone, Copy, PartialEq, Eq, Structural)]
pub enum EnginePhase {
    /// Built, not started.
    Created,
    /// Started; waiting for a connection or a disconnect.
    Running,
    /// A connection was accepted and announced under this identifier; its
    /// session is being started.
    Starting(u128),
    /// Binding or accepting failed, and the engine has ended.
    Stopped,
}

/// An async TCP server with session management capabilities
pub struct Engine<H> {
    pub bind_host: String,
    pub bind_port: u16,
    pub sessions: HashMap<u128, H>,
    pub phase: EnginePhase,
}

/// Defined signals the [Engine] sends via returned channel on start ([Engine::start])
#[derive(Debug, PartialEq, Eq)]
pub enum ServerSignal {
    Started,
    Shutdown(String),
    NewConnection(u128),
    ClosedConnection(u128),
}

/// A signal as a mathematical value.
pub ghost enum SignalModel {
    Started,
    Shutdown(Seq<char>),
    NewConnection(u128),
    ClosedConnection(u128),
}

impl View for ServerSignal {
    type V = SignalModel;

    open spec fn view(&self) -> SignalModel {
        match self {
            ServerSignal::Started => SignalModel::Started,
            ServerSignal::Shutdown(reason) => SignalModel::Shutdown(reason@),
            ServerSignal::NewConnection(id) => SignalModel::NewConnection(*id),
            ServerSignal::ClosedConnection(id) => SignalModel::ClosedConnection(*id),
        }
    }
}

/// An engine as a mathematical value.
pub ghost struct EngineModel<H> {
    pub host: Seq<char>,
    pub port: u16,
    pub sessions: Map<u128, H>,
    pub phase: EnginePhase,
}

impl<H> View for Engine<H> {
    type V = EngineModel<H>;

    open spec fn view(&self) -> EngineModel<H> {
        EngineModel {
            host: self.bind_host@,
            port: self.bind_port,
            sessions: self.sessions@,
            phase: self.phase,
        }
    }
}

} // verus!
