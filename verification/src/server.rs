//! A tunnel's server: one listening socket, and what each event on it asks
//! for. The servers of a set of tunnels do not depend on one another.

use vstd::prelude::*;

verus! {

/// Where a tunnel's server stands.
#[derive(Clone, Copy, Debug, PartialEq, Eq, Structural)]
pub enum ServerState {
    /// The listening socket is being bound.
    Binding,
    /// The socket is bound and connections are accepted.
    Listening,
    /// The socket could not be bound: the server has ended.
    Stopped,
}

/// What happened to a server.
#[derive(Clone, Copy, Debug, PartialEq, Eq, Structural)]
pub enum ServerEvent {
    /// The listening socket was bound.
    Bound,
    /// The listening socket could not be bound.
    BindFailed,
    /// A client connected.
    Accepted,
    /// Accepting a connection failed.
    AcceptFailed,
    /// A connection of this server ended, with an error if `failed`.
    ConnectionEnded { failed: bool },
}

/// What an event asks for.
#[derive(Clone, Copy, Debug, PartialEq, Eq, Structural)]
pub enum ServerAction {
    /// Wait for the next connection.
    Accept,
    /// Start a task for the connection that was accepted, and wait for the
    /// next one without waiting for that task.
    SpawnConnection,
    /// Log the failure, and wait for the next connection.
    LogAndAccept,
    /// Log the failure of a connection, with its tunnel.
    LogConnectionError,
    /// Nothing is to be done.
    Nothing,
    /// Report the bind failure to the caller and end this server.
    ReportBindFailure,
}

impl ServerState {
    /// True when `event` can happen in this state.
    pub open spec fn accepts(self, event: ServerEvent) -> bool {
        match self {
            ServerState::Binding => event is Bound || event is BindFailed,
            ServerState::Listening => event is Accepted || event is AcceptFailed || event
                is ConnectionEnded,
            ServerState::Stopped => false,
        }
    }

    /// The state after `event`: only a failed bind ends a server.
    pub open spec fn after(self, event: ServerEvent) -> ServerState {
        match (self, event) {
            (ServerState::Binding, ServerEvent::Bound) => ServerState::Listening,
            (ServerState::Binding, ServerEvent::BindFailed) => ServerState::Stopped,
            _ => self,
        }
    }

    /// What `event` asks for in this state.
    pub open spec fn action_on(self, event: ServerEvent) -> ServerAction {
        match (self, event) {
            (ServerState::Binding, ServerEvent::Bound) => ServerAction::Accept,
            (ServerState::Binding, ServerEvent::BindFailed) => ServerAction::ReportBindFailure,
            (ServerState::Listening, ServerEvent::Accepted) => ServerAction::SpawnConnection,
            (ServerState::Listening, ServerEvent::AcceptFailed) => ServerAction::LogAndAccept,
            (
                ServerState::Listening,
                ServerEvent::ConnectionEnded { failed: true },
            ) => ServerAction::LogConnectionError,
            _ => ServerAction::Nothing,
        }
    }

    /// A server starts by binding its socket.
    pub fn start() -> (state: ServerState)
        ensures
            state == ServerState::Binding,
    {
        ServerState::Binding
    }

    /// Takes an event; gives the next state and what to do.
    pub fn on_event(self, event: ServerEvent) -> (r: (ServerState, ServerAction))
        requires
            self.accepts(event),
        ensures
            r.0 == self.after(event),
            r.1 == self.action_on(event),
    {
        match self {
            ServerState::Binding => match event {
                ServerEvent::Bound => (ServerState::Listening, ServerAction::Accept),
                _ => (ServerState::Stopped, ServerAction::ReportBindFailure),
            },
            ServerState::Listening => match event {
                ServerEvent::Accepted => (ServerState::Listening, ServerAction::SpawnConnection),
                ServerEvent::AcceptFailed => (ServerState::Listening, ServerAction::LogAndAccept),
                ServerEvent::ConnectionEnded { failed } => if failed {
                    (ServerState::Listening, ServerAction::LogConnectionError)
                } else {
                    (ServerState::Listening, ServerAction::Nothing)
                },
                _ => (ServerState::Listening, ServerAction::Nothing),
            },
            ServerState::Stopped => (ServerState::Stopped, ServerAction::Nothing),
        }
    }
}

/// True when every server of a set has ended.
pub open spec fn all_stopped(servers: Seq<ServerState>) -> bool {
    forall|i: int| 0 <= i < servers.len() ==> servers[i] == ServerState::Stopped
}

/// Tells whether a set of servers has come to its end: that is when the
/// socket of every tunnel could not be bound.
pub fn set_finished(servers: &Vec<ServerState>) -> (finished: bool)
    ensures
        finished == all_stopped(servers@),
{
    let mut i: usize = 0;
    while i < servers.len()
        invariant
            i <= servers@.len(),
            forall|j: int| 0 <= j < i ==> servers@[j] == ServerState::Stopped,
        decreases servers@.len() - i,
    {
        match servers[i] {
            ServerState::Stopped => {},
            _ => {
                return false;
            },
        }
        i = i + 1;
    }
    true
}

/// A server that listens goes on listening: no failed accept and no failed
/// connection ends it or keeps it from accepting.
pub proof fn lemma_listening_never_ends(event: ServerEvent)
    requires
        ServerState::Listening.accepts(event),
    ensures
        ServerState::Listening.after(event) == ServerState::Listening,
        ServerState::Listening.action_on(event) != ServerAction::ReportBindFailure,
{
}

/// A server ends only when its socket cannot be bound.
pub proof fn lemma_only_bind_failure_stops(state: ServerState, event: ServerEvent)
    requires
        state.accepts(event),
    ensures
        state.after(event) == ServerState::Stopped <==> state == ServerState::Binding && event
            == ServerEvent::BindFailed,
{
}

} // verus!
