//! One relayed connection: two copies, one in each direction, and the rules
//! by which their ends close the connection.

use vstd::prelude::*;

verus! {

/// The direction of a copy.
#[derive(Clone, Copy, Debug, PartialEq, Eq, Structural)]
pub enum Direction {
    /// From the client to the upstream host.
    Forward,
    /// From the upstream host to the client.
    Backward,
}

/// One direction of a session.
#[derive(Clone, Copy, Debug, PartialEq, Eq, Structural)]
pub enum CopyState {
    /// Bytes are still carried.
    Copying,
    /// The source reached its end after this many bytes.
    Finished(u64),
}

/// How a copy ended.
#[derive(Clone, Copy, Debug, PartialEq, Eq, Structural)]
pub enum CopyEnd {
    /// The source reached its end after `bytes` bytes.
    Eof { direction: Direction, bytes: u64 },
    /// The transport failed.
    Failed { direction: Direction },
}

/// What the end of a copy asks for.
#[derive(Clone, Copy, Debug, PartialEq, Eq, Structural)]
pub enum SessionAction {
    /// Shut down the write side of the socket that this direction copied
    /// into, and leave the other direction running.
    HalfClose(Direction),
    /// Drop both sockets.
    CloseBoth,
}

/// Where a session stands.
#[derive(Clone, Copy, Debug, PartialEq, Eq, Structural)]
pub enum SessionState {
    /// At least one direction still copies.
    Relaying { forward: CopyState, backward: CopyState },
    /// Both directions reached their end.
    Completed { uploaded: u64, downloaded: u64 },
    /// The copy in this direction failed.
    Failed(Direction),
}

impl CopyEnd {
    /// The direction of the copy that ended.
    pub open spec fn direction(self) -> Direction {
        match self {
            CopyEnd::Eof { direction, .. } => direction,
            CopyEnd::Failed { direction } => direction,
        }
    }
}

impl SessionState {
    /// While a session relays, one direction at least is not finished.
    pub open spec fn well_formed(self) -> bool {
        self matches SessionState::Relaying { forward, backward } ==> forward is Copying
            || backward is Copying
    }

    /// A session starts with both directions copying.
    pub open spec fn initial() -> SessionState {
        SessionState::Relaying { forward: CopyState::Copying, backward: CopyState::Copying }
    }

    /// The state of one direction of a relaying session.
    pub open spec fn copy(self, direction: Direction) -> Option<CopyState> {
        match self {
            SessionState::Relaying { forward, backward } => match direction {
                Direction::Forward => Some(forward),
                Direction::Backward => Some(backward),
            },
            _ => None,
        }
    }

    /// True when `end` is the end of a copy that was still running.
    pub open spec fn accepts(self, end: CopyEnd) -> bool {
        self.copy(end.direction()) == Some(CopyState::Copying)
    }

    /// The state after the end of a copy.
    ///
    /// A failure ends the session at once. An end of stream ends it when the
    /// other direction has finished too, and the counts of both are kept.
    pub open spec fn after(self, end: CopyEnd) -> SessionState {
        match (self, end) {
            (SessionState::Relaying { .. }, CopyEnd::Failed { direction }) => SessionState::Failed(
                direction,
            ),
            (
                SessionState::Relaying { forward, backward },
                CopyEnd::Eof { direction: Direction::Forward, bytes },
            ) => match backward {
                CopyState::Finished(downloaded) => SessionState::Completed {
                    uploaded: bytes,
                    downloaded,
                },
                CopyState::Copying => SessionState::Relaying {
                    forward: CopyState::Finished(bytes),
                    backward,
                },
            },
            (
                SessionState::Relaying { forward, backward },
                CopyEnd::Eof { direction: Direction::Backward, bytes },
            ) => match forward {
                CopyState::Finished(uploaded) => SessionState::Completed {
                    uploaded,
                    downloaded: bytes,
                },
                CopyState::Copying => SessionState::Relaying {
                    forward,
                    backward: CopyState::Finished(bytes),
                },
            },
            _ => self,
        }
    }

    /// What the end of a copy asks for: a half close while the other
    /// direction still copies, the closing of both sockets otherwise.
    pub open spec fn action_on(self, end: CopyEnd) -> SessionAction {
        match self.after(end) {
            SessionState::Relaying { .. } => SessionAction::HalfClose(end.direction()),
            _ => SessionAction::CloseBoth,
        }
    }

    /// The result of a session that has ended: the bytes carried forward and
    /// backward, or the direction that failed.
    pub open spec fn outcome(self) -> Option<Result<(u64, u64), Direction>> {
        match self {
            SessionState::Relaying { .. } => None,
            SessionState::Completed { uploaded, downloaded } => Some(Ok((uploaded, downloaded))),
            SessionState::Failed(direction) => Some(Err(direction)),
        }
    }

    /// Starts a session.
    pub fn start() -> (state: SessionState)
        ensures
            state == Self::initial(),
            state.well_formed(),
    {
        SessionState::Relaying { forward: CopyState::Copying, backward: CopyState::Copying }
    }

    /// Takes the end of a copy; gives the next state and what to do with the
    /// sockets.
    pub fn on_copy_end(self, end: CopyEnd) -> (r: (SessionState, SessionAction))
        requires
            self.well_formed(),
            self.accepts(end),
        ensures
            r.0 == self.after(end),
            r.1 == self.action_on(end),
            r.0.well_formed(),
    {
        match self {
            SessionState::Relaying { forward, backward } => match end {
                CopyEnd::Failed { direction } => (
                    SessionState::Failed(direction),
                    SessionAction::CloseBoth,
                ),
                CopyEnd::Eof { direction: Direction::Forward, bytes } => match backward {
                    CopyState::Finished(downloaded) => (
                        SessionState::Completed { uploaded: bytes, downloaded },
                        SessionAction::CloseBoth,
                    ),
                    CopyState::Copying => (
                        SessionState::Relaying { forward: CopyState::Finished(bytes), backward },
                        SessionAction::HalfClose(Direction::Forward),
                    ),
                },
                CopyEnd::Eof { direction: Direction::Backward, bytes } => match forward {
                    CopyState::Finished(uploaded) => (
                        SessionState::Completed { uploaded, downloaded: bytes },
                        SessionAction::CloseBoth,
                    ),
                    CopyState::Copying => (
                        SessionState::Relaying { forward, backward: CopyState::Finished(bytes) },
                        SessionAction::HalfClose(Direction::Backward),
                    ),
                },
            },
            _ => (self, SessionAction::CloseBoth),
        }
    }

    /// The result of the session, once it has ended.
    pub fn result(&self) -> (r: Option<Result<(u64, u64), Direction>>)
        ensures
            r == self.outcome(),
    {
        match self {
            SessionState::Relaying { .. } => None,
            SessionState::Completed { uploaded, downloaded } => Some(Ok((*uploaded, *downloaded))),
            SessionState::Failed(direction) => Some(Err(*direction)),
        }
    }
}

/// A session whose two directions both reach their end completes without an
/// error and reports both byte counts, whichever direction ends first. The
/// first end half-closes, the second closes both sockets.
pub proof fn lemma_clean_end(uploaded: u64, downloaded: u64)
    ensures
        ({
            let forward = CopyEnd::Eof { direction: Direction::Forward, bytes: uploaded };
            let backward = CopyEnd::Eof { direction: Direction::Backward, bytes: downloaded };
            let start = SessionState::initial();
            &&& start.after(forward).after(backward).outcome() == Some(
                Ok::<(u64, u64), Direction>((uploaded, downloaded)),
            )
            &&& start.after(backward).after(forward).outcome() == Some(
                Ok::<(u64, u64), Direction>((uploaded, downloaded)),
            )
            &&& start.action_on(forward) == SessionAction::HalfClose(Direction::Forward)
            &&& start.after(forward).action_on(backward) == SessionAction::CloseBoth
            &&& start.action_on(backward) == SessionAction::HalfClose(Direction::Backward)
            &&& start.after(backward).action_on(forward) == SessionAction::CloseBoth
        }),
{
}

/// A copy that fails ends the session with that failure and closes both
/// sockets, also when the other direction has finished cleanly before.
pub proof fn lemma_failure_ends_session(state: SessionState, direction: Direction)
    requires
        state.accepts(CopyEnd::Failed { direction }),
    ensures
        state.after(CopyEnd::Failed { direction }).outcome() == Some(
            Err::<(u64, u64), Direction>(direction),
        ),
        state.action_on(CopyEnd::Failed { direction }) == SessionAction::CloseBoth,
{
}

/// The backward copy failing after the forward copy has finished cleanly:
/// the session reports the failure and the remaining socket is closed.
pub proof fn lemma_failure_after_half_close(uploaded: u64)
    ensures
        ({
            let half = SessionState::initial().after(
                CopyEnd::Eof { direction: Direction::Forward, bytes: uploaded },
            );
            let failure = CopyEnd::Failed { direction: Direction::Backward };
            &&& half.accepts(failure)
            &&& half.after(failure).outcome() == Some(
                Err::<(u64, u64), Direction>(Direction::Backward),
            )
            &&& half.action_on(failure) == SessionAction::CloseBoth
        }),
{
}

/// A session completes only with the end of stream of the second direction:
/// while one direction copies, the other's end leaves the session relaying.
pub proof fn lemma_completes_with_second_end(state: SessionState, end: CopyEnd)
    requires
        state.well_formed(),
        state.accepts(end),
    ensures
        state.after(end).well_formed(),
        state.after(end) is Completed <==> end is Eof && (state.copy(Direction::Forward)
            matches Some(CopyState::Finished(_)) || state.copy(Direction::Backward) matches Some(
            CopyState::Finished(_),
        )),
        state.after(end) is Relaying <==> end is Eof && state == SessionState::initial(),
{
}

} // verus!
