//! The upstream connector: which host to dial, when to fall back to a direct
//! dial, and how the CONNECT exchange leads to a ready connection.
//!
//! The connector performs no I/O. Its state names the one operation that is
//! due; the caller performs it and reports how it ended.

use vstd::prelude::*;
use crate::handshake::{run, HandshakeError, HandshakeState};

verus! {

/// Why no upstream connection came about.
#[derive(Clone, Copy, Debug, PartialEq, Eq, Structural)]
pub enum ConnectError {
    /// The remote host could not be dialed.
    DialFailure,
    /// The CONNECT request could not be written in full.
    RequestWriteFailure,
    /// The proxy's reply ended or failed before its blank line.
    ReplyReadFailure,
    /// The proxy's reply was refused.
    Handshake(HandshakeError),
}

/// The operation that the connector waits for.
#[derive(Clone, Copy, Debug, PartialEq, Eq, Structural)]
pub enum ConnectorAction {
    /// Dial the proxy.
    DialProxy,
    /// Dial the tunnel's remote host.
    DialRemote,
    /// Write the CONNECT request, whole.
    SendRequest,
    /// Read exactly this many bytes of the proxy's reply.
    ReadReply(usize),
    /// Hand the connection over: it carries payload from here on.
    Finish,
    /// Give the connection attempt up.
    Abort,
}

/// How the operation that was due ended.
#[derive(Clone, Copy, Debug)]
pub enum ConnectorEvent<'a> {
    /// The dial gave a connection.
    Connected,
    /// The dial failed.
    DialFailed,
    /// The request was written in full.
    RequestSent,
    /// Writing the request failed.
    RequestFailed,
    /// These bytes of the reply were read.
    ReplyBytes(&'a [u8]),
    /// Reading the reply failed.
    ReplyFailed,
}

/// An event as a value: the bytes that were read stand in for the buffer.
pub enum EventView {
    Connected,
    DialFailed,
    RequestSent,
    RequestFailed,
    ReplyBytes(Seq<u8>),
    ReplyFailed,
}

impl<'a> View for ConnectorEvent<'a> {
    type V = EventView;

    open spec fn view(&self) -> EventView {
        match *self {
            ConnectorEvent::Connected => EventView::Connected,
            ConnectorEvent::DialFailed => EventView::DialFailed,
            ConnectorEvent::RequestSent => EventView::RequestSent,
            ConnectorEvent::RequestFailed => EventView::RequestFailed,
            ConnectorEvent::ReplyBytes(bytes) => EventView::ReplyBytes(bytes@),
            ConnectorEvent::ReplyFailed => EventView::ReplyFailed,
        }
    }
}

/// Where a connection attempt stands.
#[derive(Clone, Copy, Debug, PartialEq, Eq, Structural)]
pub enum ConnectorState {
    /// The proxy is being dialed.
    DialingProxy,
    /// The remote host is being dialed, after a failed proxy dial if
    /// `fallback`.
    DialingRemote { fallback: bool },
    /// The proxy is connected and the request is being written.
    SendingRequest,
    /// The request was sent and the reply is being read.
    AwaitingReply(HandshakeState),
    /// The connection is ready, through the proxy if `proxied`.
    Ready { proxied: bool },
    /// The attempt failed.
    Failed(ConnectError),
}

impl ConnectorState {
    /// A reply that is awaited is never complete already.
    pub open spec fn well_formed(self) -> bool {
        self matches ConnectorState::AwaitingReply(reply) ==> reply != HandshakeState::Done
    }

    /// True when the attempt has ended, well or badly.
    pub open spec fn is_final(self) -> bool {
        self is Ready || self is Failed
    }

    /// The state in which an attempt starts: with a proxy configured the
    /// proxy is dialed, without one the remote host.
    pub open spec fn initial(has_proxy: bool) -> ConnectorState {
        if has_proxy {
            ConnectorState::DialingProxy
        } else {
            ConnectorState::DialingRemote { fallback: false }
        }
    }

    /// The operation that is due in this state.
    pub open spec fn pending_action(self) -> ConnectorAction {
        match self {
            ConnectorState::DialingProxy => ConnectorAction::DialProxy,
            ConnectorState::DialingRemote { .. } => ConnectorAction::DialRemote,
            ConnectorState::SendingRequest => ConnectorAction::SendRequest,
            ConnectorState::AwaitingReply(reply) => ConnectorAction::ReadReply(
                reply.pending_bytes() as usize,
            ),
            ConnectorState::Ready { .. } => ConnectorAction::Finish,
            ConnectorState::Failed(_) => ConnectorAction::Abort,
        }
    }

    /// True when `event` reports the end of the operation that is due.
    pub open spec fn accepts(self, event: EventView) -> bool {
        match self {
            ConnectorState::DialingProxy | ConnectorState::DialingRemote { .. } => event
                is Connected || event is DialFailed,
            ConnectorState::SendingRequest => event is RequestSent || event is RequestFailed,
            ConnectorState::AwaitingReply(reply) => match event {
                EventView::ReplyBytes(bytes) => bytes.len() == reply.pending_bytes(),
                EventView::ReplyFailed => true,
                _ => false,
            },
            ConnectorState::Ready { .. } | ConnectorState::Failed(_) => false,
        }
    }

    /// The state after `event`.
    ///
    /// A failed proxy dial leads to a direct dial; every other failure ends
    /// the attempt. A refused reply is final: the remote host is not dialed
    /// once the proxy was connected.
    pub open spec fn after(self, event: EventView) -> ConnectorState {
        match self {
            ConnectorState::DialingProxy => if event is Connected {
                ConnectorState::SendingRequest
            } else {
                ConnectorState::DialingRemote { fallback: true }
            },
            ConnectorState::DialingRemote { .. } => if event is Connected {
                ConnectorState::Ready { proxied: false }
            } else {
                ConnectorState::Failed(ConnectError::DialFailure)
            },
            ConnectorState::SendingRequest => if event is RequestSent {
                ConnectorState::AwaitingReply(HandshakeState::Started)
            } else {
                ConnectorState::Failed(ConnectError::RequestWriteFailure)
            },
            ConnectorState::AwaitingReply(reply) => match event {
                EventView::ReplyBytes(bytes) => match reply.after(bytes) {
                    Ok(HandshakeState::Done) => ConnectorState::Ready { proxied: true },
                    Ok(next) => ConnectorState::AwaitingReply(next),
                    Err(e) => ConnectorState::Failed(ConnectError::Handshake(e)),
                },
                _ => ConnectorState::Failed(ConnectError::ReplyReadFailure),
            },
            ConnectorState::Ready { .. } | ConnectorState::Failed(_) => self,
        }
    }

    /// Starts a connection attempt.
    pub fn start(has_proxy: bool) -> (state: ConnectorState)
        ensures
            state == Self::initial(has_proxy),
            state.well_formed(),
    {
        if has_proxy {
            ConnectorState::DialingProxy
        } else {
            ConnectorState::DialingRemote { fallback: false }
        }
    }

    /// Names the operation that is due.
    pub fn action(&self) -> (action: ConnectorAction)
        ensures
            action == self.pending_action(),
    {
        match self {
            ConnectorState::DialingProxy => ConnectorAction::DialProxy,
            ConnectorState::DialingRemote { .. } => ConnectorAction::DialRemote,
            ConnectorState::SendingRequest => ConnectorAction::SendRequest,
            ConnectorState::AwaitingReply(reply) => ConnectorAction::ReadReply(reply.pending()),
            ConnectorState::Ready { .. } => ConnectorAction::Finish,
            ConnectorState::Failed(_) => ConnectorAction::Abort,
        }
    }

    /// Takes the end of the operation that was due and gives the next state.
    pub fn advance(self, event: ConnectorEvent) -> (next: ConnectorState)
        requires
            self.well_formed(),
            self.accepts(event@),
        ensures
            next == self.after(event@),
            next.well_formed(),
    {
        match self {
            ConnectorState::DialingProxy => match event {
                ConnectorEvent::Connected => ConnectorState::SendingRequest,
                _ => ConnectorState::DialingRemote { fallback: true },
            },
            ConnectorState::DialingRemote { .. } => match event {
                ConnectorEvent::Connected => ConnectorState::Ready { proxied: false },
                _ => ConnectorState::Failed(ConnectError::DialFailure),
            },
            ConnectorState::SendingRequest => match event {
                ConnectorEvent::RequestSent => ConnectorState::AwaitingReply(
                    HandshakeState::Started,
                ),
                _ => ConnectorState::Failed(ConnectError::RequestWriteFailure),
            },
            ConnectorState::AwaitingReply(reply) => match event {
                ConnectorEvent::ReplyBytes(bytes) => match reply.feed(bytes) {
                    Ok(HandshakeState::Done) => ConnectorState::Ready { proxied: true },
                    Ok(next) => ConnectorState::AwaitingReply(next),
                    Err(e) => ConnectorState::Failed(ConnectError::Handshake(e)),
                },
                _ => ConnectorState::Failed(ConnectError::ReplyReadFailure),
            },
            ConnectorState::Ready { .. } | ConnectorState::Failed(_) => self,
        }
    }
}

/// When the proxy cannot be dialed, the remote host is dialed next.
pub proof fn lemma_fallback_after_proxy_failure()
    ensures
        ConnectorState::initial(true).pending_action() == ConnectorAction::DialProxy,
        ConnectorState::initial(true).after(EventView::DialFailed).pending_action()
            == ConnectorAction::DialRemote,
{
}

/// No event leads to a dial of the proxy: it is dialed once, at the start, and
/// never again.
pub proof fn lemma_proxy_dialed_once(state: ConnectorState, event: EventView)
    requires
        state.accepts(event),
    ensures
        state.after(event).pending_action() != ConnectorAction::DialProxy,
{
}

/// The error of the reply, where `event` brings bytes that make the awaited
/// reply fail.
pub open spec fn refusal(state: ConnectorState, event: EventView) -> Option<HandshakeError> {
    match (state, event) {
        (ConnectorState::AwaitingReply(reply), EventView::ReplyBytes(bytes)) => match reply.after(
            bytes,
        ) {
            Err(e) => Some(e),
            Ok(_) => None,
        },
        _ => None,
    }
}

/// True where `event` brings the bytes that complete the awaited reply.
pub open spec fn completes_reply(state: ConnectorState, event: EventView) -> bool {
    match (state, event) {
        (ConnectorState::AwaitingReply(reply), EventView::ReplyBytes(bytes)) => reply.after(
            bytes,
        ) == Ok::<HandshakeState, HandshakeError>(HandshakeState::Done),
        _ => false,
    }
}

/// Once the proxy was connected nothing is dialed any more: a request that
/// cannot be written and a reply that is refused end the attempt.
pub proof fn lemma_no_dial_after_proxy_connected(state: ConnectorState, event: EventView)
    requires
        state is SendingRequest || state is AwaitingReply,
        state.accepts(event),
    ensures
        state.after(event).pending_action() != ConnectorAction::DialProxy,
        state.after(event).pending_action() != ConnectorAction::DialRemote,
        event is RequestFailed ==> state.after(event) == ConnectorState::Failed(
            ConnectError::RequestWriteFailure,
        ),
        refusal(state, event) matches Some(e) ==> state.after(event) == ConnectorState::Failed(
            ConnectError::Handshake(e),
        ),
{
}

/// A direct connection is ready as soon as it is dialed: there is no reply to
/// read. Without a proxy a failed dial ends the attempt.
pub proof fn lemma_direct_dial()
    ensures
        ConnectorState::initial(false).pending_action() == ConnectorAction::DialRemote,
        ConnectorState::initial(false).after(EventView::Connected) == (ConnectorState::Ready {
            proxied: false,
        }),
        ConnectorState::initial(false).after(EventView::DialFailed) == ConnectorState::Failed(
            ConnectError::DialFailure,
        ),
{
}

/// A reply is read only on a proxied connection, and a connection is ready
/// through the proxy exactly when the blank line of the reply was read.
pub proof fn lemma_ready_when_reply_done(state: ConnectorState, event: EventView)
    requires
        state.well_formed(),
        state.accepts(event),
    ensures
        state.after(event).well_formed(),
        state.after(event) == (ConnectorState::Ready { proxied: true }) <==> completes_reply(
            state,
            event,
        ),
{
}

/// A reply is awaited only on a connection to the proxy: after the request
/// was sent, or while the reply is being read.
pub proof fn lemma_reply_only_through_proxy(state: ConnectorState, event: EventView)
    requires
        state.accepts(event),
        state.after(event) is AwaitingReply,
    ensures
        state is SendingRequest || state is AwaitingReply,
{
}

/// An attempt that has ended takes no further event: once the connection is
/// ready nothing more is read from it on behalf of the handshake.
pub proof fn lemma_final_is_final(state: ConnectorState, event: EventView)
    requires
        state.is_final(),
    ensures
        !state.accepts(event),
        state.pending_action() == ConnectorAction::Finish || state.pending_action()
            == ConnectorAction::Abort,
{
}

/// What a connection attempt meets: which dials succeed, whether the request
/// can be written, and the bytes that the proxy sends before it stops.
pub struct Network {
    pub proxy_reachable: bool,
    pub remote_reachable: bool,
    pub request_written: bool,
    pub reply: Seq<u8>,
}

/// How an attempt ends in a given network.
///
/// Without a proxy, or when the proxy cannot be dialed, the attempt stands on
/// the dial of the remote host alone. With the proxy connected it stands on
/// the request and on the reply: a reply that ends before its blank line is a
/// read failure, and the remote host is not dialed.
pub open spec fn outcome(has_proxy: bool, net: Network) -> ConnectorState {
    if has_proxy && net.proxy_reachable {
        if !net.request_written {
            ConnectorState::Failed(ConnectError::RequestWriteFailure)
        } else {
            match run(HandshakeState::Started, net.reply).0 {
                Ok(HandshakeState::Done) => ConnectorState::Ready { proxied: true },
                Ok(_) => ConnectorState::Failed(ConnectError::ReplyReadFailure),
                Err(e) => ConnectorState::Failed(ConnectError::Handshake(e)),
            }
        }
    } else if net.remote_reachable {
        ConnectorState::Ready { proxied: false }
    } else {
        ConnectorState::Failed(ConnectError::DialFailure)
    }
}

/// How far a state is from the reading of the reply.
pub open spec fn rank(state: ConnectorState) -> nat {
    match state {
        ConnectorState::DialingProxy => 3,
        ConnectorState::DialingRemote { .. } | ConnectorState::SendingRequest => 2,
        ConnectorState::AwaitingReply(_) => 1,
        ConnectorState::Ready { .. } | ConnectorState::Failed(_) => 0,
    }
}

/// The state in which an attempt comes to rest when each operation that is
/// due ends as `net` has it; `unread` is what is left of the proxy's reply.
pub open spec fn settle(state: ConnectorState, net: Network, unread: Seq<u8>) -> ConnectorState
    decreases unread.len(), rank(state),
{
    match state {
        ConnectorState::DialingProxy => settle(
            state.after(
                if net.proxy_reachable {
                    EventView::Connected
                } else {
                    EventView::DialFailed
                },
            ),
            net,
            unread,
        ),
        ConnectorState::DialingRemote { .. } => settle(
            state.after(
                if net.remote_reachable {
                    EventView::Connected
                } else {
                    EventView::DialFailed
                },
            ),
            net,
            unread,
        ),
        ConnectorState::SendingRequest => settle(
            state.after(
                if net.request_written {
                    EventView::RequestSent
                } else {
                    EventView::RequestFailed
                },
            ),
            net,
            unread,
        ),
        ConnectorState::AwaitingReply(reply) => {
            let need = reply.pending_bytes() as int;
            if need == 0 || unread.len() < need {
                state.after(EventView::ReplyFailed)
            } else {
                settle(
                    state.after(EventView::ReplyBytes(unread.take(need))),
                    net,
                    unread.skip(need),
                )
            }
        },
        ConnectorState::Ready { .. } | ConnectorState::Failed(_) => state,
    }
}

/// While a reply is awaited, the attempt ends as the reading of the rest of
/// the reply ends.
proof fn lemma_settle_reply(reply: HandshakeState, net: Network, unread: Seq<u8>)
    requires
        reply != HandshakeState::Done,
    ensures
        settle(ConnectorState::AwaitingReply(reply), net, unread) == match run(reply, unread).0 {
            Ok(HandshakeState::Done) => ConnectorState::Ready { proxied: true },
            Ok(_) => ConnectorState::Failed(ConnectError::ReplyReadFailure),
            Err(e) => ConnectorState::Failed(ConnectError::Handshake(e)),
        },
    decreases unread.len(),
{
    reveal_with_fuel(settle, 2);
    reveal_with_fuel(run, 2);
    let need = reply.pending_bytes() as int;
    if unread.len() >= need {
        match reply.after(unread.take(need)) {
            Ok(next) => {
                if next != HandshakeState::Done {
                    lemma_settle_reply(next, net, unread.skip(need));
                }
            },
            Err(_) => {},
        }
    }
}

/// Every attempt ends as `outcome` says: step by step the connector does what
/// the rule of proxy first, direct dial as the one fallback, and no fallback
/// after the proxy was connected asks for.
pub proof fn lemma_attempt_outcome(has_proxy: bool, net: Network)
    ensures
        settle(ConnectorState::initial(has_proxy), net, net.reply) == outcome(has_proxy, net),
        outcome(has_proxy, net).is_final(),
{
    reveal_with_fuel(settle, 4);
    if has_proxy && net.proxy_reachable && net.request_written {
        lemma_settle_reply(HandshakeState::Started, net, net.reply);
    }
}

} // verus!
