//! The per-connection handshake state machine.
//!
//! One machine drives one accepted connection through
//! `AwaitingRequest -> Resolving -> Connecting -> {Relaying | Failed}`.
//! The surrounding program performs the I/O (reading bytes, the lookup, the
//! bounded connect, the writes) and reports each outcome as an event; the
//! machine decides the next state and the next action. Decode and resolve
//! failures close the connection with no response written, while connect
//! failures and the connect deadline answer with a status line first.
//!
//! The machine is generic in the address type `A` that the resolver yields:
//! the machine never reads an address, it only hands it on to the connect
//! step.

use vstd::prelude::*;
use crate::codec::{
    HttpCodec,
    TunnelResult,
    crlf_terminated,
    frame_ready,
    frame_target_bytes,
    response_bytes,
};
use vstd::utf8::{decode_utf8, valid_utf8};

verus! {

/// The states of one connection's handshake. `Relaying` and `Failed` are
/// terminal.
#[derive(Debug, Clone, Copy, PartialEq, Eq, Structural)]
pub enum TunnelState {
    /// Accumulating bytes until one CONNECT request decodes.
    AwaitingRequest,
    /// The decoded target is with the resolver.
    Resolving,
    /// The resolved address is being connected under the deadline.
    Connecting,
    /// The 200 response was ordered; the connection is a byte pipe now.
    Relaying,
    /// The connection is closed or closing; no further work.
    Failed,
}

/// What the surrounding program reports to the machine: the outcome of the
/// one suspension point the current state is waiting on.
#[derive(Debug, PartialEq)]
pub enum HandshakeEvent<A> {
    /// Bytes read from the client.
    Data(Vec<u8>),
    /// The resolver yielded an address for the target.
    Resolved(A),
    /// The lookup failed or yielded no address.
    ResolveFailed,
    /// The destination connection opened within the deadline.
    Connected,
    /// The destination refused or failed the connection within the deadline.
    ConnectRefused,
    /// The connect deadline elapsed first.
    ConnectTimedOut,
}

/// What the surrounding program must do next.
#[derive(Debug, PartialEq)]
pub enum HandshakeAction<A> {
    /// The request is still incomplete: keep reading from the client.
    NeedMoreData,
    /// Invoke the resolver capability with this decoded target.
    Resolve(String),
    /// Attempt the destination connection under the connect deadline.
    Connect(A),
    /// Write these response bytes to the client, then relay raw bytes in
    /// both directions until either side closes.
    RespondAndRelay(Vec<u8>),
    /// Write these response bytes to the client, then close.
    RespondAndClose(Vec<u8>),
    /// Close the connection with no response written.
    CloseSilently,
}

/// One connection's handshake: the current state and the accumulated
/// request bytes.
#[derive(Debug)]
pub struct Handshake {
    pub state: TunnelState,
    pub buffer: Vec<u8>,
}

impl Handshake {
    /// The events each state is waiting on; the terminal states accept
    /// none.
    pub open spec fn accepts<A>(self, event: HandshakeEvent<A>) -> bool {
        match event {
            HandshakeEvent::Data(_) => self.state is AwaitingRequest,
            HandshakeEvent::Resolved(_) => self.state is Resolving,
            HandshakeEvent::ResolveFailed => self.state is Resolving,
            HandshakeEvent::Connected => self.state is Connecting,
            HandshakeEvent::ConnectRefused => self.state is Connecting,
            HandshakeEvent::ConnectTimedOut => self.state is Connecting,
        }
    }

    /// True in the two states that end the handshake.
    pub open spec fn is_terminal(self) -> bool {
        self.state is Relaying || self.state is Failed
    }

    /// A handshake awaiting its request, with an empty buffer.
    pub fn new() -> (h: Handshake)
        ensures
            h.state is AwaitingRequest,
            h.buffer@ == Seq::<u8>::empty(),
    {
        Handshake { state: TunnelState::AwaitingRequest, buffer: Vec::new() }
    }

    /// Feed one event to the machine and learn what to do next.
    pub fn step<A>(&mut self, event: HandshakeEvent<A>) -> (action: HandshakeAction<A>)
        requires
            old(self).accepts(event),
        ensures
            step_spec(*old(self), event, *final(self), action),
    {
        match event {
            HandshakeEvent::Data(chunk) => {
                let mut chunk = chunk;
                self.buffer.append(&mut chunk);
                let codec = HttpCodec {  };
                match codec.decode(self.buffer.as_slice()) {
                    Ok(None) => HandshakeAction::NeedMoreData,
                    Ok(Some(target)) => {
                        self.state = TunnelState::Resolving;
                        HandshakeAction::Resolve(target)
                    },
                    Err(_) => {
                        self.state = TunnelState::Failed;
                        HandshakeAction::CloseSilently
                    },
                }
            },
            HandshakeEvent::Resolved(addr) => {
                self.state = TunnelState::Connecting;
                HandshakeAction::Connect(addr)
            },
            HandshakeEvent::ResolveFailed => {
                self.state = TunnelState::Failed;
                HandshakeAction::CloseSilently
            },
            HandshakeEvent::Connected => {
                self.state = TunnelState::Relaying;
                let codec = HttpCodec {  };
                let mut response: Vec<u8> = Vec::new();
                codec.encode(TunnelResult::Success, &mut response);
                assert(response@ =~= response_bytes(TunnelResult::Success));
                HandshakeAction::RespondAndRelay(response)
            },
            HandshakeEvent::ConnectRefused => {
                self.state = TunnelState::Failed;
                let codec = HttpCodec {  };
                let mut response: Vec<u8> = Vec::new();
                codec.encode(TunnelResult::BadRequest, &mut response);
                assert(response@ =~= response_bytes(TunnelResult::BadRequest));
                HandshakeAction::RespondAndClose(response)
            },
            HandshakeEvent::ConnectTimedOut => {
                self.state = TunnelState::Failed;
                let codec = HttpCodec {  };
                let mut response: Vec<u8> = Vec::new();
                codec.encode(TunnelResult::ConnectTimeout, &mut response);
                assert(response@ =~= response_bytes(TunnelResult::ConnectTimeout));
                HandshakeAction::RespondAndClose(response)
            },
        }
    }
}

/// The full transition relation of the machine: how the state after one
/// step and the ordered action follow from the state before it and the
/// event.
pub open spec fn step_spec<A>(
    pre: Handshake,
    event: HandshakeEvent<A>,
    post: Handshake,
    action: HandshakeAction<A>,
) -> bool {
    match event {
        HandshakeEvent::Data(chunk) => {
            let b = pre.buffer@ + chunk@;
            post.buffer@ == b && if !crlf_terminated(b) {
                post.state is AwaitingRequest && action is NeedMoreData
            } else if frame_ready(b) && valid_utf8(frame_target_bytes(b)) {
                post.state is Resolving && (action matches HandshakeAction::Resolve(t) && t@
                    == decode_utf8(frame_target_bytes(b)))
            } else {
                post.state is Failed && action is CloseSilently
            }
        },
        HandshakeEvent::Resolved(addr) => post.state is Connecting && post.buffer@ == pre.buffer@
            && action == HandshakeAction::Connect(addr),
        HandshakeEvent::ResolveFailed => post.state is Failed && post.buffer@ == pre.buffer@
            && action is CloseSilently,
        HandshakeEvent::Connected => post.state is Relaying && post.buffer@ == pre.buffer@ && (
        action matches HandshakeAction::RespondAndRelay(v) && v@ == response_bytes(
            TunnelResult::Success,
        )),
        HandshakeEvent::ConnectRefused => post.state is Failed && post.buffer@ == pre.buffer@ && (
        action matches HandshakeAction::RespondAndClose(v) && v@ == response_bytes(
            TunnelResult::BadRequest,
        )),
        HandshakeEvent::ConnectTimedOut => post.state is Failed && post.buffer@ == pre.buffer@ && (
        action matches HandshakeAction::RespondAndClose(v) && v@ == response_bytes(
            TunnelResult::ConnectTimeout,
        )),
    }
}

/// A response is ordered only by the step that resolves the connect
/// attempt, and that step leaves the machine terminal; a terminal machine
/// accepts no further event. Hence at most one response is written per
/// connection.
pub proof fn lemma_response_at_most_once<A>(
    pre: Handshake,
    event: HandshakeEvent<A>,
    post: Handshake,
    action: HandshakeAction<A>,
)
    requires
        pre.accepts(event),
        step_spec(pre, event, post, action),
    ensures
        (action is RespondAndRelay || action is RespondAndClose) ==> pre.state is Connecting
            && post.is_terminal(),
        post.is_terminal() ==> forall|e: HandshakeEvent<A>| !post.accepts(e),
{
}

/// The machine reaches `Relaying` only through a successful connect, and
/// the step that does so orders exactly the 200 status line to be written
/// before the relay begins.
pub proof fn lemma_relay_only_after_connect<A>(
    pre: Handshake,
    event: HandshakeEvent<A>,
    post: Handshake,
    action: HandshakeAction<A>,
)
    requires
        pre.accepts(event),
        step_spec(pre, event, post, action),
    ensures
        post.state is Relaying ==> event is Connected && (
        action matches HandshakeAction::RespondAndRelay(v) && v@ == response_bytes(
            TunnelResult::Success,
        )),
{
}

/// The resolver is invoked at most once per connection: a `Resolve` action
/// arises only from the step that decodes the one request and leaves
/// `AwaitingRequest`, and no later state accepts request bytes again.
pub proof fn lemma_resolve_at_most_once<A>(
    pre: Handshake,
    event: HandshakeEvent<A>,
    post: Handshake,
    action: HandshakeAction<A>,
)
    requires
        pre.accepts(event),
        step_spec(pre, event, post, action),
    ensures
        action is Resolve ==> pre.state is AwaitingRequest && post.state is Resolving,
        !(post.state is AwaitingRequest) ==> forall|c: Vec<u8>|
            !post.accepts(HandshakeEvent::<A>::Data(c)),
{
}


} // verus!
