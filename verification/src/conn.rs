//! Per-connection lifecycle and frame handling.
//!
//! A connection owns one subscription to one hub and runs two concurrent
//! flows: inbound (client frames to hub) and outbound (hub to client).
//! The decisions of both flows are pure functions here; the surrounding
//! runtime performs the transport work they prescribe. Either flow ending
//! moves the connection to `Closing`, and both flows are cancelled
//! together.

use vstd::prelude::*;

verus! {

/// Lifecycle of one connection.
#[derive(PartialEq, Eq, Structural, Clone, Copy, Debug)]
pub enum ConnState {
    Connecting,
    Subscribed,
    Active,
    Closing,
    Closed,
}

/// Lifecycle events a connection reacts to.
#[derive(PartialEq, Eq, Structural, Clone, Copy, Debug)]
pub enum ConnEvent {
    /// Upgrade completed and the hub was resolved and subscribed.
    Upgraded,
    /// Both flows are running.
    FlowsStarted,
    /// One of the two flows ended: close frame, read error or write error.
    FlowEnded,
    /// External shutdown was requested.
    ShutdownRequested,
    /// The other flow was stopped and transport and subscription released.
    TeardownComplete,
}

/// The connection state machine. Events that are not enabled in a state
/// leave the state unchanged.
pub open spec fn spec_conn_step(s: ConnState, e: ConnEvent) -> ConnState {
    match (s, e) {
        (ConnState::Connecting, ConnEvent::Upgraded) => ConnState::Subscribed,
        (ConnState::Subscribed, ConnEvent::FlowsStarted) => ConnState::Active,
        (ConnState::Subscribed, ConnEvent::FlowEnded) => ConnState::Closing,
        (ConnState::Subscribed, ConnEvent::ShutdownRequested) => ConnState::Closing,
        (ConnState::Active, ConnEvent::FlowEnded) => ConnState::Closing,
        (ConnState::Active, ConnEvent::ShutdownRequested) => ConnState::Closing,
        (ConnState::Closing, ConnEvent::TeardownComplete) => ConnState::Closed,
        _ => s,
    }
}

/// Advance the connection lifecycle by one event.
pub fn conn_step(s: ConnState, e: ConnEvent) -> (t: ConnState)
    ensures
        t == spec_conn_step(s, e),
{
    match (s, e) {
        (ConnState::Connecting, ConnEvent::Upgraded) => ConnState::Subscribed,
        (ConnState::Subscribed, ConnEvent::FlowsStarted) => ConnState::Active,
        (ConnState::Subscribed, ConnEvent::FlowEnded) => ConnState::Closing,
        (ConnState::Subscribed, ConnEvent::ShutdownRequested) => ConnState::Closing,
        (ConnState::Active, ConnEvent::FlowEnded) => ConnState::Closing,
        (ConnState::Active, ConnEvent::ShutdownRequested) => ConnState::Closing,
        (ConnState::Closing, ConnEvent::TeardownComplete) => ConnState::Closed,
        _ => s,
    }
}

/// Once a connection is closed, no event revives it.
pub proof fn lemma_closed_is_final(e: ConnEvent)
    ensures
        spec_conn_step(ConnState::Closed, e) == ConnState::Closed,
{
}

/// A frame read from the client transport, classified at ingress. The
/// relay never parses payload contents.
pub enum Frame {
    Binary(Vec<u8>),
    Text(Vec<u8>),
    Ping(Vec<u8>),
    Pong(Vec<u8>),
    Close,
}

/// What the inbound flow must do with one client frame.
pub enum InboundAction {
    /// Publish this payload to the connection's hub.
    Publish(Vec<u8>),
    /// Answer the client with a pong carrying this payload.
    ReplyPong(Vec<u8>),
    /// End this connection's participation; cancel both flows.
    Shutdown,
    /// Nothing to do.
    Ignore,
}

/// Decide the inbound flow's reaction to one client frame. Binary and
/// text payloads are published verbatim; a ping is answered with a pong
/// carrying the same payload and is never published; a close frame ends
/// the connection; a pong is transport keepalive and is dropped.
pub fn inbound_action(f: Frame) -> (a: InboundAction)
    ensures
        f matches Frame::Binary(d) ==> a matches InboundAction::Publish(p) && p@ == d@,
        f matches Frame::Text(d) ==> a matches InboundAction::Publish(p) && p@ == d@,
        f matches Frame::Ping(d) ==> a matches InboundAction::ReplyPong(p) && p@ == d@,
        f is Close ==> a is Shutdown,
        f is Pong ==> a is Ignore,
{
    match f {
        Frame::Binary(d) => InboundAction::Publish(d),
        Frame::Text(d) => InboundAction::Publish(d),
        Frame::Ping(d) => InboundAction::ReplyPong(d),
        Frame::Close => InboundAction::Shutdown,
        Frame::Pong(_) => InboundAction::Ignore,
    }
}

} // verus!
