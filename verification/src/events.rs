//! The decisions of the streaming loops.
//!
//! The read loop of an adapter and the forward loop of a subscriber live
//! with the transport, outside the library; each hands every event to one
//! of the decision functions here and performs the action it returns.

use vstd::prelude::*;

verus! {

/// A frame read from a venue connection, classified in the transport's
/// order: text first, then ping, pong, close, empty; anything else is a
/// binary frame.
#[derive(Clone, Debug, PartialEq)]
pub enum Frame {
    Text(String),
    Ping,
    Pong,
    Close,
    Empty,
    Binary,
}

/// What the adapter does with one frame.
#[derive(Copy, Clone, Debug, PartialEq, Eq, Structural)]
pub enum FrameAction {
    /// Hand the text to the venue decoder and keep reading; a decode error
    /// is logged and reading continues.
    DecodePayload,
    /// Run the ping hook and keep reading; the transport answers pings
    /// itself.
    NotifyPing,
    /// Run the pong hook and keep reading.
    NotifyPong,
    /// Run the close hook and leave the read loop; the run loop
    /// reconnects.
    EndOfStream,
    /// Ignore an empty frame.
    Skip,
    /// A binary frame is unexpected: fatal for this connection attempt.
    Fatal,
}

/// The action of the frame-dispatch table.
pub open spec fn spec_dispatch_frame(frame: Frame) -> FrameAction {
    match frame {
        Frame::Text(_) => FrameAction::DecodePayload,
        Frame::Ping => FrameAction::NotifyPing,
        Frame::Pong => FrameAction::NotifyPong,
        Frame::Close => FrameAction::EndOfStream,
        Frame::Empty => FrameAction::Skip,
        Frame::Binary => FrameAction::Fatal,
    }
}

/// Classifies one frame: each incoming frame is handled exactly once.
pub fn dispatch_frame(frame: &Frame) -> (r: FrameAction)
    ensures
        r == spec_dispatch_frame(*frame),
{
    match frame {
        Frame::Text(_) => FrameAction::DecodePayload,
        Frame::Ping => FrameAction::NotifyPing,
        Frame::Pong => FrameAction::NotifyPong,
        Frame::Close => FrameAction::EndOfStream,
        Frame::Empty => FrameAction::Skip,
        Frame::Binary => FrameAction::Fatal,
    }
}

/// What the summary bus reported to one subscriber asking for the next
/// summary.
#[derive(Copy, Clone, Debug, PartialEq, Eq, Structural)]
pub enum BusEvent {
    /// A summary arrived.
    Message,
    /// The subscriber lagged: this many summaries were dropped for it.
    Lagged(u64),
    /// The producer is gone.
    Closed,
}

/// What the subscriber task does next.
#[derive(Copy, Clone, Debug, PartialEq, Eq, Structural)]
pub enum SubscriberAction {
    /// Forward the summary to the client.
    Forward,
    /// Skip the missed summaries silently and keep the subscription.
    Skip,
    /// The stream is over: drop the receiver and end the task.
    End,
}

/// The subscriber's decision: forward every summary, survive lagging, end
/// when the bus closes.
pub fn on_bus_event(event: &BusEvent) -> (r: SubscriberAction)
    ensures
        event is Message ==> r == SubscriberAction::Forward,
        event is Lagged ==> r == SubscriberAction::Skip,
        event is Closed ==> r == SubscriberAction::End,
{
    match event {
        BusEvent::Message => SubscriberAction::Forward,
        BusEvent::Lagged(_) => SubscriberAction::Skip,
        BusEvent::Closed => SubscriberAction::End,
    }
}

} // verus!
