//! The writer of a connection: it writes what comes out of the channel to the client.
use crate::channel::Frame;
use vstd::prelude::*;

verus! {

/// What the writer of a connection sees.
pub enum SenderEvent {
    /// A frame for the client.
    Frame(Frame),
    /// The last frame has been written to the client.
    Written,
    /// The last frame could not be written.
    WriteFailed,
    /// No more frames will come.
    ChannelClosed,
}

/// What the writer of a connection does next.
pub enum SenderAction {
    /// Write this frame to the client.
    Write(Frame),
    /// Wait for the next frame.
    Wait,
    /// Stop writing.
    Stop,
}

/// What the writer does once it has seen `event`.
pub open spec fn next_action(event: SenderEvent) -> SenderAction {
    match event {
        SenderEvent::Frame(frame) => SenderAction::Write(frame),
        SenderEvent::Written => SenderAction::Wait,
        SenderEvent::WriteFailed | SenderEvent::ChannelClosed => SenderAction::Stop,
    }
}

/// Whether the writer stops at this.
pub open spec fn ends_writing(event: SenderEvent) -> bool {
    event is WriteFailed || event is ChannelClosed
}

/// Decides what the writer of a connection does: it writes frame after frame until one cannot be
/// written or no more come.
pub fn websocket_sender_step(event: SenderEvent) -> (action: SenderAction)
    ensures
        action == next_action(event),
        action is Stop <==> ends_writing(event),
{
    match event {
        SenderEvent::Frame(frame) => SenderAction::Write(frame),
        SenderEvent::Written => SenderAction::Wait,
        SenderEvent::WriteFailed => SenderAction::Stop,
        SenderEvent::ChannelClosed => SenderAction::Stop,
    }
}

} // verus!
