//! Bounded outgoing channels, one per connection.
use tokio::sync::mpsc::error::TrySendError;
use tokio::sync::mpsc::{Receiver, Sender};
use vstd::prelude::*;

verus! {

/// A frame on its way to a client.
#[derive(Debug)]
pub enum Frame {
    Text(String),
    Binary(Vec<u8>),
}

/// What a frame carries.
pub enum FrameView {
    Text(Seq<char>),
    Binary(Seq<u8>),
}

impl View for Frame {
    type V = FrameView;

    open spec fn view(&self) -> FrameView {
        match self {
            Frame::Text(text) => FrameView::Text(text@),
            Frame::Binary(data) => FrameView::Binary(data@),
        }
    }
}

impl Clone for Frame {
    /// A frame that carries the same.
    fn clone(&self) -> (copy: Frame)
        ensures
            copy@ == self@,
    {
        match self {
            Frame::Text(text) => Frame::Text(text.clone()),
            Frame::Binary(data) => {
                let copy = data.clone();
                assert(copy@ =~= data@);
                Frame::Binary(copy)
            },
        }
    }
}

/// `tokio::sync::mpsc::Sender`, the sending end of a bounded channel.
#[verifier::external_type_specification]
#[verifier::external_body]
#[verifier::reject_recursive_types(T)]
pub struct ExSender<T>(Sender<T>);

/// `tokio::sync::mpsc::Receiver`, the receiving end of a bounded channel.
#[verifier::external_type_specification]
#[verifier::external_body]
#[verifier::reject_recursive_types(T)]
pub struct ExReceiver<T>(Receiver<T>);

/// The frames that a channel has accepted through this sending end, oldest first. How many of them
/// have been received since is not part of it.
pub uninterp spec fn accepted_frames(tx: Sender<Frame>) -> Seq<FrameView>;

/// How many frames a channel was made to buffer.
pub uninterp spec fn buffer_limit(tx: Sender<Frame>) -> nat;

/// Whether the frames that go in at one end come out at the other.
pub uninterp spec fn feeds(tx: Sender<Frame>, rx: Receiver<Frame>) -> bool;

/// Whether no other sending end has ever led into the same channel: this one came with the channel
/// and was never cloned.
pub uninterp spec fn sole(tx: Sender<Frame>) -> bool;

/// What became of a frame that was handed to a channel.
#[derive(Debug, Clone, Copy, PartialEq, Eq, Structural)]
pub enum SendOutcome {
    /// The channel accepted it.
    Sent,
    /// The channel was full.
    Full,
    /// No one receives from the channel any more.
    Closed,
}

/// `tokio::sync::mpsc::channel`: the only two ends of a new channel that buffers up to `buffer`
/// frames. It panics on nought and on more than an eighth of the numbers that `usize` can hold.
#[verifier::external_body]
pub(crate) fn frame_channel(buffer: usize) -> (pair: (Sender<Frame>, Receiver<Frame>))
    requires
        0 < buffer <= 0x1fff_ffff,
    ensures
        accepted_frames(pair.0) == Seq::<FrameView>::empty(),
        buffer_limit(pair.0) == buffer,
        feeds(pair.0, pair.1),
        sole(pair.0),
{
    tokio::sync::mpsc::channel(buffer)
}

/// `tokio::sync::mpsc::Sender::try_send`: the channel takes the frame at once or not at all. It is
/// full only when as many frames wait as it buffers; through the only sending end, that many have
/// been accepted by then. What else decides is what the receiving end has done, and is left open.
#[verifier::external_body]
pub(crate) fn try_send(tx: &mut Sender<Frame>, frame: Frame) -> (outcome: SendOutcome)
    ensures
        accepted_frames(*final(tx)) == if outcome is Sent {
            accepted_frames(*old(tx)).push(frame@)
        } else {
            accepted_frames(*old(tx))
        },
        buffer_limit(*final(tx)) == buffer_limit(*old(tx)),
        forall|rx: Receiver<Frame>| feeds(*final(tx), rx) == feeds(*old(tx), rx),
        sole(*final(tx)) == sole(*old(tx)),
        sole(*old(tx)) && outcome is Full ==> accepted_frames(*old(tx)).len() >= buffer_limit(
            *old(tx),
        ),
{
    match tx.try_send(frame) {
        Ok(()) => SendOutcome::Sent,
        Err(TrySendError::Full(_)) => SendOutcome::Full,
        Err(TrySendError::Closed(_)) => SendOutcome::Closed,
    }
}

/// `tokio::sync::mpsc::Sender::capacity`: how many more frames the channel has room for right now,
/// never more than it was made for. Of the frames accepted through the only sending end at most all
/// take up room; how many do depends on the receiving end.
#[verifier::external_body]
pub(crate) fn capacity(tx: &Sender<Frame>) -> (free: usize)
    ensures
        free <= buffer_limit(*tx),
        sole(*tx) ==> free + accepted_frames(*tx).len() >= buffer_limit(*tx),
{
    tx.capacity()
}

} // verus!
