//! The outbound queues and disconnect signals of WebSocket connections.
use crate::receipt::send_replace;
use crate::receipt::try_send;
use crate::receipt::Delivery;
use crate::receipt::History;
use crate::receipt::Signal;
use tokio::sync::mpsc;
use tokio::sync::watch;
use vstd::prelude::*;

verus! {

/// The sending half of a bounded queue of the `tokio` crate.
#[verifier::external_type_specification]
#[verifier::external_body]
#[verifier::reject_recursive_types(T)]
pub struct ExMpscSender<T>(mpsc::Sender<T>);

/// The sending half of a watched value of the `tokio` crate.
#[verifier::external_type_specification]
#[verifier::external_body]
#[verifier::reject_recursive_types(T)]
pub struct ExWatchSender<T>(watch::Sender<T>);

/// What is sent to a client.
#[derive(Clone, Debug, PartialEq, Eq)]
pub enum Frame {
    /// A text message.
    Text(String),
    /// A heartbeat.
    Ping,
    /// The answer to a heartbeat of the client, with the bytes of that.
    Pong(Vec<u8>),
}

/// What a frame holds.
#[verifier::ext_equal]
pub enum FrameView {
    Text(Seq<char>),
    Ping,
    Pong(Seq<u8>),
}

impl View for Frame {
    type V = FrameView;

    open spec fn view(&self) -> FrameView {
        match self {
            Frame::Text(text) => FrameView::Text(text@),
            Frame::Ping => FrameView::Ping,
            Frame::Pong(bytes) => FrameView::Pong(bytes@),
        }
    }
}

/// The queue that a handle leads to, as its number in the order in which
/// queues were made.
pub uninterp spec fn queue_of(sender: mpsc::Sender<Frame>) -> nat;

/// The signal that a handle leads to, as its number in the order in which
/// signals were made.
pub uninterp spec fn signal_of(sender: watch::Sender<bool>) -> nat;

/// What became of a frame that was offered to a queue.
#[derive(Clone, Copy, Debug, PartialEq, Eq, Structural)]
pub enum SendOutcome {
    /// It stands in the queue.
    Sent,
    /// The queue was full, and it was dropped.
    Full,
    /// The receiving half is gone.
    Closed,
}

impl SendOutcome {
    /// The queue still has a receiver: a full queue only costs a connection
    /// the frame, a closed one costs it its place.
    pub open spec fn keeps(self) -> bool {
        self != SendOutcome::Closed
    }

    /// Whether the queue still has a receiver.
    pub fn keeps_connection(self) -> (r: bool)
        ensures
            r == self.keeps(),
    {
        match self {
            SendOutcome::Sent => true,
            SendOutcome::Full => true,
            SendOutcome::Closed => false,
        }
    }
}

/// Calls `Clone::clone` of the queue. The contract claims that the new handle
/// leads to the same queue.
#[verifier::external_body]
pub(crate) fn clone_sender(sender: &mpsc::Sender<Frame>) -> (r: mpsc::Sender<Frame>)
    ensures
        queue_of(r) == queue_of(*sender),
{
    sender.clone()
}

/// Calls `Clone::clone` of the signal. The contract claims that the new handle
/// leads to the same signal.
#[verifier::external_body]
pub(crate) fn clone_signal(sender: &watch::Sender<bool>) -> (r: watch::Sender<bool>)
    ensures
        signal_of(r) == signal_of(*sender),
{
    sender.clone()
}

/// Calls `mpsc::Sender::same_channel`. The contract claims that the outcome
/// says whether the two handles lead to one queue.
#[verifier::external_body]
pub(crate) fn same_queue(a: &mpsc::Sender<Frame>, b: &mpsc::Sender<Frame>) -> (r: bool)
    ensures
        r == (queue_of(*a) == queue_of(*b)),
{
    a.same_channel(b)
}

/// Offers a frame to a queue, as the next one in a history.
pub fn enqueue(history: &mut History, sender: &mpsc::Sender<Frame>, frame: Frame) -> (r: Delivery)
    ensures
        r.to() == queue_of(*sender),
        r.content() == frame@,
        final(history)@ == old(history)@.push(r.offer()),
{
    try_send(history, sender, frame)
}

/// Tells a connection to close, whatever is in its queue.
pub fn request_disconnect(history: &mut History, sender: &watch::Sender<bool>) -> (r: Signal)
    ensures
        r.to() == signal_of(*sender),
        r.content() == true,
        final(history)@ == old(history)@.push(r.offer()),
{
    send_replace(history, sender, true)
}

} // verus!
