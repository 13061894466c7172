//! Receipts for what was handed to connections, and the history of it.
//!
//! Receipts are made, and histories grow, only where something is handed out.
use crate::outbound::Frame;
use crate::outbound::SendOutcome;
use tokio::sync::mpsc;
use tokio::sync::watch;
use vstd::prelude::*;

verus! {

/// The receipt for a frame that was offered to a queue.
pub struct Delivery {
    queue: Ghost<nat>,
    frame: Frame,
    outcome: SendOutcome,
}

/// The receipt for a value that was set at a disconnect signal.
pub struct Signal {
    target: Ghost<nat>,
    value: bool,
}

impl Delivery {
    /// The queue.
    pub closed spec fn to(&self) -> nat {
        self.queue@
    }

    /// What was offered.
    pub closed spec fn content(&self) -> crate::outbound::FrameView {
        self.frame@
    }

    /// What became of it.
    pub closed spec fn result(&self) -> SendOutcome {
        self.outcome
    }

    /// What was offered.
    pub fn frame(&self) -> (r: &Frame)
        ensures
            r@ == self.content(),
    {
        &self.frame
    }

    /// What became of it.
    pub fn outcome(&self) -> (r: SendOutcome)
        ensures
            r == self.result(),
    {
        self.outcome
    }

    /// Whether the connection that owns the queue is to be kept.
    pub fn keeps_connection(&self) -> (r: bool)
        ensures
            r == self.result().keeps(),
    {
        self.outcome.keeps_connection()
    }
}

impl Signal {
    /// The signal.
    pub closed spec fn to(&self) -> nat {
        self.target@
    }

    /// The value that was set.
    pub closed spec fn content(&self) -> bool {
        self.value
    }

    /// The value that was set.
    pub fn value(&self) -> (r: bool)
        ensures
            r == self.content(),
    {
        self.value
    }
}

/// Something that was handed to a connection.
#[verifier::ext_equal]
pub enum Offer {
    /// A frame was offered to a queue.
    Frame(nat, crate::outbound::FrameView),
    /// A value was set at a signal.
    Signal(nat, bool),
}

/// What was handed to connections, oldest first. It takes no space when the
/// program runs.
pub struct History {
    offers: Ghost<Seq<Offer>>,
}

impl View for History {
    type V = Seq<Offer>;

    closed spec fn view(&self) -> Seq<Offer> {
        self.offers@
    }
}

impl History {
    /// Nothing was handed out yet.
    pub fn new() -> (r: History)
        ensures
            r@ == Seq::<Offer>::empty(),
    {
        History { offers: Ghost(Seq::empty()) }
    }
}

impl Delivery {
    /// What was handed out.
    pub open spec fn offer(&self) -> Offer {
        Offer::Frame(self.to(), self.content())
    }
}

impl Signal {
    /// What was handed out.
    pub open spec fn offer(&self) -> Offer {
        Offer::Signal(self.to(), self.content())
    }
}

/// Calls `mpsc::Sender::try_send`. The contract claims that the receipt names
/// the queue and the frame of the call, and that the call is the next one in
/// the history. What becomes of the frame depends on the receiver and on what
/// else is in the queue, so nothing is claimed of the outcome.
#[verifier::external_body]
pub(crate) fn try_send(
    history: &mut History,
    sender: &mpsc::Sender<Frame>,
    frame: Frame,
) -> (r: Delivery)
    ensures
        r.to() == crate::outbound::queue_of(*sender),
        r.content() == frame@,
        final(history)@ == old(history)@.push(
            Offer::Frame(crate::outbound::queue_of(*sender), frame@),
        ),
{
    let outcome = match sender.try_send(frame.clone()) {
        Ok(()) => SendOutcome::Sent,
        Err(mpsc::error::TrySendError::Full(_)) => SendOutcome::Full,
        Err(mpsc::error::TrySendError::Closed(_)) => SendOutcome::Closed,
    };
    Delivery { queue: Ghost(crate::outbound::queue_of(*sender)), frame, outcome }
}

/// Calls `watch::Sender::send_replace`, which succeeds whether or not anybody
/// watches. The contract claims that the receipt names the signal and the
/// value of the call, and that the call is the next one in the history.
#[verifier::external_body]
pub(crate) fn send_replace(
    history: &mut History,
    sender: &watch::Sender<bool>,
    value: bool,
) -> (r: Signal)
    ensures
        r.to() == crate::outbound::signal_of(*sender),
        r.content() == value,
        final(history)@ == old(history)@.push(
            Offer::Signal(crate::outbound::signal_of(*sender), value),
        ),
{
    sender.send_replace(value);
    Signal { target: Ghost(crate::outbound::signal_of(*sender)), value }
}

/// A receipt is for the queue, the frame and the outcome of its call, or for
/// the signal and the value; a history is the row of what was handed out.
proof fn law_receipts_hold_what_was_called(delivery: Delivery, signal: Signal, history: History)
    ensures
        delivery.to() == delivery.queue@,
        delivery.content() == delivery.frame@,
        delivery.result() == delivery.outcome,
        delivery.offer() == Offer::Frame(delivery.queue@, delivery.frame@),
        signal.to() == signal.target@,
        signal.content() == signal.value,
        signal.offer() == Offer::Signal(signal.target@, signal.value),
        history@ == history.offers@,
{
}

} // verus!
