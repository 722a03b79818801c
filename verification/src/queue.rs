//! The hand-off from the indexing loop to the event consumer.

use vstd::prelude::*;
use crate::stream::{EventData, EventDataView};

verus! {

#[verifier::external_type_specification]
#[verifier::external_body]
#[verifier::reject_recursive_types(T)]
pub struct ExUnboundedSender<T>(tokio::sync::mpsc::UnboundedSender<T>);

#[verifier::external_type_specification]
#[verifier::external_body]
#[verifier::reject_recursive_types(T)]
pub struct ExUnboundedReceiver<T>(tokio::sync::mpsc::UnboundedReceiver<T>);

/// What the channel has taken from a sender, oldest first. The channel hands
/// events to the consumer in the order in which it took them.
pub uninterp spec fn taken(sender: tokio::sync::mpsc::UnboundedSender<EventData>) -> Seq<
    EventDataView,
>;

/// Makes a channel. This is `unbounded_channel` of tokio; the channel has
/// taken nothing yet.
#[verifier::external_body]
fn open_channel() -> (halves: (
    tokio::sync::mpsc::UnboundedSender<EventData>,
    tokio::sync::mpsc::UnboundedReceiver<EventData>,
))
    ensures
        taken(halves.0) == Seq::<EventDataView>::empty(),
{
    tokio::sync::mpsc::unbounded_channel()
}

/// Offers one event to the channel. This is `UnboundedSender::send` of tokio:
/// it never waits, and it refuses the event once the receiving half has been
/// closed or dropped. An event that it accepts is the last that the channel
/// has taken; one that it refuses is not taken. Whether it accepts depends on
/// the receiver, so nothing is claimed of that.
#[verifier::external_body]
fn offer(sender: &mut tokio::sync::mpsc::UnboundedSender<EventData>, event: EventData) -> (accepted:
    bool)
    ensures
        accepted ==> taken(*final(sender)) == taken(*old(sender)).push(event@),
        !accepted ==> taken(*final(sender)) == taken(*old(sender)),
{
    sender.send(event).is_ok()
}

/// The sending half of the hand-off queue.
pub struct HandoffQueue {
    sender: tokio::sync::mpsc::UnboundedSender<EventData>,
}

impl View for HandoffQueue {
    type V = Seq<EventDataView>;

    /// The events that the channel has taken from this queue, oldest first.
    /// This is what the consumer observes, in this order.
    closed spec fn view(&self) -> Seq<EventDataView> {
        taken(self.sender)
    }
}

impl HandoffQueue {
    /// Makes a queue and the receiving half for its consumer. The queue has
    /// taken nothing yet.
    pub fn channel() -> (halves: (HandoffQueue, tokio::sync::mpsc::UnboundedReceiver<EventData>))
        ensures
            halves.0@ == Seq::<EventDataView>::empty(),
    {
        let (sender, receiver) = open_channel();
        (HandoffQueue { sender }, receiver)
    }

    /// Wraps the sending half of a channel. The queue starts with what the
    /// channel has taken from that half so far.
    pub fn new(sender: tokio::sync::mpsc::UnboundedSender<EventData>) -> (queue: HandoffQueue)
        ensures
            queue@ == taken(sender),
    {
        HandoffQueue { sender }
    }

    /// Offers one event to the consumer. The answer is `false` when the
    /// consumer is gone; the event is then dropped and the queue has taken
    /// nothing.
    pub fn push(&mut self, event: EventData) -> (accepted: bool)
        ensures
            accepted ==> final(self)@ == old(self)@.push(event@),
            !accepted ==> final(self)@ == old(self)@,
    {
        offer(&mut self.sender, event)
    }
}

} // verus!
