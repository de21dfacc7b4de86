//! Channels between threads.
use crossbeam::channel::{Receiver, Sender, TryRecvError, TrySendError};
use vstd::prelude::*;

use crate::audio::decode::MidStreamFailure;
use crate::state::Event;

verus! {

/// Sending half of a channel.
#[verifier::external_type_specification]
#[verifier::external_body]
#[verifier::reject_recursive_types(T)]
pub struct ExSender<T>(Sender<T>);

/// Receiving half of a channel.
#[verifier::external_type_specification]
#[verifier::external_body]
#[verifier::reject_recursive_types(T)]
pub struct ExReceiver<T>(Receiver<T>);

/// What became of an item offered to a channel.
#[derive(Debug, Clone, Copy, PartialEq, Eq, Structural)]
pub enum SendOutcome {
    Accepted,
    Full,
    Disconnected,
}

/// What a look at a channel found.
#[derive(Debug)]
pub enum Received<T> {
    Item(T),
    Empty,
    Disconnected,
}

/// An item offered to a channel, and the item itself where it was not taken.
#[derive(Debug)]
pub enum Offered<T> {
    Accepted,
    Full(T),
    Disconnected(T),
}

impl<T> Offered<T> {
    /// What became of the item.
    pub open spec fn outcome_spec(self) -> SendOutcome {
        match self {
            Offered::Accepted => SendOutcome::Accepted,
            Offered::Full(_) => SendOutcome::Full,
            Offered::Disconnected(_) => SendOutcome::Disconnected,
        }
    }

    /// Where the item was not taken, it is `item` that came back.
    pub open spec fn gives_back(self, item: T) -> bool {
        match self {
            Offered::Accepted => true,
            Offered::Full(back) => back == item,
            Offered::Disconnected(back) => back == item,
        }
    }

    /// What became of the item.
    pub fn outcome(&self) -> (r: SendOutcome)
        ensures
            r == self.outcome_spec(),
    {
        match self {
            Offered::Accepted => SendOutcome::Accepted,
            Offered::Full(_) => SendOutcome::Full,
            Offered::Disconnected(_) => SendOutcome::Disconnected,
        }
    }
}

/// What was offered to a channel of events through a sender, oldest first,
/// and what became of it.
pub uninterp spec fn event_offers(sink: Sender<Event>) -> Seq<(Event, SendOutcome)>;

/// What was offered to a channel of failures through a sender, oldest first,
/// and what became of it.
pub uninterp spec fn failure_offers(sink: Sender<MidStreamFailure>) -> Seq<
    (MidStreamFailure, SendOutcome),
>;

/// What each look at a channel of failures through a receiver found, oldest
/// first.
pub uninterp spec fn failure_looks(rx: Receiver<MidStreamFailure>) -> Seq<
    Received<MidStreamFailure>,
>;

/// Offer an event to a channel without waiting
/// (`crossbeam::channel::Sender::try_send`). An event that is not taken comes
/// back. Whether it is taken depends on the receiving thread and is left
/// unsaid.
#[verifier::external_body]
pub(crate) fn try_send_event(sink: &mut Sender<Event>, item: Event) -> (r: Offered<Event>)
    ensures
        r.gives_back(item),
        event_offers(*final(sink)) == event_offers(*old(sink)).push((item, r.outcome_spec())),
{
    match sink.try_send(item) {
        Ok(()) => Offered::Accepted,
        Err(TrySendError::Full(back)) => Offered::Full(back),
        Err(TrySendError::Disconnected(back)) => Offered::Disconnected(back),
    }
}

/// Offer a failure to a channel without waiting
/// (`crossbeam::channel::Sender::try_send`). A failure that is not taken
/// comes back. Whether it is taken depends on the receiving thread and is
/// left unsaid.
#[verifier::external_body]
pub(crate) fn try_send_failure(sink: &mut Sender<MidStreamFailure>, item: MidStreamFailure) -> (r:
    Offered<MidStreamFailure>)
    ensures
        r.gives_back(item),
        failure_offers(*final(sink)) == failure_offers(*old(sink)).push((item, r.outcome_spec())),
{
    match sink.try_send(item) {
        Ok(()) => Offered::Accepted,
        Err(TrySendError::Full(back)) => Offered::Full(back),
        Err(TrySendError::Disconnected(back)) => Offered::Disconnected(back),
    }
}

/// Look at a channel of failures without waiting
/// (`crossbeam::channel::Receiver::try_recv`). What is there depends on the
/// sending threads and is left unsaid.
#[verifier::external_body]
pub(crate) fn try_recv_failure(rx: &mut Receiver<MidStreamFailure>) -> (r: Received<
    MidStreamFailure,
>)
    ensures
        failure_looks(*final(rx)) == failure_looks(*old(rx)).push(r),
{
    match rx.try_recv() {
        Ok(item) => Received::Item(item),
        Err(TryRecvError::Empty) => Received::Empty,
        Err(TryRecvError::Disconnected) => Received::Disconnected,
    }
}

/// An offer ends as the channel said, and an item that was not taken comes
/// back itself.
pub proof fn offers_end_as_told<T>(item: T, other: T)
    ensures
        Offered::<T>::Accepted.outcome_spec() == SendOutcome::Accepted,
        Offered::Full(item).outcome_spec() == SendOutcome::Full,
        Offered::Disconnected(item).outcome_spec() == SendOutcome::Disconnected,
        Offered::Full(other).gives_back(item) <==> other == item,
        Offered::Disconnected(other).gives_back(item) <==> other == item,
{
}

} // verus!
