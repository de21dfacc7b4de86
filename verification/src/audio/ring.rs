//! Single-producer, single-consumer ring between the control thread and the
//! audio thread.
//!
//! Both ends are owned by different threads, so what an operation finds in
//! the ring is up to the other thread as well; the contracts say what holds
//! whatever it does. Each end has a history of its own, which the other
//! thread cannot touch: what went in through it, or what came out at each
//! look. Both ends of a ring share one flow, the commands that go through it
//! from first to last: what is sent is the beginning of that flow, and what
//! is found is its next command.
use ringbuf::traits::{Consumer, Observer, Producer, Split};
use ringbuf::{HeapCons, HeapProd, HeapRb};
use vstd::prelude::*;

use crate::audio::command::AudioCommand;

verus! {

/// Commands that the ring holds.
pub const RING_CAPACITY: usize = 1024;

/// A ring that has not been split yet.
#[verifier::external_body]
pub struct AudioRing {
    rb: HeapRb<AudioCommand>,
}

/// The control thread's end.
#[verifier::external_body]
pub struct AudioProducer {
    inner: HeapProd<AudioCommand>,
}

/// The audio thread's end.
#[verifier::external_body]
pub struct AudioConsumer {
    inner: HeapCons<AudioCommand>,
}

/// Commands that a ring was made to hold.
pub uninterp spec fn ring_limit(ring: AudioRing) -> nat;

/// Commands that the ring behind a producer was made to hold.
pub uninterp spec fn producer_limit(end: AudioProducer) -> nat;

/// Commands that the ring behind a consumer was made to hold.
pub uninterp spec fn consumer_limit(end: AudioConsumer) -> nat;

/// The commands that went into the ring through a producer, oldest first.
pub uninterp spec fn sent(end: AudioProducer) -> Seq<AudioCommand>;

/// What came of each look for a command through a consumer, oldest first: the
/// command that was taken out, or none where the ring was empty.
pub uninterp spec fn looks(end: AudioConsumer) -> Seq<Option<AudioCommand>>;

/// The commands that ever go into the ring behind a producer, in order.
pub uninterp spec fn inflow(end: AudioProducer) -> Seq<AudioCommand>;

/// The commands that ever go into the ring behind a consumer, in order.
pub uninterp spec fn outflow(end: AudioConsumer) -> Seq<AudioCommand>;

/// How many of some looks found a command.
pub open spec fn found(looks: Seq<Option<AudioCommand>>) -> nat
    decreases looks.len(),
{
    if looks.len() == 0 {
        0
    } else if looks.last() is Some {
        found(looks.drop_last()) + 1
    } else {
        found(looks.drop_last())
    }
}

/// What a look came to is what the ring owed it: a command is the one of the
/// flow that comes after all that were found before.
pub open spec fn owed(
    flow: Seq<AudioCommand>,
    before: Seq<Option<AudioCommand>>,
    look: Option<AudioCommand>,
) -> bool {
    look matches Some(cmd) ==> found(before) < flow.len() && cmd == flow[found(before) as int]
}

/// `HeapRb::new`: a ring with room for `capacity` commands. A ring without
/// room cannot be made.
#[verifier::external_body]
fn ring_new(capacity: usize) -> (r: AudioRing)
    requires
        0 < capacity <= RING_CAPACITY,
    ensures
        ring_limit(r) == capacity,
{
    AudioRing { rb: HeapRb::new(capacity) }
}

/// `Split::split`: two ends of one ring, so that what goes in at the one is
/// what comes out at the other. Nothing has gone through it yet: a ring comes
/// from `HeapRb::new`, and nothing goes in before it is split.
#[verifier::external_body]
fn ring_split(ring: AudioRing) -> (r: (AudioProducer, AudioConsumer))
    ensures
        producer_limit(r.0) == ring_limit(ring),
        consumer_limit(r.1) == ring_limit(ring),
        sent(r.0) == Seq::<AudioCommand>::empty(),
        looks(r.1) == Seq::<Option<AudioCommand>>::empty(),
        inflow(r.0) == outflow(r.1),
{
    let (prod, cons) = ring.rb.split();
    (AudioProducer { inner: prod }, AudioConsumer { inner: cons })
}

/// `Producer::try_push`: appends the command, or hands it back where the ring
/// is full. Whether it is full depends on the consumer, but a ring into which
/// fewer commands ever went than it has places is not full. There is one
/// producer, so what went in through it is all that has gone in, in order.
/// When the consumer makes room is left unsaid.
#[verifier::external_body]
fn producer_try_push(end: &mut AudioProducer, cmd: AudioCommand) -> (r: Result<(), AudioCommand>)
    ensures
        producer_limit(*final(end)) == producer_limit(*old(end)),
        match r {
            Ok(_) => sent(*final(end)) == sent(*old(end)).push(cmd),
            Err(back) => back == cmd && sent(*final(end)) == sent(*old(end)),
        },
        sent(*old(end)).len() < producer_limit(*old(end)) ==> r is Ok,
        inflow(*final(end)) == inflow(*old(end)),
        r is Ok ==> sent(*final(end)).is_prefix_of(inflow(*final(end))),
{
    end.inner.try_push(cmd)
}

/// `Observer::vacant_len`: free places, of which there are never more than
/// the ring has. Each command that went in takes at most one; which of them
/// the consumer has freed again is left unsaid.
#[verifier::external_body]
fn producer_vacant_len(end: &AudioProducer) -> (r: usize)
    ensures
        producer_limit(*end) - sent(*end).len() <= r <= producer_limit(*end),
{
    end.inner.vacant_len()
}

/// `Consumer::try_pop`: takes the oldest command out, or none where the ring
/// is empty. There is one consumer, so the oldest command is the next one of
/// the flow. Whether the ring is empty depends on the producer and is left
/// unsaid.
#[verifier::external_body]
fn consumer_try_pop(end: &mut AudioConsumer) -> (r: Option<AudioCommand>)
    ensures
        consumer_limit(*final(end)) == consumer_limit(*old(end)),
        looks(*final(end)) == looks(*old(end)).push(r),
        outflow(*final(end)) == outflow(*old(end)),
        owed(outflow(*old(end)), looks(*old(end)), r),
{
    end.inner.try_pop()
}

/// `Observer::occupied_len`: pending commands, of which there are never more
/// than the ring has places. How many there are depends on the producer.
#[verifier::external_body]
fn consumer_occupied_len(end: &AudioConsumer) -> (r: usize)
    ensures
        r <= consumer_limit(*end),
{
    end.inner.occupied_len()
}

impl AudioRing {
    /// A fresh ring; the only place where one allocates.
    pub fn new() -> (r: Self)
        ensures
            ring_limit(r) == RING_CAPACITY,
    {
        ring_new(RING_CAPACITY)
    }

    /// Hand the two ends out.
    pub fn split(self) -> (r: (AudioProducer, AudioConsumer))
        ensures
            producer_limit(r.0) == ring_limit(self),
            consumer_limit(r.1) == ring_limit(self),
            sent(r.0) == Seq::<AudioCommand>::empty(),
            looks(r.1) == Seq::<Option<AudioCommand>>::empty(),
            inflow(r.0) == outflow(r.1),
    {
        ring_split(self)
    }
}

impl Default for AudioRing {
    fn default() -> (r: Self)
        ensures
            ring_limit(r) == RING_CAPACITY,
    {
        AudioRing::new()
    }
}

impl AudioProducer {
    /// Push a command; a full ring hands the same command back. A ring is not
    /// full before as many commands went in as it has places.
    pub fn try_push(&mut self, cmd: AudioCommand) -> (r: Result<(), AudioCommand>)
        ensures
            producer_limit(*final(self)) == producer_limit(*old(self)),
            match r {
                Ok(_) => sent(*final(self)) == sent(*old(self)).push(cmd),
                Err(back) => back == cmd && sent(*final(self)) == sent(*old(self)),
            },
            sent(*old(self)).len() < producer_limit(*old(self)) ==> r is Ok,
            inflow(*final(self)) == inflow(*old(self)),
            r is Ok ==> sent(*final(self)).is_prefix_of(inflow(*final(self))),
    {
        producer_try_push(self, cmd)
    }

    /// Free places: at least those that no command ever took.
    pub fn vacant_len(&self) -> (r: usize)
        ensures
            producer_limit(*self) - sent(*self).len() <= r <= producer_limit(*self),
    {
        producer_vacant_len(self)
    }
}

impl AudioConsumer {
    /// Pop the oldest pending command; none where none is pending.
    pub fn try_pop(&mut self) -> (r: Option<AudioCommand>)
        ensures
            consumer_limit(*final(self)) == consumer_limit(*old(self)),
            looks(*final(self)) == looks(*old(self)).push(r),
            outflow(*final(self)) == outflow(*old(self)),
            owed(outflow(*old(self)), looks(*old(self)), r),
    {
        consumer_try_pop(self)
    }

    /// Pending commands.
    pub fn occupied_len(&self) -> (r: usize)
        ensures
            r <= consumer_limit(*self),
    {
        consumer_occupied_len(self)
    }
}

/// The ring is first in, first out: where the consumer has found `n` commands
/// and finds one more, it is the one that the producer sent after `n` others,
/// if that is known to have been sent.
pub proof fn ring_keeps_its_order(
    flow: Seq<AudioCommand>,
    sent: Seq<AudioCommand>,
    before: Seq<Option<AudioCommand>>,
    cmd: AudioCommand,
)
    requires
        sent.is_prefix_of(flow),
        owed(flow, before, Some(cmd)),
        found(before) < sent.len(),
    ensures
        cmd == sent[found(before) as int],
{
}

/// A look that finds a command counts, and one that finds none does not.
pub proof fn looks_count_when_they_find(looks: Seq<Option<AudioCommand>>, cmd: AudioCommand)
    ensures
        found(Seq::empty()) == 0,
        found(looks.push(Some(cmd))) == found(looks) + 1,
        found(looks.push(None)) == found(looks),
{
    assert(looks.push(Some(cmd)).drop_last() =~= looks);
    assert(looks.push(None).drop_last() =~= looks);
}

/// What a ring owes a look is the command behind those that were found, and
/// no other; a look that finds none owes nothing.
pub proof fn rings_owe_the_next_command(
    flow: Seq<AudioCommand>,
    before: Seq<Option<AudioCommand>>,
    cmd: AudioCommand,
)
    ensures
        owed(flow, before, None),
        owed(flow, before, Some(cmd)) <==> found(before) < flow.len() && flow[found(before) as int]
            == cmd,
{
}

} // verus!
