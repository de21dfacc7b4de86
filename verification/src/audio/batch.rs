//! Inline-first lists of commands and of failed loads.
//!
//! Most events yield no command or one, so both lists keep their first
//! entries inline and reach for the heap only past that.
use smallvec::SmallVec;
use vstd::prelude::*;

use crate::audio::command::AudioCommand;
use crate::audio::translator::DecodeFailure;

verus! {

/// Entries up to which a list can always grow: past that, twice its room could
/// exceed what one allocation may hold on a machine with 32-bit addresses.
pub const MAX_ENTRIES: usize = 0x80_0000;

/// Commands that one event gives rise to.
#[verifier::external_body]
pub struct AudioCmdBatch {
    items: SmallVec<[AudioCommand; 4]>,
}

/// Loads that failed while one event was translated.
#[verifier::external_body]
pub struct DecodeFailures {
    items: SmallVec<[DecodeFailure; 1]>,
}

/// The commands that a batch holds, in the order in which they were pushed.
pub uninterp spec fn batch_items(batch: AudioCmdBatch) -> Seq<AudioCommand>;

/// The failures that a list holds, in the order in which they were pushed.
pub uninterp spec fn failure_items(list: DecodeFailures) -> Seq<DecodeFailure>;

/// `SmallVec::new`: an empty batch.
#[verifier::external_body]
fn batch_new() -> (r: AudioCmdBatch)
    ensures
        batch_items(r) == Seq::<AudioCommand>::empty(),
{
    AudioCmdBatch { items: SmallVec::new() }
}

/// `SmallVec::push`: appends one command, on the heap once the inline room is
/// used up. It fails only where the room that it would make is too large.
#[verifier::external_body]
fn batch_push(batch: &mut AudioCmdBatch, cmd: AudioCommand)
    requires
        batch_items(*old(batch)).len() < MAX_ENTRIES,
    ensures
        batch_items(*final(batch)) == batch_items(*old(batch)).push(cmd),
{
    batch.items.push(cmd);
}

/// `SmallVec::len`: how many commands a batch holds.
#[verifier::external_body]
fn batch_len(batch: &AudioCmdBatch) -> (r: usize)
    ensures
        r == batch_items(*batch).len(),
{
    batch.items.len()
}

/// `SmallVec::index`: the command at a position that exists.
#[verifier::external_body]
fn batch_at(batch: &AudioCmdBatch, i: usize) -> (r: AudioCommand)
    requires
        i < batch_items(*batch).len(),
    ensures
        r == batch_items(*batch)[i as int],
{
    batch.items[i]
}

/// `SmallVec::new`: an empty list of failures.
#[verifier::external_body]
fn failures_new() -> (r: DecodeFailures)
    ensures
        failure_items(r) == Seq::<DecodeFailure>::empty(),
{
    DecodeFailures { items: SmallVec::new() }
}

/// `SmallVec::push`: appends one failure, on the heap once the inline room is
/// used up. It fails only where the room that it would make is too large.
#[verifier::external_body]
fn failures_push(list: &mut DecodeFailures, failure: DecodeFailure)
    requires
        failure_items(*old(list)).len() < MAX_ENTRIES,
    ensures
        failure_items(*final(list)) == failure_items(*old(list)).push(failure),
{
    list.items.push(failure);
}

/// `SmallVec::into_vec`: the same failures, in the same order.
#[verifier::external_body]
fn failures_into_vec(list: DecodeFailures) -> (r: Vec<DecodeFailure>)
    ensures
        r@ == failure_items(list),
{
    list.items.into_vec()
}

impl View for AudioCmdBatch {
    type V = Seq<AudioCommand>;

    open spec fn view(&self) -> Seq<AudioCommand> {
        batch_items(*self)
    }
}

impl View for DecodeFailures {
    type V = Seq<DecodeFailure>;

    open spec fn view(&self) -> Seq<DecodeFailure> {
        failure_items(*self)
    }
}

impl AudioCmdBatch {
    /// A batch without commands.
    pub fn new() -> (r: Self)
        ensures
            r@ == Seq::<AudioCommand>::empty(),
    {
        batch_new()
    }

    /// Append a command.
    pub fn push(&mut self, cmd: AudioCommand)
        requires
            old(self)@.len() < MAX_ENTRIES,
        ensures
            final(self)@ == old(self)@.push(cmd),
    {
        batch_push(self, cmd);
    }

    /// How many commands the batch holds.
    pub fn len(&self) -> (r: usize)
        ensures
            r == self@.len(),
    {
        batch_len(self)
    }

    /// Whether the batch holds no command.
    pub fn is_empty(&self) -> (r: bool)
        ensures
            r == (self@.len() == 0),
    {
        batch_len(self) == 0
    }

    /// The command at position `i`, if there is one.
    pub fn get(&self, i: usize) -> (r: Option<AudioCommand>)
        ensures
            r == (if i < self@.len() {
                Some(self@[i as int])
            } else {
                None::<AudioCommand>
            }),
    {
        if i < batch_len(self) {
            Some(batch_at(self, i))
        } else {
            None
        }
    }
}

impl DecodeFailures {
    /// A list without failures.
    pub fn new() -> (r: Self)
        ensures
            r@ == Seq::<DecodeFailure>::empty(),
    {
        failures_new()
    }

    /// Append a failure.
    pub fn push(&mut self, failure: DecodeFailure)
        requires
            old(self)@.len() < MAX_ENTRIES,
        ensures
            final(self)@ == old(self)@.push(failure),
    {
        failures_push(self, failure);
    }

    /// The recorded failures.
    pub fn into_vec(self) -> (r: Vec<DecodeFailure>)
        ensures
            r@ == self@,
    {
        failures_into_vec(self)
    }
}

} // verus!
