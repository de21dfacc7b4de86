//! Commands on their way from the ring to the mixer.
//!
//! A command takes effect in the buffer that its frame falls into. One that
//! comes early is held back, and while it is held it can be cancelled.
use vstd::prelude::*;

use crate::audio::command::{AudioCommand, AudioCommandKind};
use crate::audio::mixer::AudioMixer;
use crate::audio::ring::{self, AudioConsumer, RING_CAPACITY};
use crate::state::DeckId;

verus! {

/// The deck that a command is for, if it is for one.
pub open spec fn target_deck(kind: AudioCommandKind) -> Option<DeckId> {
    match kind {
        AudioCommandKind::DeckPlay { deck } => Some(deck),
        AudioCommandKind::DeckPause { deck } => Some(deck),
        AudioCommandKind::DeckSeek { deck, .. } => Some(deck),
        AudioCommandKind::EqLow { deck, .. } => Some(deck),
        AudioCommandKind::EqMid { deck, .. } => Some(deck),
        AudioCommandKind::EqHigh { deck, .. } => Some(deck),
        AudioCommandKind::Pitch { deck, .. } => Some(deck),
        AudioCommandKind::Tempo { deck, .. } => Some(deck),
        AudioCommandKind::PitchTempoReset { deck } => Some(deck),
        AudioCommandKind::LoopArm { deck, .. } => Some(deck),
        AudioCommandKind::LoopDisarm { deck } => Some(deck),
        AudioCommandKind::DeckLoad { deck, .. } => Some(deck),
        AudioCommandKind::DeckUnload { deck } => Some(deck),
        AudioCommandKind::DeckLoadStems { deck, .. } => Some(deck),
        AudioCommandKind::SetStemGain { deck, .. } => Some(deck),
        AudioCommandKind::ArmHandoff { deck, .. } => Some(deck),
        AudioCommandKind::CancelAfter { deck, .. } => Some(deck),
        AudioCommandKind::EffectAssign { deck, .. } => Some(deck),
        AudioCommandKind::EffectClear { deck, .. } => Some(deck),
        AudioCommandKind::EffectParam { deck, .. } => Some(deck),
        AudioCommandKind::EffectWetDry { deck, .. } => Some(deck),
        AudioCommandKind::EffectEnable { deck, .. } => Some(deck),
        AudioCommandKind::EffectSwap { deck, .. } => Some(deck),
        AudioCommandKind::EffectLfoSet { deck, .. } => Some(deck),
        AudioCommandKind::EffectLfoClear { deck, .. } => Some(deck),
        AudioCommandKind::Crossfader { .. } => None,
        AudioCommandKind::SetCrossfaderCurve { .. } => None,
        AudioCommandKind::SetMasterLimiterEnabled { .. } => None,
        AudioCommandKind::SetMasterLimiterThreshold { .. } => None,
    }
}

/// Tell which deck a command is for.
pub fn deck_of_command(kind: AudioCommandKind) -> (r: Option<DeckId>)
    ensures
        r == target_deck(kind),
{
    match kind {
        AudioCommandKind::DeckPlay { deck }
        | AudioCommandKind::DeckPause { deck }
        | AudioCommandKind::DeckSeek { deck, .. }
        | AudioCommandKind::EqLow { deck, .. }
        | AudioCommandKind::EqMid { deck, .. }
        | AudioCommandKind::EqHigh { deck, .. }
        | AudioCommandKind::Pitch { deck, .. }
        | AudioCommandKind::Tempo { deck, .. }
        | AudioCommandKind::PitchTempoReset { deck }
        | AudioCommandKind::LoopArm { deck, .. }
        | AudioCommandKind::LoopDisarm { deck }
        | AudioCommandKind::DeckLoad { deck, .. }
        | AudioCommandKind::DeckUnload { deck }
        | AudioCommandKind::DeckLoadStems { deck, .. }
        | AudioCommandKind::SetStemGain { deck, .. }
        | AudioCommandKind::ArmHandoff { deck, .. }
        | AudioCommandKind::CancelAfter { deck, .. }
        | AudioCommandKind::EffectAssign { deck, .. }
        | AudioCommandKind::EffectClear { deck, .. }
        | AudioCommandKind::EffectParam { deck, .. }
        | AudioCommandKind::EffectWetDry { deck, .. }
        | AudioCommandKind::EffectEnable { deck, .. }
        | AudioCommandKind::EffectSwap { deck, .. }
        | AudioCommandKind::EffectLfoSet { deck, .. }
        | AudioCommandKind::EffectLfoClear { deck, .. } => Some(deck),
        AudioCommandKind::Crossfader { .. }
        | AudioCommandKind::SetCrossfaderCurve { .. }
        | AudioCommandKind::SetMasterLimiterEnabled { .. }
        | AudioCommandKind::SetMasterLimiterThreshold { .. } => None,
    }
}

/// A command cancels another one that is held: it is a cancellation, and the
/// other one is for its deck and more than its distance ahead.
pub open spec fn cancels(cmd: AudioCommand, held: AudioCommand) -> bool {
    cmd.kind matches AudioCommandKind::CancelAfter { deck, after_frames} && target_deck(held.kind)
        == Some(deck) && held.at_frame > cmd.at_frame + after_frames
}

/// Whether a command cancels another one that is held.
pub fn is_cancelled(cmd: AudioCommand, held: AudioCommand) -> (r: bool)
    ensures
        r == cancels(cmd, held),
{
    match cmd.kind {
        AudioCommandKind::CancelAfter { deck, after_frames } => match deck_of_command(held.kind) {
            Some(other) => other == deck && held.at_frame > cmd.at_frame.saturating_add(
                after_frames as u64,
            ),
            None => false,
        },
        _ => false,
    }
}

/// What is still held after a command took effect.
pub open spec fn uncancelled(held: Seq<AudioCommand>, cmd: AudioCommand) -> Seq<AudioCommand>
    decreases held.len(),
{
    if held.len() == 0 {
        Seq::empty()
    } else if cancels(cmd, held.last()) {
        uncancelled(held.drop_last(), cmd)
    } else {
        uncancelled(held.drop_last(), cmd).push(held.last())
    }
}

/// What one command does in a buffer that ends at `end`: behind it, it is
/// held back; else it takes effect.
pub open spec fn taken_in(
    now: (AudioMixer, Seq<AudioCommand>),
    cmd: AudioCommand,
    end: u64,
) -> (AudioMixer, Seq<AudioCommand>) {
    if cmd.at_frame > end {
        (now.0, now.1.push(cmd))
    } else {
        (now.0.after(cmd.kind), uncancelled(now.1, cmd))
    }
}

/// What commands do one after the other, to a mixer and with nothing held.
pub open spec fn all_taken_in(m: AudioMixer, cmds: Seq<AudioCommand>, end: u64) -> (
    AudioMixer,
    Seq<AudioCommand>,
)
    decreases cmds.len(),
{
    if cmds.len() == 0 {
        (m, Seq::empty())
    } else {
        taken_in(all_taken_in(m, cmds.drop_last(), end), cmds.last(), end)
    }
}

/// The looks at the ring that find `cmds`: one for each, and a last one that
/// finds none. Only where there are as many as can be counted is there no
/// such last look.
pub open spec fn command_looks(cmds: Seq<AudioCommand>) -> Seq<Option<AudioCommand>> {
    let found = Seq::new(cmds.len(), |i: int| Some(cmds[i]));
    if cmds.len() < usize::MAX {
        found.push(None)
    } else {
        found
    }
}

/// `cmds` are the commands of `flow` that come after its first `n`.
pub open spec fn next_of(flow: Seq<AudioCommand>, n: int, cmds: Seq<AudioCommand>) -> bool {
    forall|i: int|
        0 <= i < cmds.len() ==> n + i < flow.len() && #[trigger] cmds[i] == flow[n + i]
}

/// Commands that came before their time, oldest first.
pub struct CommandSchedule {
    held: Vec<AudioCommand>,
}

impl CommandSchedule {
    /// The commands that are held back.
    pub closed spec fn held(self) -> Seq<AudioCommand> {
        self.held@
    }

    /// Nothing is held back. There is room for as many commands as the ring
    /// holds before more has to be made.
    pub fn new() -> (r: Self)
        ensures
            r.held() == Seq::<AudioCommand>::empty(),
    {
        CommandSchedule { held: Vec::with_capacity(RING_CAPACITY) }
    }

    /// How many commands are held back.
    pub fn pending(&self) -> (r: usize)
        ensures
            r == self.held().len(),
    {
        self.held.len()
    }

    /// Before a buffer that ends at `end_of_buffer` is rendered: take every
    /// command out of the ring, and apply those that are due by then, in the
    /// order in which they were sent. The others are held back for a later
    /// buffer.
    pub fn apply_due(
        &mut self,
        mixer: &mut AudioMixer,
        consumer: &mut AudioConsumer,
        end_of_buffer: u64,
    )
        ensures
            ring::consumer_limit(*final(consumer)) == ring::consumer_limit(*old(consumer)),
            ring::outflow(*final(consumer)) == ring::outflow(*old(consumer)),
            exists|popped: Seq<AudioCommand>|
                ring::looks(*final(consumer)) == ring::looks(*old(consumer))
                    + #[trigger] command_looks(popped) && next_of(
                    ring::outflow(*old(consumer)),
                    ring::found(ring::looks(*old(consumer))) as int,
                    popped,
                ) && (*final(mixer), final(self).held()) == all_taken_in(
                    *old(mixer),
                    old(self).held() + popped,
                    end_of_buffer,
                ),
    {
        let ghost first = self.held@;
        let ghost before = ring::looks(*consumer);
        let ghost flow = ring::outflow(*consumer);
        let ghost start = *mixer;
        self.recheck(mixer, end_of_buffer);
        let ghost mut popped = Seq::<AudioCommand>::empty();
        let ghost mut seen = Seq::<Option<AudioCommand>>::empty();
        let mut count: usize = 0;
        assert(first + popped =~= first);
        assert(before + seen =~= before);
        while count < usize::MAX
            invariant
                before == ring::looks(*old(consumer)),
                first == old(self).held(),
                start == *old(mixer),
                flow == ring::outflow(*old(consumer)),
                ring::outflow(*consumer) == flow,
                ring::found(before + seen) == ring::found(before) + count,
                next_of(flow, ring::found(before) as int, popped),
                popped.len() == count,
                ring::consumer_limit(*consumer) == ring::consumer_limit(*old(consumer)),
                seen == Seq::new(popped.len(), |i: int| Some(popped[i])),
                ring::looks(*consumer) == before + seen,
                (*mixer, self.held@) == all_taken_in(start, first + popped, end_of_buffer),
            decreases usize::MAX - count,
        {
            let ghost so_far = seen;
            let look: Option<AudioCommand> = consumer.try_pop();
            assert((before + so_far).push(look) =~= before + so_far.push(look));
            match look {
                Some(cmd) => {
                    proof {
                        assert((before + so_far.push(look)).drop_last() =~= before + so_far);
                        assert((first + popped.push(cmd)).drop_last() =~= first + popped);
                        popped = popped.push(cmd);
                        seen = so_far.push(look);
                        assert(seen =~= Seq::new(popped.len(), |i: int| Some(popped[i])));
                    }
                    self.take_in(mixer, cmd, end_of_buffer);
                    count += 1;
                },
                None => {
                    assert(command_looks(popped) =~= so_far.push(look));
                    return ;
                },
            }
        }
        assert(command_looks(popped) =~= seen);
    }

    /// Let one command take effect, or hold it back.
    fn take_in(&mut self, mixer: &mut AudioMixer, cmd: AudioCommand, end: u64)
        ensures
            (*final(mixer), final(self).held@) == taken_in((*old(mixer), old(self).held@), cmd, end),
    {
        if cmd.at_frame > end {
            self.held.push(cmd);
        } else {
            mixer.apply(cmd);
            let n: usize = self.held.len();
            let left: usize = cancel_among(&mut self.held, n, cmd);
            assert(old(self).held@.take(n as int) =~= old(self).held@);
            self.held.truncate(left);
            assert(self.held@ =~= uncancelled(old(self).held@, cmd));
        }
    }

    /// Go through the commands that are held: those that are due by now take
    /// effect.
    fn recheck(&mut self, mixer: &mut AudioMixer, end: u64)
        ensures
            (*final(mixer), final(self).held@) == all_taken_in(*old(mixer), old(self).held@, end),
    {
        let n: usize = self.held.len();
        let ghost all = self.held@;
        let mut kept: usize = 0;
        let mut i: usize = 0;
        assert(self.held@.take(0) =~= Seq::<AudioCommand>::empty());
        assert(all.take(0) =~= Seq::<AudioCommand>::empty());
        while i < n
            invariant
                kept <= i <= n,
                n == all.len(),
                all == old(self).held@,
                self.held@.len() == n,
                forall|j: int| i <= j < n ==> self.held@[j] == all[j],
                (*mixer, self.held@.take(kept as int)) == all_taken_in(
                    *old(mixer),
                    all.take(i as int),
                    end,
                ),
            decreases n - i,
        {
            let cmd: AudioCommand = self.held[i];
            let ghost now = (*mixer, self.held@.take(kept as int));
            assert(all.take(i + 1).drop_last() =~= all.take(i as int));
            if cmd.at_frame > end {
                self.held.set(kept, cmd);
                assert(self.held@.take(kept + 1) =~= now.1.push(cmd));
                kept += 1;
            } else {
                mixer.apply(cmd);
                kept = cancel_among(&mut self.held, kept, cmd);
            }
            i += 1;
        }
        self.held.truncate(kept);
        assert(all.take(n as int) =~= all);
        assert(self.held@ =~= self.held@.take(kept as int));
    }
}

impl Default for CommandSchedule {
    /// Nothing is held back.
    fn default() -> (r: Self)
        ensures
            r.held() == Seq::<AudioCommand>::empty(),
    {
        CommandSchedule::new()
    }
}

/// Move those of the first `n` commands that `cmd` does not cancel to the
/// front, and return how many they are.
fn cancel_among(held: &mut Vec<AudioCommand>, n: usize, cmd: AudioCommand) -> (r: usize)
    requires
        n <= old(held)@.len(),
    ensures
        r <= n,
        final(held)@.len() == old(held)@.len(),
        final(held)@.take(r as int) == uncancelled(old(held)@.take(n as int), cmd),
        forall|j: int| n <= j < final(held)@.len() ==> final(held)@[j] == old(held)@[j],
{
    let ghost all = held@;
    let mut kept: usize = 0;
    let mut i: usize = 0;
    assert(held@.take(0) =~= Seq::<AudioCommand>::empty());
    while i < n
        invariant
            kept <= i <= n,
            n <= all.len(),
            all == old(held)@,
            held@.len() == all.len(),
            forall|j: int| i <= j < all.len() ==> held@[j] == all[j],
            held@.take(kept as int) == uncancelled(all.take(i as int), cmd),
        decreases n - i,
    {
        let other: AudioCommand = held[i];
        let ghost front = held@.take(kept as int);
        assert(all.take(i + 1).drop_last() =~= all.take(i as int));
        if !is_cancelled(cmd, other) {
            held.set(kept, other);
            assert(held@.take(kept + 1) =~= front.push(other));
            kept += 1;
        }
        i += 1;
    }
    kept
}

proof fn lemma_uncancelled(held: Seq<AudioCommand>, cmd: AudioCommand, i: int)
    requires
        0 <= i < uncancelled(held, cmd).len(),
    ensures
        held.contains(uncancelled(held, cmd)[i]),
        !cancels(cmd, uncancelled(held, cmd)[i]),
    decreases held.len(),
{
    let rest = uncancelled(held.drop_last(), cmd);
    if i < rest.len() {
        lemma_uncancelled(held.drop_last(), cmd, i);
        let m = choose|m: int| 0 <= m < held.drop_last().len() && held.drop_last()[m] == rest[i];
        assert(held[m] == rest[i]);
    } else {
        assert(held[held.len() - 1] == uncancelled(held, cmd)[i]);
    }
}

/// Every command that is still held after a buffer was one of those that were
/// there for it, and is not due in it.
pub proof fn held_commands_are_not_due(m: AudioMixer, cmds: Seq<AudioCommand>, end: u64, i: int)
    requires
        0 <= i < all_taken_in(m, cmds, end).1.len(),
    ensures
        all_taken_in(m, cmds, end).1[i].at_frame > end,
        cmds.contains(all_taken_in(m, cmds, end).1[i]),
    decreases cmds.len(),
{
    let before = all_taken_in(m, cmds.drop_last(), end);
    let cmd = cmds.last();
    let held = all_taken_in(m, cmds, end).1[i];
    let k = if cmd.at_frame > end {
        i
    } else {
        lemma_uncancelled(before.1, cmd, i);
        choose|k: int| 0 <= k < before.1.len() && before.1[k] == held
    };
    if k < before.1.len() {
        held_commands_are_not_due(m, cmds.drop_last(), end, k);
        let j = choose|j: int| 0 <= j < cmds.drop_last().len() && cmds.drop_last()[j] == held;
        assert(cmds[j] == held);
    } else {
        assert(cmds[cmds.len() - 1] == held);
    }
}

/// Where everything is due, nothing is held, and the mixer goes through all
/// commands in order.
pub proof fn due_commands_all_take_effect(m: AudioMixer, cmds: Seq<AudioCommand>, end: u64)
    requires
        forall|i: int| 0 <= i < cmds.len() ==> (#[trigger] cmds[i]).at_frame <= end,
    ensures
        all_taken_in(m, cmds, end).1 == Seq::<AudioCommand>::empty(),
        cmds.len() > 0 ==> all_taken_in(m, cmds, end).0 == all_taken_in(
            m,
            cmds.drop_last(),
            end,
        ).0.after(cmds.last().kind),
    decreases cmds.len(),
{
    if cmds.len() > 0 {
        assert forall|i: int| 0 <= i < cmds.drop_last().len() implies (
        #[trigger] cmds.drop_last()[i]).at_frame <= end by {
            assert(cmds.drop_last()[i] == cmds[i]);
        }
        due_commands_all_take_effect(m, cmds.drop_last(), end);
    }
}

/// A cancellation that takes effect leaves no command of its deck held that
/// is more than its distance ahead, and no other command goes.
pub proof fn cancellations_clear_their_deck(held: Seq<AudioCommand>, cmd: AudioCommand, i: int)
    requires
        0 <= i < held.len(),
        !cancels(cmd, held[i]),
    ensures
        uncancelled(held, cmd).contains(held[i]),
        forall|k: int|
            0 <= k < uncancelled(held, cmd).len() ==> !cancels(
                cmd,
                #[trigger] uncancelled(held, cmd)[k],
            ),
    decreases held.len(),
{
    let rest = uncancelled(held.drop_last(), cmd);
    let all = uncancelled(held, cmd);
    if i < held.len() - 1 {
        cancellations_clear_their_deck(held.drop_last(), cmd, i);
        let m = choose|m: int| 0 <= m < rest.len() && rest[m] == held[i];
        assert(all[m] == held[i]);
    } else {
        assert(all[rest.len() as int] == held[i]);
    }
    assert forall|k: int| 0 <= k < all.len() implies !cancels(cmd, #[trigger] all[k]) by {
        lemma_uncancelled(held, cmd, k);
    }
}

/// A command is for the deck that it names; only those for the crossfader and
/// the limiter name none.
pub proof fn commands_are_for_the_deck_they_name(kind: AudioCommandKind)
    ensures
        target_deck(kind) is None <==> kind is Crossfader || kind is SetCrossfaderCurve
            || kind is SetMasterLimiterEnabled || kind is SetMasterLimiterThreshold,
        kind is DeckPlay ==> target_deck(kind) == Some(kind->DeckPlay_deck),
        kind is DeckPause ==> target_deck(kind) == Some(kind->DeckPause_deck),
        kind is DeckSeek ==> target_deck(kind) == Some(kind->DeckSeek_deck),
        kind is EqLow ==> target_deck(kind) == Some(kind->EqLow_deck),
        kind is EqMid ==> target_deck(kind) == Some(kind->EqMid_deck),
        kind is EqHigh ==> target_deck(kind) == Some(kind->EqHigh_deck),
        kind is Pitch ==> target_deck(kind) == Some(kind->Pitch_deck),
        kind is Tempo ==> target_deck(kind) == Some(kind->Tempo_deck),
        kind is PitchTempoReset ==> target_deck(kind) == Some(kind->PitchTempoReset_deck),
        kind is LoopArm ==> target_deck(kind) == Some(kind->LoopArm_deck),
        kind is LoopDisarm ==> target_deck(kind) == Some(kind->LoopDisarm_deck),
        kind is DeckLoad ==> target_deck(kind) == Some(kind->DeckLoad_deck),
        kind is DeckUnload ==> target_deck(kind) == Some(kind->DeckUnload_deck),
        kind is DeckLoadStems ==> target_deck(kind) == Some(kind->DeckLoadStems_deck),
        kind is SetStemGain ==> target_deck(kind) == Some(kind->SetStemGain_deck),
        kind is ArmHandoff ==> target_deck(kind) == Some(kind->ArmHandoff_deck),
        kind is CancelAfter ==> target_deck(kind) == Some(kind->CancelAfter_deck),
        kind is EffectAssign ==> target_deck(kind) == Some(kind->EffectAssign_deck),
        kind is EffectClear ==> target_deck(kind) == Some(kind->EffectClear_deck),
        kind is EffectParam ==> target_deck(kind) == Some(kind->EffectParam_deck),
        kind is EffectWetDry ==> target_deck(kind) == Some(kind->EffectWetDry_deck),
        kind is EffectEnable ==> target_deck(kind) == Some(kind->EffectEnable_deck),
        kind is EffectSwap ==> target_deck(kind) == Some(kind->EffectSwap_deck),
        kind is EffectLfoSet ==> target_deck(kind) == Some(kind->EffectLfoSet_deck),
        kind is EffectLfoClear ==> target_deck(kind) == Some(kind->EffectLfoClear_deck),
{
}

/// Only a cancellation cancels, and it cancels just what is for its deck and
/// more than its distance behind it: nothing at that distance or before.
pub proof fn cancellations_reach_behind_their_distance(cmd: AudioCommand, held: AudioCommand)
    ensures
        !(cmd.kind is CancelAfter) ==> !cancels(cmd, held),
        cmd.kind matches AudioCommandKind::CancelAfter { deck, after_frames } ==> {
            &&& held.at_frame <= cmd.at_frame + after_frames ==> !cancels(cmd, held)
            &&& target_deck(held.kind) != Some(deck) ==> !cancels(cmd, held)
            &&& held.at_frame > cmd.at_frame + after_frames && target_deck(held.kind) == Some(deck)
                ==> cancels(cmd, held)
        },
{
}

/// What is still held after a command is what was held and is not cancelled
/// by it, in the same order.
pub proof fn uncancelled_commands_stay_in_order(held: Seq<AudioCommand>, cmd: AudioCommand)
    ensures
        uncancelled(held, cmd) == held.filter(|h: AudioCommand| !cancels(cmd, h)),
    decreases held.len(),
{
    reveal(Seq::filter);
    if held.len() > 0 {
        uncancelled_commands_stay_in_order(held.drop_last(), cmd);
    }
}

/// A command that takes effect and is no cancellation leaves everything held.
pub proof fn ordinary_commands_cancel_nothing(held: Seq<AudioCommand>, cmd: AudioCommand)
    requires
        !(cmd.kind is CancelAfter),
    ensures
        uncancelled(held, cmd) == held,
    decreases held.len(),
{
    if held.len() > 0 {
        ordinary_commands_cancel_nothing(held.drop_last(), cmd);
        assert(held.drop_last().push(held.last()) =~= held);
    }
}

/// A buffer's mixer has gone through the commands that are due by the end of
/// the buffer, in the order in which they were sent, and through no other.
pub proof fn mixers_go_through_what_is_due(m: AudioMixer, cmds: Seq<AudioCommand>, end: u64)
    ensures
        all_taken_in(m, cmds, end).0 == m.after_all(
            cmds.filter(|c: AudioCommand| c.at_frame <= end),
        ),
    decreases cmds.len(),
{
    reveal(Seq::filter);
    let due = |c: AudioCommand| c.at_frame <= end;
    if cmds.len() > 0 {
        mixers_go_through_what_is_due(m, cmds.drop_last(), end);
        let rest = cmds.drop_last().filter(due);
        if due(cmds.last()) {
            assert(cmds.filter(due) == rest.push(cmds.last()));
            assert(rest.push(cmds.last()).drop_last() =~= rest);
        }
    }
}

/// Without a cancellation that is due, just the commands that are not due are
/// held, in the order in which they were sent.
pub proof fn early_commands_are_held(m: AudioMixer, cmds: Seq<AudioCommand>, end: u64)
    requires
        forall|i: int|
            0 <= i < cmds.len() && (#[trigger] cmds[i]).at_frame <= end ==> !(
            cmds[i].kind is CancelAfter),
    ensures
        all_taken_in(m, cmds, end).1 == cmds.filter(|c: AudioCommand| c.at_frame > end),
    decreases cmds.len(),
{
    reveal(Seq::filter);
    if cmds.len() > 0 {
        let first = cmds.drop_last();
        assert forall|i: int|
            0 <= i < first.len() && (#[trigger] first[i]).at_frame <= end implies !(
        first[i].kind is CancelAfter) by {
            assert(first[i] == cmds[i]);
        }
        early_commands_are_held(m, first, end);
        assert(cmds.last() == cmds[cmds.len() - 1]);
        if cmds.last().at_frame <= end {
            ordinary_commands_cancel_nothing(all_taken_in(m, first, end).1, cmds.last());
        }
    }
}

/// A command that is not due is held until its time, unless one that was sent
/// behind it and is due cancels it.
pub proof fn early_commands_wait_unless_cancelled(
    m: AudioMixer,
    cmds: Seq<AudioCommand>,
    end: u64,
    i: int,
)
    requires
        0 <= i < cmds.len(),
        cmds[i].at_frame > end,
        forall|j: int|
            i < j < cmds.len() && (#[trigger] cmds[j]).at_frame <= end ==> !cancels(
                cmds[j],
                cmds[i],
            ),
    ensures
        all_taken_in(m, cmds, end).1.contains(cmds[i]),
    decreases cmds.len(),
{
    let first = cmds.drop_last();
    let before = all_taken_in(m, first, end);
    let last = cmds.last();
    let after = all_taken_in(m, cmds, end).1;
    if i == cmds.len() - 1 {
        assert(after[before.1.len() as int] == cmds[i]);
    } else {
        assert forall|j: int|
            i < j < first.len() && (#[trigger] first[j]).at_frame <= end implies !cancels(
            first[j],
            first[i],
        ) by {
            assert(first[j] == cmds[j]);
        }
        early_commands_wait_unless_cancelled(m, first, end, i);
        let k = choose|k: int| 0 <= k < before.1.len() && before.1[k] == cmds[i];
        if last.at_frame > end {
            assert(after[k] == cmds[i]);
        } else {
            assert(cmds[cmds.len() - 1] == last);
            cancellations_clear_their_deck(before.1, last, k);
        }
    }
}

/// The looks that find some commands find just those, one each and in order,
/// and then none.
pub proof fn looks_find_the_commands(cmds: Seq<AudioCommand>, i: int)
    requires
        cmds.len() < usize::MAX,
    ensures
        command_looks(cmds).len() == cmds.len() + 1,
        0 <= i < cmds.len() ==> command_looks(cmds)[i] == Some(cmds[i]),
        command_looks(cmds).last() is None,
{
}

/// The next commands of a flow are those that come behind its first ones, one
/// by one.
pub proof fn next_commands_come_in_order(
    flow: Seq<AudioCommand>,
    n: int,
    cmds: Seq<AudioCommand>,
)
    requires
        0 <= n <= flow.len(),
    ensures
        next_of(flow, n, cmds) <==> n + cmds.len() <= flow.len() && cmds == flow.subrange(
            n,
            n + cmds.len(),
        ),
{
    if next_of(flow, n, cmds) {
        if cmds.len() > 0 {
            assert(cmds[cmds.len() - 1] == flow[n + cmds.len() - 1]);
        }
        assert(cmds =~= flow.subrange(n, n + cmds.len()));
    } else if n + cmds.len() <= flow.len() && cmds == flow.subrange(n, n + cmds.len()) {
        assert forall|i: int| 0 <= i < cmds.len() implies n + i < flow.len() && #[trigger] cmds[i]
            == flow[n + i] by {}
    }
}

/// A command that comes before its time is held behind the others and changes
/// nothing; one that is due takes effect.
pub proof fn commands_wait_for_their_time(
    m: AudioMixer,
    held: Seq<AudioCommand>,
    cmd: AudioCommand,
    end: u64,
)
    ensures
        cmd.at_frame > end ==> taken_in((m, held), cmd, end) == (m, held.push(cmd)),
        cmd.at_frame <= end ==> taken_in((m, held), cmd, end).0 == m.after(cmd.kind),
        cmd.at_frame <= end && !(cmd.kind is CancelAfter) ==> taken_in((m, held), cmd, end).1
            == held,
{
    if !(cmd.kind is CancelAfter) {
        ordinary_commands_cancel_nothing(held, cmd);
    }
}

} // verus!
