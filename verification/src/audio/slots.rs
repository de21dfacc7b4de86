//! The table of decoder slots and the handles that name them.
//!
//! A handle keeps its slot in the top four bits and a generation number in
//! the other twenty-eight. Only the slot decides what a handle reaches; the
//! generation tells two openings of one slot apart in a log.
use vstd::prelude::*;

use crate::audio::decode::{DecodeError, DecodeHandle, MAX_DECODE_SLOTS, NO_HANDLE};

verus! {

/// Generation numbers are taken modulo this.
pub const GENERATIONS: u32 = 0x1000_0000;

/// Slot that a handle names.
pub open spec fn slot_of(h: DecodeHandle) -> int {
    h.0 as int / GENERATIONS as int
}

/// Generation that a handle carries.
pub open spec fn generation_of(h: DecodeHandle) -> int {
    h.0 as int % GENERATIONS as int
}

/// Number of the handle for `slot` and `id`.
pub open spec fn handle_number(slot: int, id: int) -> int {
    slot * GENERATIONS + id % GENERATIONS as int
}

/// The generation after `g`, modulo the range of the counter.
pub open spec fn generation_after(g: int) -> int {
    (g + 1) % 0x1_0000_0000_0000_0000
}

/// The generation that a handle for `slot` gets where `next` is due. In the
/// last slot the last generation would make the empty handle; the first one
/// stands in for it, which within so many openings only slot 0 can have had.
pub open spec fn generation_for(slot: int, next: int) -> int {
    if handle_number(slot, next) == NO_HANDLE {
        1
    } else {
        next
    }
}

/// Build the number of a handle.
pub fn encode_handle(slot_idx: usize, id: u32) -> (r: u32)
    requires
        slot_idx < MAX_DECODE_SLOTS,
    ensures
        r == handle_number(slot_idx as int, id as int),
{
    let s: u32 = slot_idx as u32;
    assert((s << 28u32) | (id & 0x0FFF_FFFFu32) == s * 0x1000_0000 + id % 0x1000_0000)
        by (bit_vector)
        requires
            s < 16,
    ;
    (s << 28) | (id & 0x0FFF_FFFF)
}

/// Lower half of a generation counter, which holds the generation itself.
fn low_half(n: u64) -> (r: u32)
    ensures
        r as int % GENERATIONS as int == n as int % GENERATIONS as int,
{
    assert(n as u32 % 0x1000_0000 == n % 0x1000_0000) by (bit_vector);
    #[verifier::truncate]
    (n as u32)
}

/// Take a handle apart into its slot and its generation.
pub fn decode_handle(h: DecodeHandle) -> (r: (usize, u32))
    ensures
        r.0 == slot_of(h),
        r.1 == generation_of(h),
        r.0 < MAX_DECODE_SLOTS,
{
    let n: u32 = h.0;
    assert(n >> 28u32 == n / 0x1000_0000 && n >> 28u32 < 16) by (bit_vector);
    assert(n & 0x0FFF_FFFFu32 == n % 0x1000_0000) by (bit_vector);
    ((n >> 28) as usize, n & 0x0FFF_FFFF)
}

/// A handle gives back the slot and the generation that it was made from,
/// the generation modulo its range.
pub proof fn handle_round_trip(slot: int, id: int, h: DecodeHandle)
    requires
        0 <= slot < MAX_DECODE_SLOTS,
        0 <= id,
        h.0 == handle_number(slot, id),
    ensures
        slot_of(h) == slot,
        generation_of(h) == id % GENERATIONS as int,
{
    let g = GENERATIONS as int;
    vstd::arithmetic::div_mod::lemma_fundamental_div_mod_converse(
        h.0 as int,
        g,
        slot,
        id % g,
    );
}

/// Handles of different slots differ, and one number equals the empty
/// handle: that of the last slot with the last generation.
pub proof fn handles_are_distinct(s1: int, id1: int, s2: int, id2: int)
    requires
        0 <= s1 < MAX_DECODE_SLOTS,
        0 <= s2 < MAX_DECODE_SLOTS,
        0 <= id1 < GENERATIONS,
        0 <= id2 < GENERATIONS,
    ensures
        handle_number(s1, id1) == handle_number(s2, id2) <==> s1 == s2 && id1 == id2,
        handle_number(s1, id1) == NO_HANDLE <==> s1 == MAX_DECODE_SLOTS - 1 && id1 == GENERATIONS
            - 1,
{
}

/// Opening a track and closing its handle leaves the same slots open as
/// before.
pub proof fn close_undoes_open(before: Set<int>, h: DecodeHandle)
    requires
        !before.contains(slot_of(h)),
        h != DecodeHandle::none_spec(),
    ensures
        before.insert(slot_of(h)).remove(slot_of(h)) == before,
{
    assert(before.insert(slot_of(h)).remove(slot_of(h)) =~= before);
}

/// Which decoder slots are open, and the counters of the service.
pub struct SlotTable {
    occupied: Vec<bool>,
    next_id: u64,
    underruns: u64,
}

impl SlotTable {
    /// The table has one entry per slot.
    pub closed spec fn wf(&self) -> bool {
        self.occupied@.len() == MAX_DECODE_SLOTS
    }

    /// The open slots.
    pub closed spec fn open_slots(&self) -> Set<int> {
        Set::new(|i: int| 0 <= i < MAX_DECODE_SLOTS && self.occupied@[i])
    }

    /// Generation that the next handle gets.
    pub closed spec fn next_generation(&self) -> int {
        self.next_id as int
    }

    /// Reads that ran out of samples so far.
    pub closed spec fn underrun_total(&self) -> int {
        self.underruns as int
    }

    /// An empty table; the first handle gets generation 1.
    pub fn new() -> (r: Self)
        ensures
            r.wf(),
            r.open_slots() == Set::<int>::empty(),
            r.next_generation() == 1,
            r.underrun_total() == 0,
    {
        let mut occupied: Vec<bool> = Vec::new();
        let mut i: usize = 0;
        while i < MAX_DECODE_SLOTS
            invariant
                i <= MAX_DECODE_SLOTS,
                occupied@.len() == i,
                forall|j: int| 0 <= j < i ==> !occupied@[j],
            decreases MAX_DECODE_SLOTS - i,
        {
            occupied.push(false);
            i += 1;
        }
        let r = SlotTable { occupied, next_id: 1, underruns: 0 };
        assert(r.open_slots() =~= Set::<int>::empty());
        r
    }

    /// Open slots lie in the table.
    pub proof fn open_slots_in_range(&self, i: int)
        requires
            self.wf(),
            self.open_slots().contains(i),
        ensures
            0 <= i < MAX_DECODE_SLOTS,
    {
    }

    /// Take the lowest free slot. Fails exactly when every slot is open.
    pub fn claim(&mut self) -> (r: Result<usize, DecodeError>)
        requires
            old(self).wf(),
        ensures
            final(self).wf(),
            final(self).next_generation() == old(self).next_generation(),
            final(self).underrun_total() == old(self).underrun_total(),
            match r {
                Ok(i) => {
                    &&& i < MAX_DECODE_SLOTS
                    &&& !old(self).open_slots().contains(i as int)
                    &&& forall|j: int| 0 <= j < i ==> #[trigger] old(self).open_slots().contains(j)
                    &&& final(self).open_slots() == old(self).open_slots().insert(i as int)
                },
                Err(e) => {
                    &&& e is NoFreeSlot
                    &&& forall|j: int|
                        0 <= j < MAX_DECODE_SLOTS ==> #[trigger] old(self).open_slots().contains(j)
                    &&& final(self).open_slots() == old(self).open_slots()
                },
            },
    {
        let mut i: usize = 0;
        while i < MAX_DECODE_SLOTS
            invariant
                i <= MAX_DECODE_SLOTS,
                self.wf(),
                *self == *old(self),
                forall|j: int| 0 <= j < i ==> #[trigger] self.open_slots().contains(j),
            decreases MAX_DECODE_SLOTS - i,
        {
            if !self.occupied[i] {
                assert(!self.open_slots().contains(i as int));
                self.occupied.set(i, true);
                assert(self.open_slots() =~= old(self).open_slots().insert(i as int));
                return Ok(i);
            }
            assert(self.open_slots().contains(i as int));
            i += 1;
        }
        Err(DecodeError::NoFreeSlot)
    }

    /// Free a slot.
    pub fn release(&mut self, slot: usize)
        requires
            old(self).wf(),
            slot < MAX_DECODE_SLOTS,
        ensures
            final(self).wf(),
            final(self).open_slots() == old(self).open_slots().remove(slot as int),
            final(self).next_generation() == old(self).next_generation(),
            final(self).underrun_total() == old(self).underrun_total(),
    {
        self.occupied.set(slot, false);
        assert(self.open_slots() =~= old(self).open_slots().remove(slot as int));
    }

    /// Finish an opening: a started decoder gets a handle with the next
    /// generation, a failed one gives its slot back. The handle is never the
    /// empty one.
    pub fn finish_open(&mut self, slot: usize, started: Result<(), DecodeError>) -> (r: Result<
        DecodeHandle,
        DecodeError,
    >)
        requires
            old(self).wf(),
            slot < MAX_DECODE_SLOTS,
            old(self).open_slots().contains(slot as int),
        ensures
            final(self).wf(),
            final(self).underrun_total() == old(self).underrun_total(),
            match started {
                Ok(_) => {
                    &&& r matches Ok(h)
                    &&& h.0 == handle_number(
                        slot as int,
                        generation_for(slot as int, old(self).next_generation()),
                    )
                    &&& h != DecodeHandle::none_spec()
                    &&& slot_of(h) == slot
                    &&& generation_of(h) == generation_for(
                        slot as int,
                        old(self).next_generation(),
                    ) % GENERATIONS as int
                    &&& final(self).open_slots() == old(self).open_slots()
                    &&& final(self).next_generation() == generation_after(
                        old(self).next_generation(),
                    )
                },
                Err(e) => {
                    &&& r == Err::<DecodeHandle, DecodeError>(e)
                    &&& final(self).open_slots() == old(self).open_slots().remove(slot as int)
                    &&& final(self).next_generation() == old(self).next_generation()
                },
            },
    {
        match started {
            Ok(_) => {
                let due: u64 = self.next_id;
                let full: u64 = if encode_handle(slot, low_half(due)) == NO_HANDLE {
                    1
                } else {
                    due
                };
                self.next_id = due.wrapping_add(1);
                let h = DecodeHandle(encode_handle(slot, low_half(full)));
                proof {
                    handle_round_trip(slot as int, full as int, h);
                }
                assert(self.open_slots() =~= old(self).open_slots());
                Ok(h)
            },
            Err(e) => {
                self.release(slot);
                Err(e)
            },
        }
    }

    /// The open slot that a handle reaches: none for the empty handle and
    /// for a closed slot.
    pub open spec fn reached(&self, h: DecodeHandle) -> Option<usize> {
        if h != DecodeHandle::none_spec() && self.open_slots().contains(slot_of(h)) {
            Some(slot_of(h) as usize)
        } else {
            None
        }
    }

    /// Look up the open slot that a handle reaches.
    pub fn slot_for(&self, h: DecodeHandle) -> (r: Option<usize>)
        requires
            self.wf(),
        ensures
            r == self.reached(h),
            r matches Some(i) ==> i < MAX_DECODE_SLOTS,
    {
        if !h.is_some() {
            return None;
        }
        let (slot, _id): (usize, u32) = decode_handle(h);
        if self.occupied[slot] {
            Some(slot)
        } else {
            None
        }
    }

    /// Free the slot that a handle reaches; nothing happens where it reaches
    /// none, so closing twice is harmless. The result names the freed slot.
    pub fn close(&mut self, h: DecodeHandle) -> (r: Option<usize>)
        requires
            old(self).wf(),
        ensures
            final(self).wf(),
            r == old(self).reached(h),
            r matches Some(i) ==> i < MAX_DECODE_SLOTS,
            final(self).open_slots() == (if h == DecodeHandle::none_spec() {
                old(self).open_slots()
            } else {
                old(self).open_slots().remove(slot_of(h))
            }),
            final(self).next_generation() == old(self).next_generation(),
            final(self).underrun_total() == old(self).underrun_total(),
    {
        match self.slot_for(h) {
            Some(slot) => {
                self.release(slot);
                Some(slot)
            },
            None => {
                assert(h != DecodeHandle::none_spec() ==> self.open_slots().remove(slot_of(h))
                    =~= self.open_slots());
                None
            },
        }
    }

    /// Whether a slot is open.
    pub fn is_open(&self, slot: usize) -> (r: bool)
        requires
            self.wf(),
            slot < MAX_DECODE_SLOTS,
        ensures
            r == self.open_slots().contains(slot as int),
    {
        self.occupied[slot]
    }

    /// How many slots are open.
    pub fn open_slot_count(&self) -> (r: usize)
        requires
            self.wf(),
        ensures
            r == self.open_slots().len(),
    {
        let mut n: usize = 0;
        let mut i: usize = 0;
        let ghost mut seen = Set::<int>::empty();
        while i < MAX_DECODE_SLOTS
            invariant
                self.wf(),
                i <= MAX_DECODE_SLOTS,
                n <= i,
                seen.finite(),
                seen.len() == n,
                forall|k: int|
                    #[trigger] seen.contains(k) <==> (k < i && self.open_slots().contains(k)),
            decreases MAX_DECODE_SLOTS - i,
        {
            if self.occupied[i] {
                assert(self.open_slots().contains(i as int));
                proof {
                    seen = seen.insert(i as int);
                }
                n += 1;
            } else {
                assert(!self.open_slots().contains(i as int));
            }
            i += 1;
        }
        assert(seen =~= self.open_slots());
        n
    }

    /// Count one read that ran out of samples.
    pub fn count_underrun(&mut self)
        requires
            old(self).wf(),
        ensures
            final(self).wf(),
            final(self).open_slots() == old(self).open_slots(),
            final(self).next_generation() == old(self).next_generation(),
            final(self).underrun_total() == (old(self).underrun_total() + 1)
                % 0x1_0000_0000_0000_0000,
    {
        self.underruns = self.underruns.wrapping_add(1);
        assert(self.open_slots() =~= old(self).open_slots());
    }

    /// Reads that ran out of samples, modulo the counter's range.
    pub fn underrun_count(&self) -> (r: u64)
        ensures
            r == self.underrun_total(),
    {
        self.underruns
    }
}

/// A handle is its slot in the upper four bits and its generation in the
/// lower twenty-eight.
pub proof fn handles_are_slot_and_generation(h: DecodeHandle, slot: int, id: int)
    ensures
        h.0 == slot_of(h) * 0x1000_0000 + generation_of(h),
        0 <= slot_of(h) < 16,
        0 <= generation_of(h) < 0x1000_0000,
        0 <= id < 0x1000_0000 ==> handle_number(slot, id) == slot * 0x1000_0000 + id,
{
}

/// Generations follow each other one by one, until the counter starts anew;
/// and the one that is due is used, but for the one that would make the empty
/// handle.
pub proof fn generations_follow_each_other(slot: int, next: int)
    requires
        0 <= next < 0x1_0000_0000_0000_0000,
        0 <= slot < 16,
    ensures
        next < 0xFFFF_FFFF_FFFF_FFFF ==> generation_after(next) == next + 1,
        next == 0xFFFF_FFFF_FFFF_FFFF ==> generation_after(next) == 0,
        slot < 15 || next % 0x1000_0000 != 0x0FFF_FFFF ==> generation_for(slot, next) == next,
        slot == 15 && next % 0x1000_0000 == 0x0FFF_FFFF ==> generation_for(slot, next) == 1,
        handle_number(slot, generation_for(slot, next)) != 0xFFFF_FFFF,
{
}

/// A handle reaches its own slot, as long as that is open, and nothing else;
/// the empty handle reaches nothing.
pub proof fn handles_reach_their_open_slot(table: SlotTable, h: DecodeHandle)
    ensures
        table.reached(h) is Some <==> h.0 != 0xFFFF_FFFF && table.open_slots().contains(
            h.0 as int / 0x1000_0000,
        ),
        table.reached(h) matches Some(i) ==> i == h.0 as int / 0x1000_0000,
{
}

} // verus!
