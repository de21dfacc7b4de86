//! Samples on their way from a decoder thread to the audio thread.
use std::sync::Arc;

use crossbeam::queue::ArrayQueue;
use vstd::prelude::*;

use crate::audio::decode::{DecodeHandle, StemHandle, MAX_DECODE_SLOTS, RING_SAMPLES_500MS};
use crate::audio::slots::{slot_of, SlotTable};
use crate::f32_bits::{F32Bits, ZERO_BITS};

verus! {

/// The queue of a slot. The decoder thread writes into it, the audio thread
/// reads from it, each through an end of its own.
#[verifier::external_body]
pub struct SampleQueue {
    inner: Arc<ArrayQueue<F32Bits>>,
}

/// A writing end.
#[verifier::external_body]
pub struct SampleWriter {
    queue: Arc<ArrayQueue<F32Bits>>,
}

/// A reading end.
#[verifier::external_body]
pub struct SampleReader {
    queue: Arc<ArrayQueue<F32Bits>>,
}

/// What was offered through a writer, oldest first, and whether it was taken.
pub uninterp spec fn sample_offers(end: SampleWriter) -> Seq<(F32Bits, bool)>;

/// What came of each look for a sample through a reader, oldest first: the
/// sample that was taken out, or none where the queue was empty.
pub uninterp spec fn sample_looks(end: SampleReader) -> Seq<Option<F32Bits>>;

/// Samples that a queue was made to hold.
pub uninterp spec fn queue_limit(queue: SampleQueue) -> nat;

/// The samples that ever go into a queue, in order.
pub uninterp spec fn queue_flow(queue: SampleQueue) -> Seq<F32Bits>;

/// The samples that ever go into the queue behind a writer, in order.
pub uninterp spec fn writer_flow(end: SampleWriter) -> Seq<F32Bits>;

/// The samples that ever go into the queue behind a reader, in order.
pub uninterp spec fn reader_flow(end: SampleReader) -> Seq<F32Bits>;

/// One sequence is what is left of another when some of it is left out.
pub open spec fn subsequence(a: Seq<F32Bits>, b: Seq<F32Bits>) -> bool
    decreases b.len(),
{
    if a.len() == 0 {
        true
    } else if b.len() == 0 {
        false
    } else {
        ||| a.last() == b.last() && subsequence(a.drop_last(), b.drop_last())
        ||| subsequence(a, b.drop_last())
    }
}

/// The samples that were offered and taken.
pub open spec fn accepted(offers: Seq<(F32Bits, bool)>) -> Seq<F32Bits>
    decreases offers.len(),
{
    if offers.len() == 0 {
        Seq::empty()
    } else if offers.last().1 {
        accepted(offers.drop_last()).push(offers.last().0)
    } else {
        accepted(offers.drop_last())
    }
}

/// The samples that some looks found.
pub open spec fn samples_found(looks: Seq<Option<F32Bits>>) -> Seq<F32Bits>
    decreases looks.len(),
{
    if looks.len() == 0 {
        Seq::empty()
    } else {
        match looks.last() {
            Some(sample) => samples_found(looks.drop_last()).push(sample),
            None => samples_found(looks.drop_last()),
        }
    }
}

/// What was taken of a writer is in the queue's flow, in order.
pub open spec fn goes_in(end: SampleWriter) -> bool {
    subsequence(accepted(sample_offers(end)), writer_flow(end))
}

/// What a reader found is in the queue's flow, in order.
pub open spec fn comes_out(end: SampleReader) -> bool {
    subsequence(samples_found(sample_looks(end)), reader_flow(end))
}

/// `ArrayQueue::new`: an empty queue with room for `capacity` samples. A
/// queue without room cannot be made.
#[verifier::external_body]
fn queue_new(capacity: usize) -> (r: SampleQueue)
    requires
        capacity > 0,
    ensures
        queue_limit(r) == capacity,
{
    SampleQueue { inner: Arc::new(ArrayQueue::new(capacity)) }
}

/// Another handle on the same `ArrayQueue`, to write through: nothing has
/// been offered through it yet.
#[verifier::external_body]
fn queue_writer(queue: &SampleQueue) -> (r: SampleWriter)
    ensures
        sample_offers(r) == Seq::<(F32Bits, bool)>::empty(),
        writer_flow(r) == queue_flow(*queue),
{
    SampleWriter { queue: Arc::clone(&queue.inner) }
}

/// Another handle on the same `ArrayQueue`, to read through: nothing has been
/// looked for through it yet.
#[verifier::external_body]
fn queue_reader(queue: &SampleQueue) -> (r: SampleReader)
    ensures
        sample_looks(r) == Seq::<Option<F32Bits>>::empty(),
        reader_flow(r) == queue_flow(*queue),
{
    SampleReader { queue: Arc::clone(&queue.inner) }
}

/// `ArrayQueue::pop`: takes the oldest sample out, or none where the queue is
/// empty. So what one reader finds comes in the order in which it went in;
/// other readers may have found what lies between. Whether the queue is empty
/// is up to the other threads as well and left unsaid.
#[verifier::external_body]
fn queue_pop(end: &mut SampleReader) -> (r: Option<F32Bits>)
    ensures
        sample_looks(*final(end)) == sample_looks(*old(end)).push(r),
        reader_flow(*final(end)) == reader_flow(*old(end)),
        comes_out(*final(end)),
{
    end.queue.pop()
}

/// `ArrayQueue::push`: appends a sample, or hands it back where the queue is
/// full. So what one writer puts in stays in order; other writers may put
/// samples between. Whether the queue is full is up to the other threads as
/// well and left unsaid.
#[verifier::external_body]
fn queue_push(end: &mut SampleWriter, sample: F32Bits) -> (r: Result<(), F32Bits>)
    ensures
        r matches Err(back) ==> back == sample,
        sample_offers(*final(end)) == sample_offers(*old(end)).push((sample, r is Ok)),
        writer_flow(*final(end)) == writer_flow(*old(end)),
        goes_in(*final(end)),
{
    end.queue.push(sample)
}

impl SampleQueue {
    /// An empty queue.
    pub fn new(capacity: usize) -> (r: Self)
        requires
            capacity > 0,
        ensures
            queue_limit(r) == capacity,
    {
        queue_new(capacity)
    }

    /// An end of this queue for a decoder thread.
    pub fn writer(&self) -> (r: SampleWriter)
        ensures
            sample_offers(r) == Seq::<(F32Bits, bool)>::empty(),
            writer_flow(r) == queue_flow(*self),
    {
        queue_writer(self)
    }

    /// An end of this queue for the audio thread, or for draining.
    pub fn reader(&self) -> (r: SampleReader)
        ensures
            sample_looks(r) == Seq::<Option<F32Bits>>::empty(),
            reader_flow(r) == queue_flow(*self),
    {
        queue_reader(self)
    }
}

/// Outcome of a read.
#[derive(Clone, Copy, Debug, PartialEq, Eq, Structural)]
pub struct RingRead {
    /// Samples written, silence included.
    pub samples: usize,
    /// Whether silence had to stand in for samples.
    pub underrun: bool,
}

/// Fill `buf` from `from` on with silence.
pub fn silence_tail(buf: &mut [F32Bits], from: usize)
    requires
        from <= old(buf)@.len(),
    ensures
        final(buf)@.len() == old(buf)@.len(),
        forall|i: int| 0 <= i < from ==> final(buf)@[i] == old(buf)@[i],
        forall|i: int| from <= i < final(buf)@.len() ==> (#[trigger] final(buf)@[i]).bits
            == ZERO_BITS,
{
    let n: usize = buf.len();
    let mut i: usize = from;
    while i < n
        invariant
            from <= i <= n,
            n == buf@.len(),
            n == old(buf)@.len(),
            forall|j: int| 0 <= j < from ==> buf@[j] == old(buf)@[j],
            forall|j: int| from <= j < i ==> (#[trigger] buf@[j]).bits == ZERO_BITS,
        decreases n - i,
    {
        buf[i] = F32Bits { bits: ZERO_BITS };
        i += 1;
    }
}

/// So many samples of silence.
pub open spec fn silence(n: int) -> Seq<F32Bits> {
    Seq::new(n as nat, |i: int| F32Bits { bits: ZERO_BITS })
}

/// A read of `n` samples that found `popped`: those come first, silence
/// stands in for the rest, and the read tells so.
pub open spec fn read_of(popped: Seq<F32Bits>, n: int, buf: Seq<F32Bits>, r: RingRead) -> bool {
    &&& popped.len() <= n
    &&& buf == popped + silence(n - popped.len())
    &&& r.samples == n
    &&& r.underrun == (popped.len() < n)
}

/// The looks that find `popped`, where `n` samples are wanted: one for each
/// sample, and one more that finds none where there were too few.
pub open spec fn looks_of(popped: Seq<F32Bits>, n: int) -> Seq<Option<F32Bits>> {
    let found = Seq::new(popped.len(), |i: int| Some(popped[i]));
    if popped.len() < n {
        found.push(None)
    } else {
        found
    }
}

/// A reader that wanted `n` samples found `popped`: those are the next samples
/// of its queue that it gets, in order.
pub open spec fn looked(
    before: SampleReader,
    after: SampleReader,
    popped: Seq<F32Bits>,
    n: int,
) -> bool {
    &&& sample_looks(after) == sample_looks(before) + looks_of(popped, n)
    &&& reader_flow(after) == reader_flow(before)
    &&& n > 0 ==> comes_out(after)
}

proof fn lemma_looks_of_push(popped: Seq<F32Bits>, n: int, sample: F32Bits)
    requires
        popped.len() < n,
    ensures
        looks_of(popped, popped.len() as int).push(Some(sample)) == looks_of(
            popped.push(sample),
            popped.len() as int + 1,
        ),
        looks_of(popped, popped.len() as int).push(None) == looks_of(popped, n),
{
    assert(looks_of(popped, popped.len() as int).push(Some(sample)) =~= looks_of(
        popped.push(sample),
        popped.len() as int + 1,
    ));
}

/// Act on one look at the queue: write a sample to `at` and go on behind it,
/// or stop (`None`).
pub fn place_sample(buf: &mut [F32Bits], at: usize, popped: Option<F32Bits>) -> (r: Option<usize>)
    requires
        at < old(buf)@.len(),
    ensures
        match popped {
            Some(sample) => r == Some((at + 1) as usize) && final(buf)@ == old(buf)@.update(
                at as int,
                sample,
            ),
            None => r is None && final(buf)@ == old(buf)@,
        },
{
    match popped {
        Some(sample) => {
            buf[at] = sample;
            assert(buf@ =~= old(buf)@.update(at as int, sample));
            Some(at + 1)
        },
        None => None,
    }
}

/// Fill `buf` from a slot's queue: the samples that it gives, then silence.
/// One underrun is reported where silence was needed.
pub fn read_queue(queue: &mut SampleReader, buf: &mut [F32Bits]) -> (r: RingRead)
    ensures
        exists|popped: Seq<F32Bits>| #[trigger]
            read_of(popped, old(buf)@.len() as int, final(buf)@, r) && looked(
                *old(queue),
                *final(queue),
                popped,
                old(buf)@.len() as int,
            ),
{
    let n: usize = buf.len();
    let mut written: usize = 0;
    let ghost mut missed = false;
    let ghost before = sample_looks(*queue);
    assert(before + looks_of(buf@.take(0), 0) =~= before);
    while written < n
        invariant_except_break
            !missed,
        invariant
            written <= n,
            n == old(buf)@.len(),
            n == buf@.len(),
            before == sample_looks(*old(queue)),
            reader_flow(*queue) == reader_flow(*old(queue)),
            written > 0 || missed ==> comes_out(*queue),
            sample_looks(*queue) == before + looks_of(
                buf@.take(written as int),
                if missed {
                    n as int
                } else {
                    written as int
                },
            ),
        ensures
            written < n ==> missed,
        decreases n - written,
    {
        let ghost popped = buf@.take(written as int);
        let ghost so_far = looks_of(popped, written as int);
        let look: Option<F32Bits> = queue_pop(queue);
        proof {
            if let Some(sample) = look {
                lemma_looks_of_push(popped, n as int, sample);
                assert(before + so_far.push(look) =~= (before + so_far).push(look));
            } else {
                lemma_looks_of_push(popped, n as int, F32Bits { bits: ZERO_BITS });
                assert(before + so_far.push(look) =~= (before + so_far).push(look));
            }
        }
        match place_sample(buf, written, look) {
            Some(next) => {
                written = next;
                proof {
                    if let Some(sample) = look {
                        assert(buf@.take(written as int) =~= popped.push(sample));
                    }
                }
            },
            None => {
                proof {
                    missed = true;
                }
                break;
            },
        }
    }
    let ghost popped = buf@.take(written as int);
    silence_tail(buf, written);
    let r: RingRead = RingRead { samples: n, underrun: written < n };
    proof {
        assert(buf@ =~= popped + silence(n - written));
        assert(read_of(popped, old(buf)@.len() as int, buf@, r));
    }
    r
}

/// Read a slot's samples into `buf`, if it is open. Returns how many were
/// written, silence included, and whether silence was needed.
pub fn read_slot(open: bool, queue: &mut SampleReader, buf: &mut [F32Bits]) -> (r: RingRead)
    ensures
        if !open || old(buf)@.len() == 0 {
            &&& r == (RingRead { samples: 0, underrun: false })
            &&& final(buf)@ == old(buf)@
            &&& *final(queue) == *old(queue)
        } else {
            exists|popped: Seq<F32Bits>| #[trigger]
                read_of(popped, old(buf)@.len() as int, final(buf)@, r) && looked(
                    *old(queue),
                    *final(queue),
                    popped,
                    old(buf)@.len() as int,
                )
        },
{
    if !open || buf.len() == 0 {
        return RingRead { samples: 0, underrun: false };
    }
    read_queue(queue, buf)
}

/// A read through `handle` took the table from `before` to `after`, the
/// queues from `from` to `to` and the buffer from `old_buf` to `new_buf`. A
/// handle that reaches no open slot reads nothing; one that does fills the
/// buffer from its slot's queue, and a read that needed silence counts as one
/// underrun.
pub open spec fn read_through(
    before: SlotTable,
    after: SlotTable,
    from: Seq<SampleReader>,
    to: Seq<SampleReader>,
    handle: DecodeHandle,
    old_buf: Seq<F32Bits>,
    new_buf: Seq<F32Bits>,
    r: usize,
) -> bool {
    if old_buf.len() == 0 || before.reached(handle) is None {
        r == 0 && after == before && new_buf == old_buf && to == from
    } else {
        let slot = slot_of(handle);
        &&& r == old_buf.len()
        &&& to == from.update(slot, to[slot])
        &&& after.open_slots() == before.open_slots()
        &&& after.next_generation() == before.next_generation()
        &&& exists|popped: Seq<F32Bits>, read: RingRead| #[trigger]
            read_of(popped, old_buf.len() as int, new_buf, read) && looked(
                from[slot],
                to[slot],
                popped,
                old_buf.len() as int,
            ) && after.underrun_total() == (
            if read.underrun {
                (before.underrun_total() + 1) % 0x1_0000_0000_0000_0000
            } else {
                before.underrun_total()
            })
    }
}

/// Read a track's samples into `buf`. Returns how many were written, silence
/// included.
pub fn read_track(
    table: &mut SlotTable,
    queues: &mut Vec<SampleReader>,
    handle: DecodeHandle,
    buf: &mut [F32Bits],
) -> (r: usize)
    requires
        old(table).wf(),
        old(queues)@.len() == MAX_DECODE_SLOTS,
    ensures
        final(table).wf(),
        final(queues)@.len() == MAX_DECODE_SLOTS,
        read_through(
            *old(table),
            *final(table),
            old(queues)@,
            final(queues)@,
            handle,
            old(buf)@,
            final(buf)@,
            r,
        ),
{
    match table.slot_for(handle) {
        None => 0,
        Some(slot) => {
            let read: RingRead = read_slot(true, &mut queues[slot], buf);
            assert(queues@ =~= old(queues)@.update(slot as int, queues@[slot as int]));
            assert(old(buf)@.len() == 0 ==> queues@ =~= old(queues)@);
            if read.underrun {
                table.count_underrun();
            }
            read.samples
        },
    }
}

/// The handle to read one stem of a track through. A stem that is not filled
/// has none, and `buf` is filled with silence.
pub fn stem_to_read(stems: StemHandle, stem_idx: usize, buf: &mut [F32Bits]) -> (r: Option<
    DecodeHandle,
>)
    ensures
        if stem_idx < 4 && stems.0[stem_idx as int] != DecodeHandle::none_spec() {
            r == Some(stems.0[stem_idx as int]) && final(buf)@ == old(buf)@
        } else {
            r is None && final(buf)@ == silence(old(buf)@.len() as int)
        },
{
    let handle: DecodeHandle = stems.get(stem_idx);
    if handle.is_some() {
        return Some(handle);
    }
    silence_tail(buf, 0);
    assert(buf@ =~= silence(old(buf)@.len() as int));
    None
}

/// Read one stem of a track into `buf`; a stem that is not filled is silent.
pub fn read_stem(
    table: &mut SlotTable,
    queues: &mut Vec<SampleReader>,
    stems: StemHandle,
    stem_idx: usize,
    buf: &mut [F32Bits],
) -> (r: usize)
    requires
        old(table).wf(),
        old(queues)@.len() == MAX_DECODE_SLOTS,
    ensures
        final(table).wf(),
        final(queues)@.len() == MAX_DECODE_SLOTS,
        if stem_idx < 4 && stems.0[stem_idx as int] != DecodeHandle::none_spec() {
            read_through(
                *old(table),
                *final(table),
                old(queues)@,
                final(queues)@,
                stems.0[stem_idx as int],
                old(buf)@,
                final(buf)@,
                r,
            )
        } else {
            &&& r == old(buf)@.len()
            &&& *final(table) == *old(table)
            &&& final(queues)@ == old(queues)@
            &&& final(buf)@ == silence(old(buf)@.len() as int)
        },
{
    match stem_to_read(stems, stem_idx, buf) {
        Some(handle) => read_track(table, queues, handle, buf),
        None => buf.len(),
    }
}

/// Pop at most `limit` samples and drop them; stops at an empty queue.
pub fn drain_queue(queue: &mut SampleReader, limit: usize) -> (r: usize)
    ensures
        r <= limit,
        exists|dropped: Seq<F32Bits>|
            dropped.len() == r && #[trigger] looked(
                *old(queue),
                *final(queue),
                dropped,
                limit as int,
            ),
{
    let mut n: usize = 0;
    let ghost mut dropped = Seq::<F32Bits>::empty();
    let ghost before = sample_looks(*queue);
    assert(before + looks_of(dropped, 0) =~= before);
    while n < limit
        invariant
            n <= limit,
            dropped.len() == n,
            before == sample_looks(*old(queue)),
            reader_flow(*queue) == reader_flow(*old(queue)),
            n > 0 ==> comes_out(*queue),
            sample_looks(*queue) == before + looks_of(dropped, n as int),
        decreases limit - n,
    {
        let ghost so_far = looks_of(dropped, n as int);
        let look: Option<F32Bits> = queue_pop(queue);
        proof {
            assert(before + so_far.push(look) =~= (before + so_far).push(look));
            lemma_looks_of_push(
                dropped,
                limit as int,
                match look {
                    Some(sample) => sample,
                    None => F32Bits { bits: ZERO_BITS },
                },
            );
            if let Some(sample) = look {
                dropped = dropped.push(sample);
            }
        }
        match after_drop(n, look) {
            Some(more) => {
                n = more;
            },
            None => {
                assert(looked(*old(queue), *queue, dropped, limit as int));
                return n;
            },
        }
    }
    assert(looked(*old(queue), *queue, dropped, limit as int));
    n
}

/// Count a sample that was popped and dropped; none where the queue had none,
/// which ends the draining.
pub fn after_drop(n: usize, popped: Option<F32Bits>) -> (r: Option<usize>)
    requires
        n < usize::MAX,
    ensures
        r == (match popped {
            Some(_) => Some((n + 1) as usize),
            None => None::<usize>,
        }),
{
    match popped {
        Some(_) => Some(n + 1),
        None => None,
    }
}

/// Samples dropped before a decoder thread is joined, so that it does not
/// wait on a full queue.
pub const DRAIN_BEFORE_JOIN: usize = RING_SAMPLES_500MS / 8;

/// Whatever comes out of a queue went into it: every sample of a subsequence
/// is one of the whole.
pub proof fn subsequences_hold_nothing_else(a: Seq<F32Bits>, b: Seq<F32Bits>, i: int)
    requires
        subsequence(a, b),
        0 <= i < a.len(),
    ensures
        b.contains(a[i]),
    decreases b.len(),
{
    let rest = b.drop_last();
    if a.last() == b.last() && subsequence(a.drop_last(), rest) {
        if i == a.len() - 1 {
            assert(b[b.len() - 1] == a[i]);
        } else {
            subsequences_hold_nothing_else(a.drop_last(), rest, i);
            let k = choose|k: int| 0 <= k < rest.len() && rest[k] == a[i];
            assert(b[k] == a[i]);
        }
    } else {
        subsequences_hold_nothing_else(a, rest, i);
        let k = choose|k: int| 0 <= k < rest.len() && rest[k] == a[i];
        assert(b[k] == a[i]);
    }
}

/// Offer one sample to a slot's queue. A full queue gives it back, to be
/// offered again later.
pub fn offer_sample(queue: &mut SampleWriter, sample: F32Bits) -> (r: Option<F32Bits>)
    ensures
        r matches Some(back) ==> back == sample,
        sample_offers(*final(queue)) == sample_offers(*old(queue)).push((sample, r is None)),
        writer_flow(*final(queue)) == writer_flow(*old(queue)),
        goes_in(*final(queue)),
{
    left_over(queue_push(queue, sample))
}

/// What is left to offer again after a push.
pub fn left_over(pushed: Result<(), F32Bits>) -> (r: Option<F32Bits>)
    ensures
        r == (match pushed {
            Ok(_) => None::<F32Bits>,
            Err(back) => Some(back),
        }),
{
    match pushed {
        Ok(()) => None,
        Err(back) => Some(back),
    }
}

/// Left and right samples in turn, as far as both sides go.
pub open spec fn interleaved(left: Seq<F32Bits>, right: Seq<F32Bits>) -> Seq<F32Bits> {
    let n = if left.len() < right.len() {
        left.len()
    } else {
        right.len()
    };
    Seq::new(
        2 * n,
        |i: int|
            if i % 2 == 0 {
                left[i / 2]
            } else {
                right[i / 2]
            },
    )
}

/// Interleave two channels into stereo frames.
pub fn interleave(left: &Vec<F32Bits>, right: &Vec<F32Bits>) -> (r: Vec<F32Bits>)
    ensures
        r@ == interleaved(left@, right@),
{
    let n: usize = if left.len() < right.len() {
        left.len()
    } else {
        right.len()
    };
    let mut out: Vec<F32Bits> = Vec::new();
    let mut i: usize = 0;
    while i < n
        invariant
            i <= n,
            n <= left@.len(),
            n <= right@.len(),
            out@.len() == 2 * i,
            forall|j: int|
                0 <= j < 2 * i ==> #[trigger] out@[j] == (if j % 2 == 0 {
                    left@[j / 2]
                } else {
                    right@[j / 2]
                }),
        decreases n - i,
    {
        out.push(left[i]);
        out.push(right[i]);
        i += 1;
    }
    assert(out@ =~= interleaved(left@, right@));
    out
}

/// Each frame of an interleaving gives both its samples back.
pub proof fn interleaving_keeps_frames(left: Seq<F32Bits>, right: Seq<F32Bits>, i: int)
    requires
        0 <= i < left.len(),
        0 <= i < right.len(),
    ensures
        interleaved(left, right)[2 * i] == left[i],
        interleaved(left, right)[2 * i + 1] == right[i],
{
    assert((2 * i) % 2 == 0 && (2 * i) / 2 == i);
    assert((2 * i + 1) % 2 == 1 && (2 * i + 1) / 2 == i);
}

/// The channels that feed left and right: none of none, one twice, of more
/// the first two.
pub open spec fn stereo_channels(channels: int) -> Option<(int, int)> {
    if channels == 0 {
        None
    } else if channels == 1 {
        Some((0, 0))
    } else {
        Some((0, 1))
    }
}

/// At most `n` leading samples.
pub open spec fn at_most(s: Seq<F32Bits>, n: int) -> Seq<F32Bits> {
    if n < s.len() {
        s.take(n)
    } else {
        s
    }
}

/// Append the first `frames` frames of a decoded buffer to two channels. A
/// mono buffer feeds both; of more than two channels the first two count.
pub fn fill_stereo(
    channels: &Vec<Vec<F32Bits>>,
    frames: usize,
    left: &mut Vec<F32Bits>,
    right: &mut Vec<F32Bits>,
)
    ensures
        match stereo_channels(channels@.len() as int) {
            None => final(left)@ == old(left)@ && final(right)@ == old(right)@,
            Some((a, b)) => {
                let n = shorter(
                    at_most(channels@[a]@, frames as int).len() as int,
                    at_most(channels@[b]@, frames as int).len() as int,
                );
                &&& final(left)@ == old(left)@ + channels@[a]@.take(n)
                &&& final(right)@ == old(right)@ + channels@[b]@.take(n)
            },
        },
        channels@.len() == 1 && frames <= channels@[0]@.len() ==> final(left)@ == old(left)@
            + channels@[0]@.take(frames as int) && final(right)@ == old(right)@
            + channels@[0]@.take(frames as int),
        channels@.len() >= 2 && frames <= channels@[0]@.len() && frames <= channels@[1]@.len()
            ==> final(left)@ == old(left)@ + channels@[0]@.take(frames as int) && final(right)@
            == old(right)@ + channels@[1]@.take(frames as int),
{
    if channels.len() == 0 {
        return;
    }
    let a: &Vec<F32Bits> = &channels[0];
    let b: &Vec<F32Bits> = if channels.len() == 1 {
        &channels[0]
    } else {
        &channels[1]
    };
    let mut i: usize = 0;
    assert(left@ =~= old(left)@ + a@.take(0));
    assert(right@ =~= old(right)@ + b@.take(0));
    while i < frames && i < a.len() && i < b.len()
        invariant
            i <= frames,
            i <= a@.len(),
            i <= b@.len(),
            left@ == old(left)@ + a@.take(i as int),
            right@ == old(right)@ + b@.take(i as int),
        decreases frames - i,
    {
        left.push(a[i]);
        right.push(b[i]);
        assert(left@ =~= old(left)@ + a@.take(i + 1));
        assert(right@ =~= old(right)@ + b@.take(i + 1));
        i += 1;
    }
}

/// The smaller of two lengths.
pub open spec fn shorter(a: int, b: int) -> int {
    if a < b {
        a
    } else {
        b
    }
}

/// `want` samples from `pos` on, filled up with silence.
pub open spec fn padded_chunk(s: Seq<F32Bits>, pos: int, want: int) -> Seq<F32Bits> {
    Seq::new(
        want as nat,
        |i: int|
            if pos + i < s.len() {
                s[pos + i]
            } else {
                F32Bits { bits: ZERO_BITS }
            },
    )
}

/// Cut the next chunk for a resampler that takes `want` samples at a time;
/// the last chunk is filled up with silence.
pub fn chunk_at(s: &Vec<F32Bits>, pos: usize, want: usize) -> (r: Vec<F32Bits>)
    requires
        pos <= s@.len(),
    ensures
        r@ == padded_chunk(s@, pos as int, want as int),
{
    let mut out: Vec<F32Bits> = Vec::new();
    let n: usize = s.len();
    let mut i: usize = 0;
    while i < want
        invariant
            i <= want,
            pos <= n,
            n == s@.len(),
            out@.len() == i,
            forall|j: int|
                0 <= j < i ==> #[trigger] out@[j] == (if pos + j < s@.len() {
                    s@[pos + j]
                } else {
                    F32Bits { bits: ZERO_BITS }
                }),
        decreases want - i,
    {
        if i < n - pos {
            out.push(s[pos + i]);
        } else {
            out.push(F32Bits { bits: ZERO_BITS });
        }
        i += 1;
    }
    assert(out@ =~= padded_chunk(s@, pos as int, want as int));
    out
}

/// Where the chunk after the one at `pos` begins; none behind the last.
pub fn next_chunk(len: usize, pos: usize, want: usize) -> (r: Option<usize>)
    requires
        pos < len,
        want > 0,
    ensures
        r == (if pos + want < len {
            Some((pos + want) as usize)
        } else {
            None::<usize>
        }),
{
    if want < len - pos {
        Some(pos + want)
    } else {
        None
    }
}

/// The chunks of a signal hold all of it, in order: sample `i` stands in
/// chunk `i / want`, at `i % want`.
pub proof fn chunks_cover_the_signal(s: Seq<F32Bits>, want: int, i: int)
    requires
        want > 0,
        0 <= i < s.len(),
    ensures
        padded_chunk(s, (i / want) * want, want)[i % want] == s[i],
        (i / want) * want <= i,
{
    vstd::arithmetic::div_mod::lemma_fundamental_div_mod(i, want);
    vstd::arithmetic::mul::lemma_mul_is_commutative(want, i / want);
}

/// A part of a sequence is no longer than the whole, and keeps its order: two
/// samples of it stand in the whole one before the other.
pub proof fn subsequences_keep_their_order(
    a: Seq<F32Bits>,
    b: Seq<F32Bits>,
    i: int,
    j: int,
) -> (at: (int, int))
    requires
        subsequence(a, b),
        0 <= i < j < a.len(),
    ensures
        a.len() <= b.len(),
        0 <= at.0 < at.1 < b.len(),
        b[at.0] == a[i],
        b[at.1] == a[j],
    decreases b.len(),
{
    lemma_subsequence_len(a, b);
    let rest = b.drop_last();
    if a.last() == b.last() && subsequence(a.drop_last(), rest) {
        if j == a.len() - 1 {
            subsequences_hold_nothing_else(a.drop_last(), rest, i);
            let k = choose|k: int| 0 <= k < rest.len() && rest[k] == a.drop_last()[i];
            (k, b.len() - 1)
        } else {
            subsequences_keep_their_order(a.drop_last(), rest, i, j)
        }
    } else {
        subsequences_keep_their_order(a, rest, i, j)
    }
}

proof fn lemma_subsequence_len(a: Seq<F32Bits>, b: Seq<F32Bits>)
    requires
        subsequence(a, b),
    ensures
        a.len() <= b.len(),
    decreases b.len(),
{
    if a.len() > 0 {
        let rest = b.drop_last();
        if a.last() == b.last() && subsequence(a.drop_last(), rest) {
            lemma_subsequence_len(a.drop_last(), rest);
        } else {
            lemma_subsequence_len(a, rest);
        }
    }
}

/// What of some offers was taken: each sample that was, in order.
pub proof fn offers_count_when_taken(offers: Seq<(F32Bits, bool)>, sample: F32Bits)
    ensures
        accepted(Seq::empty()) == Seq::<F32Bits>::empty(),
        accepted(offers.push((sample, true))) == accepted(offers).push(sample),
        accepted(offers.push((sample, false))) == accepted(offers),
{
    assert(offers.push((sample, true)).drop_last() =~= offers);
    assert(offers.push((sample, false)).drop_last() =~= offers);
}

/// What some looks found: each sample that one did, in order.
pub proof fn looks_count_when_they_find(looks: Seq<Option<F32Bits>>, sample: F32Bits)
    ensures
        samples_found(Seq::empty()) == Seq::<F32Bits>::empty(),
        samples_found(looks.push(Some(sample))) == samples_found(looks).push(sample),
        samples_found(looks.push(None)) == samples_found(looks),
{
    assert(looks.push(Some(sample)).drop_last() =~= looks);
    assert(looks.push(None).drop_last() =~= looks);
}

proof fn lemma_found_more(looks: Seq<Option<F32Bits>>, popped: Seq<F32Bits>)
    ensures
        samples_found(looks + Seq::new(popped.len(), |i: int| Some(popped[i]))) == samples_found(
            looks,
        ) + popped,
    decreases popped.len(),
{
    let all = Seq::new(popped.len(), |i: int| Some(popped[i]));
    if popped.len() == 0 {
        assert(looks + all =~= looks);
        assert(samples_found(looks) + popped =~= samples_found(looks));
    } else {
        let rest = popped.drop_last();
        let most = Seq::new(rest.len(), |i: int| Some(rest[i]));
        lemma_found_more(looks, rest);
        assert((looks + all).drop_last() =~= looks + most);
        assert((samples_found(looks) + rest).push(popped.last()) =~= samples_found(looks) + popped);
    }
}

/// A reader that wanted some samples and found `popped` has found those, in
/// order, behind all that it found before; and they went through its queue.
pub proof fn readers_find_what_they_looked_for(
    before: SampleReader,
    after: SampleReader,
    popped: Seq<F32Bits>,
    n: int,
)
    requires
        looked(before, after, popped, n),
        popped.len() <= n,
    ensures
        samples_found(sample_looks(after)) == samples_found(sample_looks(before)) + popped,
        reader_flow(after) == reader_flow(before),
        popped.len() < n ==> sample_looks(after).last() is None,
        n > 0 ==> subsequence(samples_found(sample_looks(after)), reader_flow(after)),
{
    let found = Seq::new(popped.len(), |i: int| Some(popped[i]));
    let looks = sample_looks(before);
    lemma_found_more(looks, popped);
    if popped.len() < n {
        assert(looks + found.push(None) =~= (looks + found).push(None));
        assert((looks + found).push(None).drop_last() =~= looks + found);
    }
}

/// A read fills the whole buffer: first what was found, then silence; and it
/// tells that silence was needed just where too little was found.
pub proof fn reads_fill_up_with_silence(
    popped: Seq<F32Bits>,
    n: int,
    buf: Seq<F32Bits>,
    r: RingRead,
    k: int,
)
    requires
        read_of(popped, n, buf, r),
        0 <= k < n,
    ensures
        buf.len() == n,
        r.samples == n,
        popped.len() <= n,
        k < popped.len() ==> buf[k] == popped[k],
        k >= popped.len() ==> buf[k].bits == 0,
        r.underrun <==> popped.len() < n,
{
}

/// Silence is so many zeros.
pub proof fn silence_is_zeros(n: int, k: int)
    requires
        0 <= k < n,
    ensures
        silence(n).len() == n,
        silence(n)[k].bits == 0,
{
}

/// A read through a handle of an open slot fills the buffer from the queue of
/// that slot and touches no other; one through any other handle does nothing.
pub proof fn reads_go_to_the_handles_slot(
    before: SlotTable,
    after: SlotTable,
    from: Seq<SampleReader>,
    to: Seq<SampleReader>,
    handle: DecodeHandle,
    old_buf: Seq<F32Bits>,
    new_buf: Seq<F32Bits>,
    r: usize,
    other: int,
) -> (popped: Seq<F32Bits>)
    requires
        read_through(before, after, from, to, handle, old_buf, new_buf, r),
        0 <= slot_of(handle) < from.len(),
        0 <= other < from.len(),
    ensures
        before.reached(handle) is None || old_buf.len() == 0 ==> r == 0 && new_buf == old_buf && to
            == from && after == before,
        before.reached(handle) is Some && old_buf.len() > 0 ==> {
            let slot = slot_of(handle);
            &&& r == old_buf.len()
            &&& new_buf.len() == old_buf.len()
            &&& popped.len() <= new_buf.len()
            &&& forall|k: int| 0 <= k < popped.len() ==> #[trigger] new_buf[k] == popped[k]
            &&& forall|k: int|
                popped.len() <= k < new_buf.len() ==> (#[trigger] new_buf[k]).bits == 0
            &&& samples_found(sample_looks(to[slot])) == samples_found(sample_looks(from[slot]))
                + popped
            &&& other != slot ==> to[other] == from[other]
            &&& after.open_slots() == before.open_slots()
            &&& popped.len() == old_buf.len() ==> after.underrun_total() == before.underrun_total()
            &&& popped.len() < old_buf.len() ==> after.underrun_total() == (before.underrun_total()
                + 1) % 0x1_0000_0000_0000_0000
        },
{
    if before.reached(handle) is Some && old_buf.len() > 0 {
        let slot = slot_of(handle);
        let n = old_buf.len() as int;
        let (popped, read) = choose|popped: Seq<F32Bits>, read: RingRead| #[trigger]
            read_of(popped, n, new_buf, read) && looked(from[slot], to[slot], popped, n)
                && after.underrun_total() == (if read.underrun {
                (before.underrun_total() + 1) % 0x1_0000_0000_0000_0000
            } else {
                before.underrun_total()
            });
        readers_find_what_they_looked_for(from[slot], to[slot], popped, n);
        popped
    } else {
        Seq::empty()
    }
}

/// Interleaving takes as many frames as both channels have.
pub proof fn interleaving_stops_at_the_shorter(left: Seq<F32Bits>, right: Seq<F32Bits>)
    ensures
        interleaved(left, right).len() <= 2 * left.len(),
        interleaved(left, right).len() <= 2 * right.len(),
        interleaved(left, right).len() == 2 * left.len() || interleaved(left, right).len() == 2
            * right.len(),
{
}

/// A mono buffer feeds both sides, and of more channels the first is left and
/// the second right; no channel is none.
pub proof fn first_channels_are_left_and_right(channels: int)
    requires
        0 <= channels,
    ensures
        channels == 0 <==> stereo_channels(channels) is None,
        channels == 1 ==> stereo_channels(channels) == Some((0int, 0int)),
        channels >= 2 ==> stereo_channels(channels) == Some((0int, 1int)),
{
}

/// A cut keeps the beginning, and all of what is short enough; the shorter of
/// two lengths is one of them, and no longer than either.
pub proof fn cuts_keep_the_beginning(s: Seq<F32Bits>, n: int, a: int, b: int)
    requires
        0 <= n,
    ensures
        at_most(s, n).is_prefix_of(s),
        at_most(s, n).len() <= n,
        at_most(s, n).len() == n || at_most(s, n) == s,
        shorter(a, b) <= a,
        shorter(a, b) <= b,
        shorter(a, b) == a || shorter(a, b) == b,
{
    assert(at_most(s, n) =~= s.take(at_most(s, n).len() as int));
}

/// A chunk has the length that is wanted: the signal from its position on, as
/// far as that goes, and silence behind it.
pub proof fn chunks_are_filled_up(s: Seq<F32Bits>, pos: int, want: int, i: int)
    requires
        0 <= pos,
        0 <= i < want,
    ensures
        padded_chunk(s, pos, want).len() == want,
        pos + i < s.len() ==> padded_chunk(s, pos, want)[i] == s[pos + i],
        pos + i >= s.len() ==> padded_chunk(s, pos, want)[i].bits == 0,
{
}

/// Whatever part of a flow was taken stays a part of it as the flow goes on,
/// and a sample that both go on with is one more of that part.
pub proof fn subsequences_grow_with_the_flow(a: Seq<F32Bits>, b: Seq<F32Bits>, x: F32Bits)
    requires
        subsequence(a, b),
    ensures
        subsequence(Seq::empty(), b),
        subsequence(a, b.push(x)),
        subsequence(a.push(x), b.push(x)),
{
    assert(b.push(x).drop_last() =~= b);
    assert(a.push(x).drop_last() =~= a);
}

} // verus!
