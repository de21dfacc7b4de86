//! Schedule of a time stretch by overlap-add.
//!
//! Input is queued, windows are taken from the queue at the analysis hop, and
//! each window yields one synthesis hop of output. This module keeps the
//! queue, decides when a window can be taken and where a hop of output goes;
//! matching and adding windows is arithmetic on the samples and happens
//! outside.
use vstd::prelude::*;

use crate::f32_bits::{F32Bits, ZERO_BITS};

verus! {

/// Samples in a window.
pub const DEFAULT_WINDOW_SIZE: usize = 1024;

/// Samples between two windows of output.
pub const DEFAULT_HOP_OUT: usize = 512;

/// Samples ahead of the read position that are searched for a match.
pub const DEFAULT_SEARCH_RANGE: usize = 256;

/// Samples that the input queue holds.
pub const RING_LEN: usize = (DEFAULT_WINDOW_SIZE + DEFAULT_SEARCH_RANGE + DEFAULT_HOP_OUT * 4) * 2;

/// What is queued: the samples not read yet, and how many samples to come
/// have been skipped already.
pub struct QueueView {
    pub unread: Seq<F32Bits>,
    pub skip: nat,
}

/// The last `n` samples, or all of them.
pub open spec fn last_samples(s: Seq<F32Bits>, n: int) -> Seq<F32Bits> {
    if s.len() > n {
        s.skip(s.len() - n)
    } else {
        s
    }
}

/// The smaller of two numbers.
pub open spec fn lesser(a: int, b: int) -> int {
    if a < b {
        a
    } else {
        b
    }
}

/// The queue after `input` was appended. Where it overflows, the oldest
/// samples are lost.
pub open spec fn refilled(q: QueueView, input: Seq<F32Bits>) -> QueueView {
    if input.len() == 0 {
        q
    } else if input.len() >= RING_LEN {
        QueueView { unread: last_samples(input, RING_LEN as int), skip: 0 }
    } else {
        let gone = lesser(q.skip as int, input.len() as int);
        QueueView {
            unread: last_samples(q.unread + input.skip(gone), RING_LEN as int),
            skip: (q.skip - gone) as nat,
        }
    }
}

/// The queue after `n` samples were read; what is missing is skipped later.
pub open spec fn consumed(q: QueueView, n: int) -> QueueView {
    let now = lesser(n, q.unread.len() as int);
    QueueView { unread: q.unread.skip(now), skip: (q.skip + n - now) as nat }
}

/// State of one stretched channel.
pub struct Wsola {
    window_size: usize,
    hop_size_out: usize,
    hop_size_in: usize,
    search_range: usize,
    in_ring: Vec<F32Bits>,
    /// End of the queued samples in `in_ring`.
    in_ring_w: usize,
    /// Read position in `in_ring`; past the end where samples to come are
    /// skipped.
    in_ring_r: usize,
    primed: bool,
    pending_emit: Vec<F32Bits>,
    pending_emit_len: usize,
    sample_rate: u32,
}

impl Wsola {
    /// The positions lie in their buffers.
    pub closed spec fn wf(&self) -> bool {
        &&& self.in_ring@.len() == RING_LEN
        &&& self.in_ring_w <= RING_LEN
        &&& self.in_ring_r <= RING_LEN + 8 * self.hop_size_out
        &&& self.in_ring_r > self.in_ring_w ==> self.in_ring_r - self.in_ring_w <= 8
            * self.hop_size_out
        &&& 0 < self.hop_size_out <= self.window_size
        &&& self.hop_size_out <= usize::MAX / 16
        &&& 1 <= self.hop_size_in <= 8 * self.hop_size_out
        &&& self.search_range <= self.window_size
        &&& self.window_size <= usize::MAX / 2
        &&& self.pending_emit@.len() == self.hop_size_out
        &&& self.pending_emit_len <= self.hop_size_out
    }

    /// The queued input.
    pub closed spec fn queue(&self) -> QueueView {
        let r = lesser(self.in_ring_r as int, self.in_ring_w as int);
        QueueView {
            unread: self.in_ring@.subrange(r, self.in_ring_w as int),
            skip: (self.in_ring_r - r) as nat,
        }
    }

    /// Finished output that the caller had no room for.
    pub closed spec fn pending(&self) -> Seq<F32Bits> {
        self.pending_emit@.take(self.pending_emit_len as int)
    }

    /// Samples in a window.
    pub closed spec fn window(&self) -> nat {
        self.window_size as nat
    }

    /// Samples between two windows of output.
    pub closed spec fn hop_out(&self) -> nat {
        self.hop_size_out as nat
    }

    /// Samples between two windows of input.
    pub closed spec fn hop_in(&self) -> nat {
        self.hop_size_in as nat
    }

    /// Samples searched for a match.
    pub closed spec fn search(&self) -> nat {
        self.search_range as nat
    }

    /// Whether a window has been taken since the start.
    pub closed spec fn is_primed(&self) -> bool {
        self.primed
    }

    /// Sample rate of the channel.
    pub closed spec fn rate(&self) -> u32 {
        self.sample_rate
    }

    /// The three sizes, the hop of input and the rate are those of `other`.
    pub open spec fn same_sizes(&self, other: &Wsola) -> bool {
        &&& self.rate() == other.rate()
        &&& self.window() == other.window()
        &&& self.hop_out() == other.hop_out()
        &&& self.hop_in() == other.hop_in()
        &&& self.search() == other.search()
    }

    /// An empty channel at the original speed.
    pub fn new(
        window_size: usize,
        hop_size_out: usize,
        search_range: usize,
        sample_rate: u32,
    ) -> (r: Self)
        requires
            window_size > 0,
            0 < hop_size_out <= window_size,
            search_range <= window_size,
            window_size <= usize::MAX / 2,
            hop_size_out <= usize::MAX / 16,
        ensures
            r.wf(),
            r.window() == window_size,
            r.hop_out() == hop_size_out,
            r.hop_in() == hop_size_out,
            r.search() == search_range,
            r.rate() == sample_rate,
            r.queue().unread == Seq::<F32Bits>::empty(),
            r.queue().skip == 0,
            r.pending() == Seq::<F32Bits>::empty(),
            !r.is_primed(),
    {
        let r = Wsola {
            window_size,
            hop_size_out,
            hop_size_in: hop_size_out,
            search_range,
            in_ring: zeros(RING_LEN),
            in_ring_w: 0,
            in_ring_r: 0,
            primed: false,
            pending_emit: zeros(hop_size_out),
            pending_emit_len: 0,
            sample_rate,
        };
        assert(r.queue().unread =~= Seq::<F32Bits>::empty());
        assert(r.pending() =~= Seq::<F32Bits>::empty());
        r
    }

    /// A channel with the default sizes.
    pub fn with_defaults(sample_rate: u32) -> (r: Self)
        ensures
            r.wf(),
            r.window() == DEFAULT_WINDOW_SIZE,
            r.hop_out() == DEFAULT_HOP_OUT,
            r.hop_in() == DEFAULT_HOP_OUT,
            r.search() == DEFAULT_SEARCH_RANGE,
            r.rate() == sample_rate,
            r.queue().unread == Seq::<F32Bits>::empty(),
            r.queue().skip == 0,
            r.pending() == Seq::<F32Bits>::empty(),
            !r.is_primed(),
    {
        Wsola::new(DEFAULT_WINDOW_SIZE, DEFAULT_HOP_OUT, DEFAULT_SEARCH_RANGE, sample_rate)
    }

    /// Set the hop of input from its ideal length, confined to between one
    /// sample and eight hops of output.
    pub fn set_hop_in(&mut self, ideal: i64)
        requires
            old(self).wf(),
        ensures
            final(self).wf(),
            final(self).hop_in() == (if ideal < 1 {
                1
            } else if ideal > 8 * old(self).hop_out() {
                8 * old(self).hop_out() as int
            } else {
                ideal as int
            }),
            final(self).queue() == old(self).queue(),
            final(self).pending() == old(self).pending(),
            final(self).is_primed() == old(self).is_primed(),
            final(self).window() == old(self).window(),
            final(self).hop_out() == old(self).hop_out(),
            final(self).search() == old(self).search(),
            final(self).rate() == old(self).rate(),
    {
        let max_hop: usize = self.hop_size_out * 8;
        self.hop_size_in =
        if ideal < 1 {
            1
        } else if (ideal as u64) > max_hop as u64 {
            max_hop
        } else {
            ideal as usize
        };
    }

    /// Samples between two windows of input.
    pub fn hop_size_in(&self) -> (r: usize)
        ensures
            r == self.hop_in(),
    {
        self.hop_size_in
    }

    /// Samples between two windows of output.
    pub fn hop_size_out(&self) -> (r: usize)
        ensures
            r == self.hop_out(),
    {
        self.hop_size_out
    }

    /// Samples in a window.
    pub fn window_size(&self) -> (r: usize)
        ensures
            r == self.window(),
    {
        self.window_size
    }

    /// Samples searched for a match.
    pub fn search_range(&self) -> (r: usize)
        ensures
            r == self.search(),
    {
        self.search_range
    }

    /// Whether a window has been taken since the start.
    pub fn primed(&self) -> (r: bool)
        ensures
            r == self.is_primed(),
    {
        self.primed
    }

    /// Finished samples that wait for room.
    pub fn pending_len(&self) -> (r: usize)
        requires
            self.wf(),
        ensures
            r == self.pending().len(),
    {
        self.pending_emit_len
    }

    /// Drop everything queued and pending.
    pub fn reset(&mut self)
        requires
            old(self).wf(),
        ensures
            final(self).wf(),
            final(self).queue().unread == Seq::<F32Bits>::empty(),
            final(self).queue().skip == 0,
            final(self).pending() == Seq::<F32Bits>::empty(),
            !final(self).is_primed(),
            final(self).same_sizes(old(self)),
    {
        self.in_ring_w = 0;
        self.in_ring_r = 0;
        self.pending_emit_len = 0;
        self.primed = false;
        self.in_ring = zeros(RING_LEN);
        self.pending_emit = zeros(self.hop_size_out);
        assert(self.queue().unread =~= Seq::<F32Bits>::empty());
        assert(self.pending() =~= Seq::<F32Bits>::empty());
    }

    /// Move the unread samples to the start of the buffer.
    fn compact_ring(&mut self)
        requires
            old(self).wf(),
        ensures
            final(self).wf(),
            final(self).queue() == old(self).queue(),
            final(self).pending() == old(self).pending(),
            final(self).is_primed() == old(self).is_primed(),
            final(self).same_sizes(old(self)),
            final(self).in_ring_w == old(self).queue().unread.len(),
            final(self).in_ring_r == old(self).queue().skip,
    {
        let r: usize = if self.in_ring_r < self.in_ring_w {
            self.in_ring_r
        } else {
            self.in_ring_w
        };
        let live: usize = self.in_ring_w - r;
        move_down(&mut self.in_ring, r, live);
        self.in_ring_r = self.in_ring_r - r;
        self.in_ring_w = live;
        assert(self.queue().unread =~= old(self).queue().unread);
    }

    /// Append input to the queue.
    pub fn refill_input_ring(&mut self, input: &[F32Bits])
        requires
            old(self).wf(),
        ensures
            final(self).wf(),
            final(self).queue() == refilled(old(self).queue(), input@),
            final(self).pending() == old(self).pending(),
            final(self).is_primed() == old(self).is_primed(),
            final(self).same_sizes(old(self)),
    {
        let n: usize = input.len();
        if n == 0 {
            return;
        }
        if n >= RING_LEN {
            copy_in(&mut self.in_ring, 0, input, n - RING_LEN, RING_LEN);
            self.in_ring_w = RING_LEN;
            self.in_ring_r = 0;
            assert(self.queue().unread =~= last_samples(input@, RING_LEN as int));
            return;
        }
        let ghost q = self.queue();
        self.make_room(n);
        let ghost held = self.queue();
        self.append(input);
        proof {
            let gone = lesser(q.skip as int, n as int);
            assert(held.unread + input@.skip(gone) =~= last_samples(
                q.unread + input@.skip(gone),
                RING_LEN as int,
            ));
        }
    }

    /// Make room for `n` more samples, dropping the oldest unread ones where
    /// the queue is too full.
    fn make_room(&mut self, n: usize)
        requires
            old(self).wf(),
            0 < n < RING_LEN,
        ensures
            final(self).wf(),
            final(self).in_ring_w + n <= RING_LEN,
            final(self).queue().unread == last_samples(old(self).queue().unread, RING_LEN - n),
            final(self).queue().skip == old(self).queue().skip,
            old(self).queue().skip > 0 ==> old(self).queue().unread.len() == 0,
            final(self).pending() == old(self).pending(),
            final(self).is_primed() == old(self).is_primed(),
            final(self).same_sizes(old(self)),
    {
        if self.in_ring_w + n > RING_LEN {
            self.compact_ring();
        }
        let ghost q = self.queue();
        if self.in_ring_w + n > RING_LEN {
            let overflow: usize = self.in_ring_w + n - RING_LEN;
            let keep: usize = self.in_ring_w - overflow;
            move_down(&mut self.in_ring, overflow, keep);
            self.in_ring_w = keep;
            assert(self.queue().unread =~= q.unread.skip(overflow as int));
        }
    }

    /// Append samples to a queue with room for them.
    fn append(&mut self, input: &[F32Bits])
        requires
            old(self).wf(),
            old(self).in_ring_w + input@.len() <= RING_LEN,
        ensures
            final(self).wf(),
            ({
                let q = old(self).queue();
                let gone = lesser(q.skip as int, input@.len() as int);
                &&& final(self).queue().unread == q.unread + input@.skip(gone)
                &&& final(self).queue().skip == q.skip - gone
            }),
            final(self).pending() == old(self).pending(),
            final(self).is_primed() == old(self).is_primed(),
            final(self).same_sizes(old(self)),
    {
        let w: usize = self.in_ring_w;
        let n: usize = input.len();
        copy_in(&mut self.in_ring, w, input, 0, n);
        self.in_ring_w = w + n;
        proof {
            let q = old(self).queue();
            let gone = lesser(q.skip as int, n as int);
            assert(self.queue().unread =~= q.unread + input@.skip(gone));
        }
    }

    /// Copy pending output to the start of `output`. Returns how many samples
    /// that were.
    pub fn drain_pending(&mut self, output: &mut [F32Bits]) -> (r: usize)
        requires
            old(self).wf(),
        ensures
            final(self).wf(),
            r == lesser(old(self).pending().len() as int, old(output)@.len() as int),
            final(output)@ == old(self).pending().take(r as int) + old(output)@.skip(r as int),
            final(self).pending() == old(self).pending().skip(r as int),
            final(self).queue() == old(self).queue(),
            final(self).is_primed() == old(self).is_primed(),
            final(self).same_sizes(old(self)),
    {
        let room: usize = output.len();
        let n: usize = if self.pending_emit_len < room {
            self.pending_emit_len
        } else {
            room
        };
        let mut i: usize = 0;
        assert(output@ =~= self.pending().take(0) + old(output)@.skip(0));
        while i < n
            invariant
                i <= n,
                n <= self.pending_emit_len <= self.pending_emit@.len(),
                n <= output@.len(),
                output@.len() == old(output)@.len(),
                *self == *old(self),
                output@ == self.pending().take(i as int) + old(output)@.skip(i as int),
            decreases n - i,
        {
            output[i] = self.pending_emit[i];
            assert(output@ =~= self.pending().take(i + 1) + old(output)@.skip(i + 1));
            i += 1;
        }
        let left: usize = self.pending_emit_len - n;
        move_down(&mut self.pending_emit, n, left);
        self.pending_emit_len = left;
        assert(self.pending() =~= old(self).pending().skip(n as int));
        assert(self.queue().unread =~= old(self).queue().unread);
        n
    }

    /// Whether the next window can be taken: nothing is pending and a window
    /// fits behind every offset of the search.
    pub open spec fn ready_spec(&self) -> bool {
        self.pending().len() == 0 && self.queue().unread.len() >= self.window() + self.search()
    }

    /// Whether the next window can be taken.
    pub fn ready(&self) -> (r: bool)
        requires
            self.wf(),
        ensures
            r == self.ready_spec(),
            r <==> self.pending().len() == 0 && self.queue().unread.len() >= self.window()
                + self.search(),
    {
        if self.pending_emit_len > 0 {
            return false;
        }
        let avail: usize = if self.in_ring_r < self.in_ring_w {
            self.in_ring_w - self.in_ring_r
        } else {
            0
        };
        avail >= self.window_size + self.search_range
    }

    /// Copy the window that begins `offset` samples behind the read position
    /// into `out`, in place of what it held.
    pub fn window_at(&self, offset: usize, out: &mut Vec<F32Bits>)
        requires
            self.wf(),
            self.ready_spec(),
            offset <= self.search(),
        ensures
            final(out)@ == self.queue().unread.subrange(offset as int, offset + self.window()),
    {
        out.clear();
        let base: usize = self.in_ring_r + offset;
        let mut i: usize = 0;
        while i < self.window_size
            invariant
                self.wf(),
                base == self.in_ring_r + offset,
                offset <= self.search_range,
                i <= self.window_size,
                self.in_ring_w - self.in_ring_r >= self.window_size + self.search_range,
                out@.len() == i,
                forall|j: int| 0 <= j < i ==> #[trigger] out@[j] == self.in_ring@[base + j],
            decreases self.window_size - i,
        {
            out.push(self.in_ring[base + i]);
            i += 1;
        }
        assert(out@ =~= self.queue().unread.subrange(offset as int, offset + self.window()));
    }

    /// The unread sample at `i`.
    pub fn sample_at(&self, i: usize) -> (r: F32Bits)
        requires
            self.wf(),
            i < self.queue().unread.len(),
        ensures
            r == self.queue().unread[i as int],
    {
        self.in_ring[self.in_ring_r + i]
    }

    /// Hand one finished hop out: as much as fits behind the `written`
    /// samples of `output`, the rest becomes pending. The read position moves
    /// on by the hop of input. Returns how many samples of `output` are
    /// written then.
    pub fn emit_hop(&mut self, hop: &Vec<F32Bits>, output: &mut [F32Bits], written: usize) -> (r:
        usize)
        requires
            old(self).wf(),
            old(self).ready_spec(),
            hop@.len() == old(self).hop_out(),
            written <= old(output)@.len(),
        ensures
            final(self).wf(),
            r == lesser(written + hop@.len(), old(output)@.len() as int),
            final(output)@ == old(output)@.take(written as int) + hop@.take(r - written)
                + old(output)@.skip(r as int),
            final(self).pending() == hop@.skip(r - written),
            final(self).queue() == consumed(old(self).queue(), old(self).hop_in() as int),
            final(self).is_primed(),
            final(self).same_sizes(old(self)),
    {
        let room: usize = output.len() - written;
        let n: usize = if self.hop_size_out < room {
            self.hop_size_out
        } else {
            room
        };
        let mut i: usize = 0;
        assert(output@ =~= old(output)@.take(written as int) + hop@.take(0) + old(output)@.skip(
            written as int,
        ));
        while i < n
            invariant
                i <= n,
                n <= hop@.len(),
                written + n <= output@.len(),
                output@.len() == output.len(),
                output@.len() == old(output)@.len(),
                output@ == old(output)@.take(written as int) + hop@.take(i as int)
                    + old(output)@.skip(written + i),
            decreases n - i,
        {
            output[written + i] = hop[i];
            assert(output@ =~= old(output)@.take(written as int) + hop@.take(i + 1)
                + old(output)@.skip(written + i + 1));
            i += 1;
        }
        let rest: usize = self.hop_size_out - n;
        let mut k: usize = 0;
        let ghost before = *self;
        while k < rest
            invariant
                k <= rest,
                n + rest == hop@.len(),
                rest <= self.pending_emit@.len(),
                hop@.len() == hop.len(),
                before.wf(),
                *self == (Wsola { pending_emit: self.pending_emit, ..before }),
                self.pending_emit@.len() == before.pending_emit@.len(),
                forall|j: int| 0 <= j < k ==> #[trigger] self.pending_emit@[j] == hop@[n + j],
            decreases rest - k,
        {
            let s: F32Bits = hop[n + k];
            self.pending_emit.set(k, s);
            k += 1;
        }
        self.pending_emit_len = rest;
        self.primed = true;
        assert(self.pending() =~= hop@.skip(n as int));
        let ghost q = self.queue();
        assert(q.unread =~= old(self).queue().unread);
        self.in_ring_r = self.in_ring_r + self.hop_size_in;
        assert(self.queue().unread =~= consumed(q, self.hop_size_in as int).unread);
        if self.in_ring_r > RING_LEN / 2 {
            self.compact_ring();
        }
        written + n
    }
}

/// `n` samples of silence.
fn zeros(n: usize) -> (r: Vec<F32Bits>)
    ensures
        r@.len() == n,
        forall|i: int| 0 <= i < n ==> (#[trigger] r@[i]).bits == ZERO_BITS,
{
    let mut out: Vec<F32Bits> = Vec::new();
    let mut i: usize = 0;
    while i < n
        invariant
            i <= n,
            out@.len() == i,
            forall|j: int| 0 <= j < i ==> (#[trigger] out@[j]).bits == ZERO_BITS,
        decreases n - i,
    {
        out.push(F32Bits { bits: ZERO_BITS });
        i += 1;
    }
    out
}

/// Move `len` samples from `from` to the start of a buffer.
fn move_down(buf: &mut Vec<F32Bits>, from: usize, len: usize)
    requires
        from + len <= old(buf)@.len(),
    ensures
        final(buf)@.len() == old(buf)@.len(),
        final(buf)@.take(len as int) == old(buf)@.subrange(from as int, from + len),
{
    let mut i: usize = 0;
    while i < len
        invariant
            i <= len,
            from + len <= buf@.len(),
            buf@.len() == old(buf)@.len(),
            buf@.len() == buf.len(),
            forall|j: int| 0 <= j < i ==> #[trigger] buf@[j] == old(buf)@[from + j],
            forall|j: int| i <= j < buf@.len() ==> #[trigger] buf@[j] == old(buf)@[j],
        decreases len - i,
    {
        let s: F32Bits = buf[from + i];
        buf.set(i, s);
        i += 1;
    }
    assert(buf@.take(len as int) =~= old(buf)@.subrange(from as int, from + len));
}

/// Copy `len` samples of `input` from `from` on to position `at` of a buffer.
fn copy_in(buf: &mut Vec<F32Bits>, at: usize, input: &[F32Bits], from: usize, len: usize)
    requires
        at + len <= old(buf)@.len(),
        from + len <= input@.len(),
    ensures
        final(buf)@ == old(buf)@.take(at as int) + input@.subrange(from as int, from + len)
            + old(buf)@.skip(at + len),
{
    let mut i: usize = 0;
    while i < len
        invariant
            i <= len,
            at + len <= buf@.len(),
            from + len <= input@.len(),
            buf@.len() == old(buf)@.len(),
            buf@.len() == buf.len(),
            input@.len() == input.len(),
            forall|j: int| 0 <= j < at ==> #[trigger] buf@[j] == old(buf)@[j],
            forall|j: int| at <= j < at + i ==> #[trigger] buf@[j] == input@[from + j - at],
            forall|j: int| at + i <= j < buf@.len() ==> #[trigger] buf@[j] == old(buf)@[j],
        decreases len - i,
    {
        let s: F32Bits = input[from + i];
        buf.set(at + i, s);
        i += 1;
    }
    assert(buf@ =~= old(buf)@.take(at as int) + input@.subrange(from as int, from + len)
        + old(buf)@.skip(at + len));
}

/// No finished sample is lost: what a hop did not put into the output is
/// pending, in order, behind what it did.
pub proof fn hops_are_kept_whole(hop: Seq<F32Bits>, written: int, room: int, r: int)
    requires
        0 <= written <= room,
        r == lesser(written + hop.len(), room),
    ensures
        hop.take(r - written) + hop.skip(r - written) == hop,
{
    assert(hop.take(r - written) + hop.skip(r - written) =~= hop);
}

/// While the queue does not overflow, its samples are exactly those appended
/// and not read, in order.
pub proof fn queue_is_first_in_first_out(q: QueueView, input: Seq<F32Bits>)
    requires
        q.skip == 0,
        q.unread.len() + input.len() <= RING_LEN,
        0 < input.len() < RING_LEN,
    ensures
        refilled(q, input).unread == q.unread + input,
        refilled(q, input).skip == 0,
{
    assert(input.skip(0) =~= input);
}

/// The queue never holds more than its length.
pub proof fn queue_is_bounded(q: QueueView, input: Seq<F32Bits>)
    requires
        q.unread.len() <= RING_LEN,
    ensures
        refilled(q, input).unread.len() <= RING_LEN,
{
}

/// The smaller of two numbers is one of them, and no larger than either.
pub proof fn lesser_is_the_smaller(a: int, b: int)
    ensures
        lesser(a, b) <= a,
        lesser(a, b) <= b,
        lesser(a, b) == a || lesser(a, b) == b,
{
}

/// A queue takes its input in behind what it holds, without the samples that
/// were skipped before they came; where that is too much, the oldest samples
/// are lost and the newest stay.
pub proof fn queues_keep_the_newest(q: QueueView, input: Seq<F32Bits>)
    requires
        0 < input.len() < 6656,
        q.unread.len() <= 6656,
    ensures
        ({
            let gone = if q.skip < input.len() {
                q.skip as int
            } else {
                input.len() as int
            };
            let all = q.unread + input.skip(gone);
            let after = refilled(q, input);
            &&& after.skip == q.skip - gone
            &&& all.len() <= 6656 ==> after.unread == all
            &&& all.len() > 6656 ==> after.unread == all.skip(all.len() - 6656)
        }),
        refilled(q, Seq::empty()) == q,
{
}

/// Input that fills the whole queue leaves its newest samples there and
/// nothing else.
pub proof fn long_input_fills_the_queue(q: QueueView, input: Seq<F32Bits>)
    requires
        input.len() >= 6656,
    ensures
        refilled(q, input).unread == input.skip(input.len() - 6656),
        refilled(q, input).skip == 0,
{
    assert(input.skip(0) =~= input);
}

/// Reading takes the oldest samples; what there is too little of is skipped
/// when it comes. Reading twice is reading both at once.
pub proof fn reading_takes_the_oldest(q: QueueView, a: int, b: int)
    requires
        0 <= a,
        0 <= b,
    ensures
        a <= q.unread.len() ==> consumed(q, a).unread == q.unread.skip(a) && consumed(q, a).skip
            == q.skip,
        a > q.unread.len() ==> consumed(q, a).unread.len() == 0 && consumed(q, a).skip == q.skip + a
            - q.unread.len(),
        consumed(consumed(q, a), b) == consumed(q, a + b),
{
    let once = consumed(q, a + b);
    let twice = consumed(consumed(q, a), b);
    assert(twice.unread =~= once.unread);
}

/// Samples that were skipped before they came are not seen: a queue that is
/// read past its end and then filled shows the input behind the gap.
pub proof fn skipped_samples_are_not_seen(q: QueueView, n: int, input: Seq<F32Bits>)
    requires
        q.skip == 0,
        q.unread.len() < n,
        n - q.unread.len() < input.len() < 6656,
    ensures
        refilled(consumed(q, n), input).unread == input.skip(n - q.unread.len()),
        refilled(consumed(q, n), input).skip == 0,
{
    let c = consumed(q, n);
    assert(c.unread =~= Seq::<F32Bits>::empty());
    assert(c.unread + input.skip(n - q.unread.len()) =~= input.skip(n - q.unread.len()));
}

/// Channels of the same sizes agree in each of them.
pub proof fn same_sizes_agree(a: Wsola, b: Wsola)
    requires
        a.same_sizes(&b),
    ensures
        a.window() == b.window(),
        a.hop_out() == b.hop_out(),
        a.hop_in() == b.hop_in(),
        a.search() == b.search(),
        a.rate() == b.rate(),
{
}

/// A window can be taken where nothing is pending and it fits behind every
/// offset of the search, and else it cannot.
pub proof fn windows_are_taken_when_they_fit(w: Wsola)
    ensures
        w.ready_spec() <==> w.pending().len() == 0 && w.queue().unread.len() >= w.window()
            + w.search(),
{
}

} // verus!
