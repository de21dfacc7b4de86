//! Delay lines, the memory of echoes and reverbs.
use vstd::prelude::*;

use crate::f32_bits::{F32Bits, ZERO_BITS};

verus! {

/// Frames that an echo remembers: two seconds at 96 kHz.
pub const MAX_DELAY_FRAMES: usize = 192_000;

/// A ring of samples that remembers as many as it has places.
pub struct DelayLine {
    buf: Vec<F32Bits>,
    head: usize,
}

/// Place of the sample that was pushed `age` pushes ago.
spec fn place(head: int, len: int, age: int) -> int {
    if head >= age {
        head - age
    } else {
        head + len - age
    }
}

impl DelayLine {
    /// The head lies in the ring.
    pub closed spec fn wf(&self) -> bool {
        self.head < self.buf@.len()
    }

    /// The remembered samples, the latest first.
    pub closed spec fn past(&self) -> Seq<F32Bits> {
        Seq::new(
            self.buf@.len(),
            |k: int| self.buf@[place(self.head as int, self.buf@.len() as int, k + 1)],
        )
    }

    /// A line that remembers `size` samples, but at least one, and has heard
    /// only silence.
    pub fn new(size: usize) -> (r: Self)
        ensures
            r.wf(),
            r.past().len() == (if size == 0 {
                1
            } else {
                size as int
            }),
            forall|k: int| 0 <= k < r.past().len() ==> (#[trigger] r.past()[k]).bits == ZERO_BITS,
    {
        let n: usize = if size == 0 {
            1
        } else {
            size
        };
        let mut buf: Vec<F32Bits> = Vec::new();
        let mut i: usize = 0;
        while i < n
            invariant
                i <= n,
                buf@.len() == i,
                forall|j: int| 0 <= j < i ==> (#[trigger] buf@[j]).bits == ZERO_BITS,
            decreases n - i,
        {
            buf.push(F32Bits { bits: ZERO_BITS });
            i += 1;
        }
        DelayLine { buf, head: 0 }
    }

    /// How many samples the line remembers.
    pub fn len(&self) -> (r: usize)
        ensures
            r == self.past().len(),
    {
        self.buf.len()
    }

    /// The sample that was pushed `delay` pushes ago.
    pub fn tap(&self, delay: usize) -> (r: F32Bits)
        requires
            self.wf(),
            1 <= delay <= self.past().len(),
        ensures
            r == self.past()[delay - 1],
    {
        let n: usize = self.buf.len();
        if self.head >= delay {
            self.buf[self.head - delay]
        } else {
            self.buf[n - (delay - self.head)]
        }
    }

    /// The oldest sample that is remembered.
    pub fn oldest(&self) -> (r: F32Bits)
        requires
            self.wf(),
        ensures
            r == self.past().last(),
    {
        self.buf[self.head]
    }

    /// Remember one more sample and forget the oldest.
    pub fn push(&mut self, sample: F32Bits)
        requires
            old(self).wf(),
        ensures
            final(self).wf(),
            final(self).past() == seq![sample] + old(self).past().drop_last(),
    {
        let n: usize = self.buf.len();
        let at: usize = self.head;
        self.buf.set(at, sample);
        self.head = if at + 1 == n {
            0
        } else {
            at + 1
        };
        assert(self.past() =~= seq![sample] + old(self).past().drop_last());
    }

    /// Forget everything.
    pub fn reset(&mut self)
        requires
            old(self).wf(),
        ensures
            final(self).wf(),
            final(self).past().len() == old(self).past().len(),
            forall|k: int|
                0 <= k < final(self).past().len() ==> (#[trigger] final(self).past()[k]).bits
                    == ZERO_BITS,
    {
        let n: usize = self.buf.len();
        let mut i: usize = 0;
        while i < n
            invariant
                i <= n,
                n == self.buf@.len(),
                n == old(self).buf@.len(),
                self.head < n,
                forall|j: int| 0 <= j < i ==> (#[trigger] self.buf@[j]).bits == ZERO_BITS,
            decreases n - i,
        {
            self.buf.set(i, F32Bits { bits: ZERO_BITS });
            i += 1;
        }
        self.head = 0;
    }
}

/// Confine the delay of an echo to what its lines remember.
pub fn clamp_delay(frames: usize) -> (r: usize)
    ensures
        r == (if frames < 1 {
            1
        } else if frames > MAX_DELAY_FRAMES - 1 {
            MAX_DELAY_FRAMES - 1
        } else {
            frames as int
        }),
{
    if frames < 1 {
        1
    } else if frames > MAX_DELAY_FRAMES - 1 {
        MAX_DELAY_FRAMES - 1
    } else {
        frames
    }
}

/// The memory after several pushes.
pub open spec fn pushed(past: Seq<F32Bits>, samples: Seq<F32Bits>) -> Seq<F32Bits>
    decreases samples.len(),
{
    if samples.len() == 0 {
        past
    } else {
        pushed(seq![samples[0]] + past.drop_last(), samples.drop_first())
    }
}

/// A sample comes back `delay` pushes after it went in, unchanged, for every
/// delay within the line's memory.
pub proof fn samples_come_back(past: Seq<F32Bits>, samples: Seq<F32Bits>)
    requires
        0 < samples.len() <= past.len(),
    ensures
        pushed(past, samples).len() == past.len(),
        pushed(past, samples)[samples.len() - 1] == samples[0],
{
    let next = seq![samples[0]] + past.drop_last();
    lemma_shifted(next, samples.drop_first(), 0);
    assert(next[0] == samples[0]);
}

/// What stood at place `k` before the pushes stands `samples.len()` places
/// further back after them.
proof fn lemma_shifted(past: Seq<F32Bits>, samples: Seq<F32Bits>, k: int)
    requires
        0 <= k,
        k + samples.len() < past.len(),
    ensures
        pushed(past, samples).len() == past.len(),
        pushed(past, samples)[k + samples.len()] == past[k],
    decreases samples.len(),
{
    if samples.len() > 0 {
        let next = seq![samples[0]] + past.drop_last();
        lemma_shifted(next, samples.drop_first(), k + 1);
        assert(next[k + 1] == past[k]);
    }
}

/// What a filter's coefficients were computed for.
#[derive(Clone, Copy, Debug, PartialEq, Eq, Structural)]
pub struct CoefKey {
    pub cutoff: F32Bits,
    pub q: F32Bits,
    pub mode: u8,
    pub sample_rate: u32,
}

/// Remembers what coefficients were computed for last.
pub struct CoefCache {
    last: Option<CoefKey>,
}

impl CoefCache {
    /// What the coefficients were computed for last.
    pub closed spec fn key(&self) -> Option<CoefKey> {
        self.last
    }

    /// Nothing computed yet.
    pub fn new() -> (r: Self)
        ensures
            r.key() is None,
    {
        CoefCache { last: None }
    }

    /// Whether coefficients for `key` have to be computed: they do unless
    /// they were the last ones, bit for bit. From then on they are.
    pub fn refresh(&mut self, key: CoefKey) -> (r: bool)
        ensures
            r == (old(self).key() != Some(key)),
            final(self).key() == Some(key),
    {
        let same: bool = match self.last {
            Some(k) => k == key,
            None => false,
        };
        self.last = Some(key);
        !same
    }

    /// Forget what was computed.
    pub fn reset(&mut self)
        ensures
            final(self).key() is None,
    {
        self.last = None;
    }
}

} // verus!
