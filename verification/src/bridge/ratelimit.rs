//! Token bucket that limits how fast one client may submit events.
//!
//! A token regenerates every five milliseconds, so the bucket is kept as
//! time: one token is five million nanoseconds of credit. That makes the
//! arithmetic exact.
use vstd::prelude::*;

use crate::text::same_text;

verus! {

/// Tokens that regenerate in a second.
pub const REFILL_PER_SEC: u64 = 200;

/// Tokens that the bucket holds at most.
pub const BURST_CAPACITY: u64 = 1_000;

/// Name of the environment variable that switches the limit off.
pub const RATE_LIMIT_DISABLED_ENV: &'static str = "HYPEHOUSE_RATE_LIMIT_DISABLED";

/// Credit for one token, in nanoseconds.
pub const TOKEN_NS: u64 = 5_000_000;

/// Credit of the full bucket, in nanoseconds.
pub const CAPACITY_NS: u64 = 5_000_000_000;

/// Nanoseconds in a millisecond.
pub const NS_PER_MS: u64 = 1_000_000;

/// Answer to one request for a token.
#[derive(Debug, Clone, Copy, PartialEq, Eq, Structural)]
pub enum Decision {
    /// A token was taken.
    Allow,
    /// The bucket is empty; a token will be there after that time.
    Deny { retry_after_ms: u64 },
}

/// State of a bucket: its credit, and the time up to which it was refilled.
pub struct Bucket {
    pub credit_ns: int,
    pub filled_to_ns: int,
}

impl Bucket {
    /// The credit never exceeds the capacity.
    pub open spec fn valid(self) -> bool {
        0 <= self.credit_ns <= CAPACITY_NS
    }

    /// Refill up to `now`. A clock that goes back refills nothing.
    pub open spec fn refilled(self, now_ns: int) -> Bucket {
        if now_ns <= self.filled_to_ns {
            self
        } else {
            let credit = self.credit_ns + (now_ns - self.filled_to_ns);
            Bucket {
                credit_ns: if credit < CAPACITY_NS {
                    credit
                } else {
                    CAPACITY_NS as int
                },
                filled_to_ns: now_ns,
            }
        }
    }

    /// Refill, then take a token if there is a whole one.
    pub open spec fn step(self, now_ns: int) -> (Bucket, Decision) {
        let b = self.refilled(now_ns);
        if b.credit_ns >= TOKEN_NS {
            (Bucket { credit_ns: b.credit_ns - TOKEN_NS, ..b }, Decision::Allow)
        } else {
            (b, Decision::Deny { retry_after_ms: whole_ms(TOKEN_NS - b.credit_ns) as u64 })
        }
    }

    /// The bucket after requests at the given times.
    pub open spec fn after(self, times: Seq<int>) -> Bucket
        decreases times.len(),
    {
        if times.len() == 0 {
            self
        } else {
            self.after(times.drop_last()).step(times.last()).0
        }
    }

    /// How many of the requests at the given times were allowed.
    pub open spec fn allowed(self, times: Seq<int>) -> int
        decreases times.len(),
    {
        if times.len() == 0 {
            0
        } else {
            let now = self.after(times.drop_last()).step(times.last()).1;
            self.allowed(times.drop_last()) + if now is Allow {
                1int
            } else {
                0
            }
        }
    }
}

/// A time in milliseconds, rounded up.
pub open spec fn whole_ms(ns: int) -> int {
    (ns + (NS_PER_MS - 1)) / (NS_PER_MS as int)
}

/// The bucket of one client. Times are nanoseconds since a moment of the
/// caller's choice.
#[derive(Debug)]
pub struct RateLimiter {
    credit_ns: u64,
    filled_to_ns: u64,
    disabled: bool,
}

impl RateLimiter {
    /// The bucket's state.
    pub closed spec fn bucket(self) -> Bucket {
        Bucket { credit_ns: self.credit_ns as int, filled_to_ns: self.filled_to_ns as int }
    }

    /// Whether the limit is off.
    pub closed spec fn off(self) -> bool {
        self.disabled
    }

    /// The credit never exceeds the capacity.
    #[verifier::type_invariant]
    spec fn inv(self) -> bool {
        self.credit_ns <= CAPACITY_NS
    }

    /// A full bucket. `disabled` is the value of the environment variable
    /// that switches the limit off: it does where it is "1".
    pub fn with_now(now_ns: u64, disabled: Option<&str>) -> (r: Self)
        ensures
            r.bucket() == (Bucket {
                credit_ns: CAPACITY_NS as int,
                filled_to_ns: now_ns as int,
            }),
            r.off() == (match disabled {
                Some(v) => v@ == "1"@,
                None => false,
            }),
    {
        let off: bool = match disabled {
            Some(v) => same_text(v, "1"),
            None => false,
        };
        RateLimiter { credit_ns: CAPACITY_NS, filled_to_ns: now_ns, disabled: off }
    }

    /// Whether the limit is off.
    pub fn is_disabled(&self) -> (r: bool)
        ensures
            r == self.off(),
    {
        self.disabled
    }

    /// Ask for a token.
    pub fn try_acquire_at(&mut self, now_ns: u64) -> (r: Decision)
        ensures
            final(self).off() == old(self).off(),
            old(self).off() ==> r is Allow && final(self).bucket() == old(self).bucket(),
            !old(self).off() ==> (final(self).bucket(), r) == old(self).bucket().step(
                now_ns as int,
            ),
            final(self).bucket().valid(),
    {
        proof {
            use_type_invariant(&*self);
        }
        if self.disabled {
            return Decision::Allow;
        }
        if now_ns > self.filled_to_ns {
            let elapsed: u64 = now_ns - self.filled_to_ns;
            let room: u64 = CAPACITY_NS - self.credit_ns;
            let added: u64 = if elapsed < room {
                elapsed
            } else {
                room
            };
            self.credit_ns = self.credit_ns + added;
            self.filled_to_ns = now_ns;
        }
        if self.credit_ns >= TOKEN_NS {
            self.credit_ns = self.credit_ns - TOKEN_NS;
            Decision::Allow
        } else {
            let deficit: u64 = TOKEN_NS - self.credit_ns;
            Decision::Deny { retry_after_ms: (deficit + (NS_PER_MS - 1)) / NS_PER_MS }
        }
    }
}

/// Over any run of requests, the tokens handed out are covered by what was
/// in the bucket and what the elapsed time added: at most a full burst, and
/// one more for every five milliseconds.
pub proof fn tokens_are_paid_for(b: Bucket, times: Seq<int>)
    requires
        b.valid(),
    ensures
        b.after(times).valid(),
        b.after(times).filled_to_ns >= b.filled_to_ns,
        TOKEN_NS * b.allowed(times) + b.after(times).credit_ns <= b.credit_ns + (b.after(
            times,
        ).filled_to_ns - b.filled_to_ns),
    decreases times.len(),
{
    if times.len() > 0 {
        tokens_are_paid_for(b, times.drop_last());
    }
}

/// Of requests that come all at once, a full bucket serves a burst and no
/// more.
pub proof fn full_bucket_serves_a_burst(now_ns: int, n: nat)
    ensures
        ({
            let full = Bucket { credit_ns: CAPACITY_NS as int, filled_to_ns: now_ns };
            let times = Seq::new(n, |i: int| now_ns);
            let served: int = if n < BURST_CAPACITY {
                n as int
            } else {
                BURST_CAPACITY as int
            };
            &&& full.allowed(times) == served
            &&& full.after(times).credit_ns == CAPACITY_NS - TOKEN_NS * served
            &&& full.after(times).filled_to_ns == now_ns
        }),
    decreases n,
{
    let times = Seq::new(n, |i: int| now_ns);
    if n > 0 {
        full_bucket_serves_a_burst(now_ns, (n - 1) as nat);
        assert(times.drop_last() =~= Seq::new((n - 1) as nat, |i: int| now_ns));
    }
}

/// A client that was told to wait and does so gets its token.
pub proof fn waiting_pays_off(b: Bucket, now_ns: int, later_ns: int)
    requires
        b.valid(),
        b.step(now_ns).1 matches Decision::Deny { retry_after_ms } && later_ns >= b.step(
            now_ns,
        ).0.filled_to_ns + retry_after_ms * NS_PER_MS,
    ensures
        b.step(now_ns).0.step(later_ns).1 is Allow,
{
}

/// The wait that a client is told is at least one millisecond, and no longer
/// than a token takes to regenerate.
pub proof fn waits_are_short(b: Bucket, now_ns: int)
    requires
        b.valid(),
    ensures
        b.step(now_ns).1 matches Decision::Deny { retry_after_ms } ==> 1 <= retry_after_ms
            <= 1_000u64 / REFILL_PER_SEC,
{
}

/// Credit grows with the clock, up to the full bucket of five seconds, and
/// not at all when the clock goes back.
pub proof fn credit_grows_with_the_clock(b: Bucket, now_ns: int)
    requires
        0 <= b.credit_ns <= 5_000_000_000,
    ensures
        now_ns <= b.filled_to_ns ==> b.refilled(now_ns) == b,
        now_ns > b.filled_to_ns ==> {
            let grown = b.credit_ns + (now_ns - b.filled_to_ns);
            let after = b.refilled(now_ns);
            &&& after.filled_to_ns == now_ns
            &&& grown <= 5_000_000_000 ==> after.credit_ns == grown
            &&& grown > 5_000_000_000 ==> after.credit_ns == 5_000_000_000
        },
{
}

/// A request is allowed just where the credit, with what the time since then
/// added, pays for a token of five milliseconds; that is then taken, and
/// nothing is taken from a request that is denied.
pub proof fn requests_cost_a_token(b: Bucket, now_ns: int)
    requires
        0 <= b.credit_ns <= 5_000_000_000,
    ensures
        ({
            let (after, decision) = b.step(now_ns);
            let elapsed = if now_ns > b.filled_to_ns {
                now_ns - b.filled_to_ns
            } else {
                0
            };
            let credit = if b.credit_ns + elapsed < 5_000_000_000 {
                b.credit_ns + elapsed
            } else {
                5_000_000_000
            };
            &&& decision is Allow <==> credit >= 5_000_000
            &&& decision is Allow ==> after.credit_ns == credit - 5_000_000
            &&& decision is Deny ==> after.credit_ns == credit
            &&& after.filled_to_ns == b.filled_to_ns + elapsed
            &&& decision matches Decision::Deny { retry_after_ms } ==> 1_000_000 * (retry_after_ms
                - 1) < 5_000_000 - credit <= 1_000_000 * retry_after_ms
        }),
{
}

/// A client that asks no faster than every five milliseconds is never denied.
pub proof fn steady_clients_are_served(b: Bucket, now_ns: int)
    requires
        0 <= b.credit_ns <= 5_000_000_000,
        now_ns >= b.filled_to_ns + 5_000_000,
    ensures
        b.step(now_ns).1 is Allow,
        0 <= b.step(now_ns).0.credit_ns <= 5_000_000_000,
        b.step(now_ns).0.filled_to_ns == now_ns,
{
}

/// A full bucket serves a thousand requests that come at once, and denies the
/// next.
pub proof fn bursts_end_at_a_thousand(now_ns: int, n: nat)
    ensures
        ({
            let full = Bucket { credit_ns: 5_000_000_000, filled_to_ns: now_ns };
            let times = Seq::new(n, |i: int| now_ns);
            &&& n <= 1000 ==> full.allowed(times) == n
            &&& n > 1000 ==> full.allowed(times) == 1000
            &&& n < 1000 ==> full.after(times).step(now_ns).1 is Allow
            &&& n >= 1000 ==> full.after(times).step(now_ns).1 is Deny
        }),
{
    full_bucket_serves_a_burst(now_ns, n);
}

/// Times are rounded up to whole milliseconds.
pub proof fn waits_are_rounded_up(ns: int)
    requires
        ns >= 0,
    ensures
        1_000_000 * whole_ms(ns) - 1_000_000 < ns <= 1_000_000 * whole_ms(ns),
{
}

} // verus!
