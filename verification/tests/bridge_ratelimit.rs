use hypehouse_engine::bridge::ratelimit::{
    Decision, RateLimiter, BURST_CAPACITY, RATE_LIMIT_DISABLED_ENV, REFILL_PER_SEC,
};

const MS: u64 = 1_000_000;

#[test]
fn burst_allows_capacity_then_denies() {
    let t0 = 7_000 * MS;
    let mut rl = RateLimiter::with_now(t0, None);
    assert!(!rl.is_disabled());
    let cap_u32 = BURST_CAPACITY as u32;
    let max_iters = cap_u32 * 2;
    let mut allows = 0u32;
    let mut last_deny: Option<Decision> = None;
    for _ in 0..max_iters {
        match rl.try_acquire_at(t0) {
            Decision::Allow => allows += 1,
            d @ Decision::Deny { .. } => {
                last_deny = Some(d);
                break;
            }
        }
    }
    assert!(
        allows >= cap_u32 - 1 && allows <= cap_u32 + 1,
        "expected ~BURST_CAPACITY ({BURST_CAPACITY}) allows before deny, got {allows}",
    );
    match last_deny.expect("loop should have observed a Deny") {
        Decision::Deny { retry_after_ms } => {
            assert!(retry_after_ms >= 1, "retry_after_ms must be at least 1");
            assert_eq!(
                retry_after_ms, 5,
                "first deny after a clean burst should advertise 5 ms"
            );
        }
        Decision::Allow => unreachable!("matched Deny above"),
    }
}

#[test]
fn one_token_regenerates_after_5ms() {
    let t0 = 0;
    let mut rl = RateLimiter::with_now(t0, None);
    let mut allows = 0u32;
    let max_iters = (BURST_CAPACITY as u32) * 2;
    for _ in 0..max_iters {
        match rl.try_acquire_at(t0) {
            Decision::Allow => allows += 1,
            Decision::Deny { .. } => break,
        }
    }
    let cap_u32 = BURST_CAPACITY as u32;
    assert!(
        allows >= cap_u32 - 1 && allows <= cap_u32 + 1,
        "expected ~BURST_CAPACITY ({BURST_CAPACITY}) allows before deny, got {allows}",
    );
    assert!(matches!(rl.try_acquire_at(t0), Decision::Deny { .. }));
    let t1 = t0 + 5 * MS;
    assert_eq!(rl.try_acquire_at(t1), Decision::Allow);
    assert!(matches!(rl.try_acquire_at(t1), Decision::Deny { .. }));
}

#[test]
fn refill_caps_at_burst_capacity() {
    let cap_u32 = BURST_CAPACITY as u32;
    let max_iters = cap_u32 * 2;
    let t0 = 123;
    let mut rl = RateLimiter::with_now(t0, None);
    let mut drain_allows = 0u32;
    for _ in 0..max_iters {
        match rl.try_acquire_at(t0) {
            Decision::Allow => drain_allows += 1,
            Decision::Deny { .. } => break,
        }
    }
    assert!(
        drain_allows >= cap_u32 - 1 && drain_allows <= cap_u32 + 1,
        "initial drain should allow ~BURST_CAPACITY ({BURST_CAPACITY}), got {drain_allows}",
    );
    let t_far = t0 + 10_000 * MS;
    let mut post_idle_allows = 0u32;
    for _ in 0..max_iters {
        match rl.try_acquire_at(t_far) {
            Decision::Allow => post_idle_allows += 1,
            Decision::Deny { .. } => break,
        }
    }
    assert!(
        post_idle_allows >= cap_u32 - 1 && post_idle_allows <= cap_u32 + 1,
        "post-idle drain should still cap at BURST_CAPACITY ({BURST_CAPACITY}), got {post_idle_allows}",
    );
    assert!(
        matches!(rl.try_acquire_at(t_far), Decision::Deny { .. }),
        "bucket must cap at burst capacity even after long idle",
    );
}

#[test]
fn disabled_env_skips_rate_limiting_entirely() {
    assert_eq!(RATE_LIMIT_DISABLED_ENV, "HYPEHOUSE_RATE_LIMIT_DISABLED");
    let mut rl = RateLimiter::with_now(0, Some("1"));
    assert!(rl.is_disabled(), "env override should disable limiter");
    for _ in 0..(BURST_CAPACITY as u32 * 3) {
        assert_eq!(rl.try_acquire_at(0), Decision::Allow);
    }
    assert!(!RateLimiter::with_now(0, Some("0")).is_disabled());
    assert!(!RateLimiter::with_now(0, Some("")).is_disabled());
}

fn drained(t: u64) -> RateLimiter {
    let mut rl = RateLimiter::with_now(t, None);
    while rl.try_acquire_at(t) == Decision::Allow {}
    rl
}

#[test]
fn the_burst_is_exact() {
    let mut rl = RateLimiter::with_now(9, None);
    for _ in 0..1_000 {
        assert_eq!(rl.try_acquire_at(9), Decision::Allow);
    }
    assert_eq!(rl.try_acquire_at(9), Decision::Deny { retry_after_ms: 5 });
    assert_eq!(REFILL_PER_SEC, 200);
}

#[test]
fn waits_round_up_to_whole_milliseconds() {
    let mut rl = drained(0);
    assert_eq!(rl.try_acquire_at(1), Decision::Deny { retry_after_ms: 5 });
    assert_eq!(rl.try_acquire_at(MS), Decision::Deny { retry_after_ms: 4 });
    assert_eq!(rl.try_acquire_at(4 * MS + 999_999), Decision::Deny { retry_after_ms: 1 });
    assert_eq!(rl.try_acquire_at(5 * MS), Decision::Allow);
}

#[test]
fn waiting_as_told_gets_a_token() {
    let mut rl = drained(50);
    match rl.try_acquire_at(2 * MS) {
        Decision::Deny { retry_after_ms } => {
            assert_eq!(rl.try_acquire_at(2 * MS + retry_after_ms * MS), Decision::Allow);
        }
        Decision::Allow => panic!("the bucket was empty"),
    }
}

#[test]
fn a_clock_that_goes_back_refills_nothing() {
    let mut rl = drained(1_000 * MS);
    assert_eq!(rl.try_acquire_at(0), Decision::Deny { retry_after_ms: 5 });
    assert_eq!(rl.try_acquire_at(1_000 * MS), Decision::Deny { retry_after_ms: 5 });
    assert_eq!(rl.try_acquire_at(1_005 * MS), Decision::Allow);
}

#[test]
fn allowed_requests_are_paid_for() {
    let mut rl = RateLimiter::with_now(0, None);
    let mut allowed = 0u64;
    let mut now = 0u64;
    for i in 0..5_000u64 {
        now = i * 300_000;
        if rl.try_acquire_at(now) == Decision::Allow {
            allowed += 1;
        }
    }
    assert!(allowed <= 1_000 + now / (5 * MS));
    assert!(allowed >= 1_000);
}
