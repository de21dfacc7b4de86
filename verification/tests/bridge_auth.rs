use std::time::Instant;

use hypehouse_engine::bridge::auth::{constant_time_eq, AuthConfig};

#[test]
fn no_token_means_no_auth_required() {
    let cfg = AuthConfig::default();
    assert!(!cfg.requires_auth());
    assert!(cfg.check_header(None));
    assert!(cfg.check_header(Some("anything")));
}

#[test]
fn token_set_requires_matching_header() {
    let cfg = AuthConfig::with_token("s3cret");
    assert!(cfg.requires_auth());
    assert!(!cfg.check_header(None));
    assert!(!cfg.check_header(Some("Bearer wrong")));
    assert!(!cfg.check_header(Some("Basic s3cret")));
    assert!(cfg.check_header(Some("Bearer s3cret")));
}

#[test]
fn empty_env_var_is_treated_as_unset() {
    let token = Some("".to_string()).filter(|s| !s.is_empty());
    assert!(token.is_none());
    assert!(AuthConfig::from_env(Some("".to_string())).bearer_token.is_none());
}

#[test]
fn constant_time_eq_handles_different_lengths() {
    assert!(!constant_time_eq(b"a", b"ab"));
    assert!(constant_time_eq(b"abc", b"abc"));
}

#[test]
fn constant_time_eq_does_not_short_circuit_on_mismatch() {
    let right: &[u8] = b"correct-horse-battery-staple-token-0123456789";
    let wrong: &[u8] = b"Xorrect-horse-battery-staple-token-0123456789";
    assert_eq!(right.len(), wrong.len());

    const ITERS: usize = 10_000;
    // A preempted round says nothing of the comparison, so another follows.
    const ROUNDS: usize = 50;

    for round in 1..=ROUNDS {
        let mut wrong_ns: u128 = 0;
        let mut right_ns: u128 = 0;

        for _ in 0..ITERS {
            let t0 = Instant::now();
            let r = constant_time_eq(right, wrong);
            wrong_ns += t0.elapsed().as_nanos();
            assert!(!r);

            let t1 = Instant::now();
            let r = constant_time_eq(right, right);
            right_ns += t1.elapsed().as_nanos();
            assert!(r);
        }

        let wrong_mean = wrong_ns as f64 / ITERS as f64;
        let right_mean = right_ns as f64 / ITERS as f64;
        let ratio = if wrong_mean > right_mean {
            wrong_mean / right_mean.max(1.0)
        } else {
            right_mean / wrong_mean.max(1.0)
        };
        if ratio >= 1.5 && round < ROUNDS {
            continue;
        }
        assert!(
            ratio < 1.5,
            "timing diverged too far: wrong_mean={wrong_mean}ns right_mean={right_mean}ns ratio={ratio:.2}"
        );
        return;
    }
}

#[test]
fn env_values_become_tokens() {
    assert_eq!(AuthConfig::ENV_TOKEN, "HYPEHOUSE_BRIDGE_TOKEN");
    assert!(AuthConfig::from_env(None).bearer_token.is_none());
    let cfg = AuthConfig::from_env(Some("tok".to_string()));
    assert_eq!(cfg.bearer_token.as_deref(), Some("tok"));
    assert!(cfg.check_header(Some("Bearer tok")));
}

#[test]
fn headers_are_trimmed_but_tokens_are_compared_whole() {
    let cfg = AuthConfig::with_token("tök en");
    assert!(cfg.check_header(Some("  Bearer tök en\t")));
    assert!(!cfg.check_header(Some("Bearer  tök en")));
    assert!(!cfg.check_header(Some("bearer tök en")));
    assert!(!cfg.check_header(Some("Bearer tök e")));
    assert!(!cfg.check_header(Some("Bearer ")));
    // A token that ends in white space can be carried by no header.
    assert!(!AuthConfig::with_token("t ").check_header(Some("Bearer t ")));
}

#[test]
fn equal_texts_have_equal_bytes() {
    assert!(constant_time_eq(b"", b""));
    assert!(!constant_time_eq("ä".as_bytes(), "ö".as_bytes()));
    assert!(!constant_time_eq(b"abcx", b"abcy"));
}
