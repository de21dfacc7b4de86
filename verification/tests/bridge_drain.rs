use std::time::{Duration, Instant};

use crossbeam::channel;
use hypehouse_engine::audio::decode::{
    MidStreamFailure, MidStreamFailureKind, DECODER_THREAD_PANIC_CATEGORY, MID_STREAM_CATEGORY,
    MID_STREAM_FAILURE_CAPACITY,
};
use hypehouse_engine::audio::decoder::try_send_mid_stream_failure;
use hypehouse_engine::bridge::decode_drain::{
    deck_from_char, drain_once, drain_step, publish, DRAIN_TICK_MS,
};
use hypehouse_engine::bridge::rpc::BridgeNotice;
use hypehouse_engine::channel::{Offered, Received, SendOutcome};
use hypehouse_engine::state::DeckId;

fn failure(track: &str, deck: Option<char>, kind: MidStreamFailureKind) -> MidStreamFailure {
    MidStreamFailure { track_id: track.to_string(), deck, kind }
}

#[test]
fn deck_from_char_maps_known_decks() {
    assert_eq!(deck_from_char(Some('A')), DeckId::A);
    assert_eq!(deck_from_char(Some('B')), DeckId::B);
    assert_eq!(deck_from_char(Some('b')), DeckId::B);
    // Unknown -> default A
    assert_eq!(deck_from_char(Some('Z')), DeckId::A);
    assert_eq!(deck_from_char(None), DeckId::A);
}

#[test]
fn drain_once_publishes_decode_error_for_mid_stream_event() {
    let (mut tx, mut rx) = channel::bounded(MID_STREAM_FAILURE_CAPACITY);
    try_send_mid_stream_failure(
        &mut tx,
        failure(
            "trk-mid",
            Some('B'),
            MidStreamFailureKind::DecodeFailed("synthetic corruption".into()),
        ),
    );
    let (mut notices, alive) = drain_once(&mut rx);
    assert!(alive, "channel should still be alive (svc not dropped)");
    assert_eq!(notices.len(), 1);
    match notices.remove(0) {
        BridgeNotice::DecodeError { deck, track_id, category, error } => {
            assert_eq!(deck, DeckId::B);
            assert_eq!(track_id, "trk-mid");
            assert_eq!(category, MID_STREAM_CATEGORY);
            assert!(error.contains("synthetic corruption"));
        }
        other => panic!("unexpected notice variant: {other:?}"),
    }
}

#[test]
fn drain_once_publishes_decoder_thread_panic_category() {
    let (mut tx, mut rx) = channel::bounded(MID_STREAM_FAILURE_CAPACITY);
    try_send_mid_stream_failure(
        &mut tx,
        failure("trk-panic", Some('A'), MidStreamFailureKind::ThreadPanic("boom".into())),
    );
    let (mut notices, alive) = drain_once(&mut rx);
    assert!(alive);
    match notices.remove(0) {
        BridgeNotice::DecodeError { category, error, .. } => {
            assert_eq!(category, DECODER_THREAD_PANIC_CATEGORY);
            assert!(error.contains("boom"));
        }
        other => panic!("unexpected notice variant: {other:?}"),
    }
}

#[test]
fn drain_once_returns_false_when_channel_disconnected() {
    let (tx, mut rx) = channel::bounded::<MidStreamFailure>(MID_STREAM_FAILURE_CAPACITY);
    drop(tx);
    let (notices, alive) = drain_once(&mut rx);
    assert!(!alive, "drain_once must signal exit on disconnect");
    assert!(notices.is_empty());
}

#[test]
fn drain_once_drains_multiple_events_in_one_tick() {
    let (mut tx, mut rx) = channel::bounded(MID_STREAM_FAILURE_CAPACITY);
    for i in 0..5 {
        try_send_mid_stream_failure(
            &mut tx,
            failure(
                &format!("t-{i}"),
                Some('A'),
                MidStreamFailureKind::DecodeFailed(format!("err-{i}")),
            ),
        );
    }
    let (notices, alive) = drain_once(&mut rx);
    assert!(alive);
    assert_eq!(notices.len(), 5);
    for (i, n) in notices.iter().enumerate() {
        match n {
            BridgeNotice::DecodeError { track_id, error, .. } => {
                assert_eq!(track_id, &format!("t-{i}"));
                assert_eq!(error, &format!("err-{i}"));
            }
            other => panic!("unexpected notice variant: {other:?}"),
        }
    }
    assert_eq!(DRAIN_TICK_MS, 100);
}

#[test]
fn failures_sent_before_the_end_are_still_drained() {
    let (mut tx, mut rx) = channel::bounded(2);
    try_send_mid_stream_failure(
        &mut tx,
        failure("t", None, MidStreamFailureKind::ResampleFailed("r".into())),
    );
    drop(tx);
    let (notices, alive) = drain_once(&mut rx);
    assert_eq!(notices.len(), 1);
    assert!(!alive);
}

#[test]
fn sidechannel_full_drops_event_without_blocking_decoder_thread() {
    let (mut tx, mut rx) = channel::bounded(MID_STREAM_FAILURE_CAPACITY);
    for i in 0..MID_STREAM_FAILURE_CAPACITY {
        let sent = try_send_mid_stream_failure(
            &mut tx,
            failure(&format!("flood-{i}"), None, MidStreamFailureKind::DecodeFailed("flood".into())),
        );
        assert_eq!(sent.outcome(), SendOutcome::Accepted);
    }
    let start = Instant::now();
    let sent = try_send_mid_stream_failure(
        &mut tx,
        failure("overflow", None, MidStreamFailureKind::DecodeFailed("dropped".into())),
    );
    let elapsed = start.elapsed();
    assert!(
        elapsed < Duration::from_millis(50),
        "try_send on full channel must not block; took {elapsed:?}",
    );
    assert_eq!(sent.outcome(), SendOutcome::Full);
    assert!(matches!(sent, Offered::Full(dropped) if dropped.track_id == "overflow"));
    let (notices, alive) = drain_once(&mut rx);
    assert!(alive);
    assert_eq!(notices.len(), MID_STREAM_FAILURE_CAPACITY);
    drop(rx);
    let sent = try_send_mid_stream_failure(
        &mut tx,
        failure("late", None, MidStreamFailureKind::DecodeFailed("x".into())),
    );
    assert_eq!(sent.outcome(), SendOutcome::Disconnected);
}

#[test]
fn injected_mid_stream_decode_failure_reaches_receiver() {
    let (mut tx, rx) = channel::bounded(MID_STREAM_FAILURE_CAPACITY);
    try_send_mid_stream_failure(
        &mut tx,
        failure(
            "trk-mid-1",
            Some('A'),
            MidStreamFailureKind::DecodeFailed("synthetic bitstream corruption".into()),
        ),
    );
    let got = rx
        .recv_timeout(Duration::from_millis(200))
        .expect("mid-stream failure should reach receiver");
    assert_eq!(got.track_id, "trk-mid-1");
    assert_eq!(got.deck, Some('A'));
    assert_eq!(got.kind.category(), "mid_stream_decode_failure");
    assert!(got.kind.message().contains("bitstream corruption"));
}

#[test]
fn each_look_at_the_channel_has_its_step() {
    let mut notices = vec![publish(failure(
        "old",
        None,
        MidStreamFailureKind::DecodeFailed("o".into()),
    ))];
    let f = failure("new", Some('b'), MidStreamFailureKind::ResampleFailed("n".into()));
    assert_eq!(drain_step(Received::Item(f), &mut notices), None);
    assert_eq!(notices.len(), 2);
    assert!(
        matches!(&notices[1], BridgeNotice::DecodeError { deck: DeckId::B, track_id, category, error }
            if track_id == "new" && category == "mid_stream_decode_failure" && error == "n")
    );
    assert_eq!(drain_step(Received::Empty, &mut notices), Some(true));
    assert_eq!(drain_step(Received::Disconnected, &mut notices), Some(false));
    assert_eq!(notices.len(), 2);
}
