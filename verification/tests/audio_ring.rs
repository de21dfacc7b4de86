use hypehouse_engine::audio::batch::{AudioCmdBatch, DecodeFailures};
use hypehouse_engine::audio::command::{AudioCommand, AudioCommandKind, RAMP_BUFFER_MAX};
use hypehouse_engine::audio::decode::{DecodeError, DecodeHandle};
use hypehouse_engine::audio::ring::{AudioRing, RING_CAPACITY};
use hypehouse_engine::audio::translator::DecodeFailure;
use hypehouse_engine::state::DeckId;

fn play_a() -> AudioCommand {
    AudioCommand { at_frame: 0, kind: AudioCommandKind::DeckPlay { deck: DeckId::A } }
}

fn at(frame: u64) -> AudioCommand {
    AudioCommand { at_frame: frame, kind: AudioCommandKind::DeckPause { deck: DeckId::B } }
}

#[test]
fn audio_command_is_copy_send_sync_static() {
    fn assert_bounds<T: Copy + Send + Sync + 'static>() {}
    assert_bounds::<AudioCommand>();
    assert_bounds::<AudioCommandKind>();
    assert_bounds::<DecodeHandle>();
}

#[test]
fn command_size_is_bounded() {
    assert!(
        core::mem::size_of::<AudioCommand>() <= 64,
        "AudioCommand grew to {} bytes",
        core::mem::size_of::<AudioCommand>()
    );
    assert_eq!(RAMP_BUFFER_MAX, 32);
}

#[test]
fn push_and_pop_round_trip() {
    let ring = AudioRing::new();
    let (mut prod, mut cons) = ring.split();
    prod.try_push(play_a()).unwrap();
    let got = cons.try_pop().unwrap();
    assert_eq!(got, play_a());
    assert!(cons.try_pop().is_none());
}

#[test]
fn capacity_is_1024() {
    let ring = AudioRing::new();
    let (mut prod, mut cons) = ring.split();
    for _ in 0..RING_CAPACITY {
        prod.try_push(play_a()).unwrap();
    }
    assert!(prod.try_push(play_a()).is_err());
    let mut count = 0;
    while cons.try_pop().is_some() {
        count += 1;
    }
    assert_eq!(count, RING_CAPACITY);
}

#[test]
fn the_ring_keeps_its_order_and_gives_back_what_does_not_fit() {
    let (mut prod, mut cons) = AudioRing::default().split();
    assert_eq!(prod.vacant_len(), 1024);
    assert_eq!(cons.occupied_len(), 0);
    for i in 0..1024u64 {
        prod.try_push(at(i)).unwrap();
    }
    assert_eq!(prod.vacant_len(), 0);
    assert_eq!(cons.occupied_len(), 1024);
    assert_eq!(prod.try_push(at(77)), Err(at(77)));
    for i in 0..1024u64 {
        assert_eq!(cons.try_pop(), Some(at(i)));
    }
}

#[test]
fn places_that_were_never_used_are_free() {
    let (mut prod, mut cons) = AudioRing::new().split();
    for i in 0..10u64 {
        prod.try_push(at(i)).unwrap();
    }
    assert_eq!(prod.vacant_len(), 1014);
    for i in 0..4u64 {
        assert_eq!(cons.try_pop(), Some(at(i)));
    }
    assert_eq!(prod.vacant_len(), 1018);
    assert_eq!(cons.occupied_len(), 6);
}

#[test]
fn batches_keep_commands_past_their_inline_room() {
    let mut b = AudioCmdBatch::new();
    assert!(b.is_empty());
    for i in 0..9u64 {
        b.push(at(i));
    }
    assert_eq!(b.len(), 9);
    assert!(!b.is_empty());
    for i in 0..9usize {
        assert_eq!(b.get(i), Some(at(i as u64)));
    }
    assert_eq!(b.get(9), None);
}

#[test]
fn failures_keep_their_order() {
    let mut f = DecodeFailures::new();
    for i in 0..3 {
        f.push(DecodeFailure {
            deck: DeckId::A,
            track_id: format!("t{i}"),
            error: DecodeError::NoTrack,
        });
    }
    let ids: Vec<String> = f.into_vec().into_iter().map(|x| x.track_id).collect();
    assert_eq!(ids, vec!["t0", "t1", "t2"]);
}

#[test]
fn commands_come_out_as_they_went_in_however_looks_and_pushes_alternate() {
    let (mut prod, mut cons) = AudioRing::new().split();
    let mut found = Vec::new();
    let mut sent = 0;
    for round in 0..700u64 {
        for _ in 0..3 {
            if prod.try_push(at(sent)).is_ok() {
                sent += 1;
            }
        }
        for _ in 0..(1 + round % 3) {
            if let Some(cmd) = cons.try_pop() {
                found.push(cmd.at_frame);
            }
        }
    }
    while let Some(cmd) = cons.try_pop() {
        found.push(cmd.at_frame);
    }
    assert!(sent > RING_CAPACITY as u64);
    assert_eq!(found, (0..sent).collect::<Vec<u64>>());
}
