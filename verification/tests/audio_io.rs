use hypehouse_engine::audio::clock::SharedClock;
use hypehouse_engine::audio::command::{AudioCommand, AudioCommandKind};
use hypehouse_engine::audio::io::{
    buffer_end, callback_frames, first_containing, frame_of_sample, match_device_by_substring,
    mix_frames, select_device, wishes_device, OutputDeviceSelection, MAX_MONO_FRAMES,
};
use hypehouse_engine::audio::mixer::AudioMixer;
use hypehouse_engine::audio::ring::AudioRing;
use hypehouse_engine::audio::schedule::{deck_of_command, is_cancelled, CommandSchedule};
use hypehouse_engine::f32_bits::F32Bits;
use hypehouse_engine::state::DeckId;

#[test]
fn match_device_none_substring_returns_none() {
    let names: Vec<String> = vec!["BlackHole 2ch".into(), "MacBook Speakers".into()];
    assert_eq!(match_device_by_substring(&names, None), None);
}

#[test]
fn match_device_empty_substring_returns_none() {
    let names: Vec<String> = vec!["BlackHole 2ch".into()];
    assert_eq!(match_device_by_substring(&names, Some("")), None);
    assert_eq!(match_device_by_substring(&names, Some("   ")), None);
}

#[test]
fn match_device_case_insensitive_first_match() {
    let names: Vec<String> = vec![
        "MacBook Pro Speakers".into(),
        "BlackHole 2ch".into(),
        "External Headphones".into(),
    ];
    assert_eq!(match_device_by_substring(&names, Some("blackhole")), Some(1));
    assert_eq!(match_device_by_substring(&names, Some("BLACK")), Some(1));
    assert_eq!(match_device_by_substring(&names, Some("MacBook")), Some(0));
}

#[test]
fn match_device_no_match_returns_none() {
    let names: Vec<String> = vec!["MacBook Speakers".into(), "AirPods".into()];
    assert_eq!(match_device_by_substring(&names, Some("XX_NONEXISTENT_DEVICE_XX")), None);
}

#[test]
fn match_device_handles_empty_list() {
    let names: Vec<String> = Vec::new();
    assert_eq!(match_device_by_substring(&names, Some("anything")), None);
    assert_eq!(match_device_by_substring(&names, None), None);
}

#[test]
fn match_device_returns_first_of_multiple_matches() {
    let names: Vec<String> =
        vec!["BlackHole 2ch".into(), "BlackHole 16ch".into(), "BlackHole 64ch".into()];
    assert_eq!(match_device_by_substring(&names, Some("blackhole")), Some(0));
}

#[test]
fn names_are_compared_in_unicode_lower_case() {
    let names: Vec<String> = vec!["ÄUSSERER Ausgang".into()];
    assert_eq!(match_device_by_substring(&names, Some("  äusserer ")), Some(0));
    assert_eq!(first_containing(&names, "äusserer"), None);
    assert_eq!(first_containing(&names, "Ausgang"), Some(0));
}

#[test]
fn devices_are_matched_defaulted_or_replaced() {
    let names: Vec<String> = vec!["A".into(), "B".into()];
    assert_eq!(select_device(&names, None), (None, OutputDeviceSelection::Default));
    assert_eq!(select_device(&names, Some(" ")), (None, OutputDeviceSelection::Default));
    assert_eq!(select_device(&names, Some("b")), (Some(1), OutputDeviceSelection::Matched));
    assert_eq!(select_device(&names, Some("c")), (None, OutputDeviceSelection::Fallback));
}

#[test]
fn callbacks_are_cut_into_frames_and_chunks() {
    assert_eq!(callback_frames(1024, 2), 512);
    assert_eq!(callback_frames(7, 2), 3);
    assert_eq!(mix_frames(10_000, 0), MAX_MONO_FRAMES);
    assert_eq!(mix_frames(10_000, 8_192), 1_808);
    assert_eq!(frame_of_sample(5, 2), 2);
}

#[test]
fn pending_commands_are_drained_into_the_mixer() {
    let (mut prod, mut cons) = AudioRing::new().split();
    prod.try_push(AudioCommand {
        at_frame: 0,
        kind: AudioCommandKind::DeckPlay { deck: DeckId::A },
    })
    .unwrap();
    prod.try_push(AudioCommand {
        at_frame: 0,
        kind: AudioCommandKind::Crossfader {
            target: F32Bits { bits: 0.0f32.to_bits() },
            ramp_frames: 240,
        },
    })
    .unwrap();

    let clock = SharedClock::new();
    let mut mixer = AudioMixer::new(48_000);
    let buf = [0.0f32; 256];
    let mut schedule = CommandSchedule::new();
    schedule.apply_due(&mut mixer, &mut cons, buffer_end(clock.frame(), buf.len()));
    clock.advance(buf.len() as u32);

    assert_eq!(clock.frame(), 256);
    assert!(mixer.is_playing(DeckId::A));
    assert_eq!(f32::from_bits(mixer.crossfader().bits), 0.0);
}

fn at(frame: u64, kind: AudioCommandKind) -> AudioCommand {
    AudioCommand { at_frame: frame, kind }
}

#[test]
fn commands_wait_for_their_buffer() {
    let (mut prod, mut cons) = AudioRing::new().split();
    let mut mixer = AudioMixer::new(48_000);
    let mut schedule = CommandSchedule::default();
    prod.try_push(at(512, AudioCommandKind::DeckPlay { deck: DeckId::A })).unwrap();
    prod.try_push(at(256, AudioCommandKind::DeckPlay { deck: DeckId::B })).unwrap();
    prod.try_push(at(0, AudioCommandKind::ArmHandoff { deck: DeckId::A, until_frame: 9 })).unwrap();
    schedule.apply_due(&mut mixer, &mut cons, buffer_end(0, 255));
    assert!(!mixer.is_playing(DeckId::A) && !mixer.is_playing(DeckId::B));
    assert_eq!(mixer.handoff_until(DeckId::A), 9);
    assert_eq!(schedule.pending(), 2);
    schedule.apply_due(&mut mixer, &mut cons, buffer_end(0, 256));
    assert!(!mixer.is_playing(DeckId::A) && mixer.is_playing(DeckId::B));
    prod.try_push(at(300, AudioCommandKind::DeckPause { deck: DeckId::B })).unwrap();
    schedule.apply_due(&mut mixer, &mut cons, buffer_end(256, 256));
    assert!(mixer.is_playing(DeckId::A) && !mixer.is_playing(DeckId::B));
    assert_eq!(schedule.pending(), 0);
    assert_eq!(buffer_end(u64::MAX, 1), u64::MAX);
}

#[test]
fn due_commands_keep_their_order() {
    let (mut prod, mut cons) = AudioRing::new().split();
    let mut mixer = AudioMixer::new(48_000);
    let mut schedule = CommandSchedule::new();
    prod.try_push(at(5, AudioCommandKind::DeckPlay { deck: DeckId::B })).unwrap();
    prod.try_push(at(3, AudioCommandKind::DeckPause { deck: DeckId::B })).unwrap();
    schedule.apply_due(&mut mixer, &mut cons, 10);
    assert!(!mixer.is_playing(DeckId::B));
}

#[test]
fn a_cancellation_drops_what_is_pending_far_ahead() {
    let (mut prod, mut cons) = AudioRing::new().split();
    let mut mixer = AudioMixer::new(48_000);
    let mut schedule = CommandSchedule::new();
    let play = |deck| AudioCommandKind::DeckPlay { deck };
    let handoff = AudioCommandKind::ArmHandoff { deck: DeckId::A, until_frame: 7 };
    prod.try_push(at(1101, play(DeckId::A))).unwrap();
    prod.try_push(at(1100, handoff)).unwrap();
    prod.try_push(at(5000, play(DeckId::B))).unwrap();
    schedule.apply_due(&mut mixer, &mut cons, 512);
    assert_eq!(schedule.pending(), 3);
    let cancel = AudioCommandKind::CancelAfter { deck: DeckId::A, after_frames: 100 };
    prod.try_push(at(1000, cancel)).unwrap();
    schedule.apply_due(&mut mixer, &mut cons, 1024);
    assert_eq!(schedule.pending(), 2);
    schedule.apply_due(&mut mixer, &mut cons, 9000);
    assert!(!mixer.is_playing(DeckId::A) && mixer.is_playing(DeckId::B));
    assert_eq!(mixer.handoff_until(DeckId::A), 7);
    assert!(is_cancelled(at(1000, cancel), at(1101, play(DeckId::A))));
    assert!(!is_cancelled(at(1000, cancel), at(1100, play(DeckId::A))));
    assert!(!is_cancelled(at(1000, cancel), at(1101, play(DeckId::B))));
    assert!(!is_cancelled(at(1000, play(DeckId::A)), at(1101, play(DeckId::A))));
    assert_eq!(deck_of_command(play(DeckId::B)), Some(DeckId::B));
    assert_eq!(deck_of_command(AudioCommandKind::SetMasterLimiterEnabled { enabled: true }), None);
}

#[test]
fn blank_text_is_no_wish_for_a_device() {
    assert!(!wishes_device(None));
    assert!(!wishes_device(Some("")));
    assert!(!wishes_device(Some(" \t ")));
    assert!(wishes_device(Some(" hole ")));
}
