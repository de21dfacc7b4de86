use hypehouse_engine::audio::decode::{
    filled_handles, pack_state, unpack_state, DecodeError, DecodeHandle, DecodeService, MidStreamFailureKind,
    StemHandle, StemOpening, StemStep, StubDecodeService, MAX_DECODE_SLOTS,
};
use hypehouse_engine::audio::decoder::{
    decoder_step, media_origin, panic_failure, panic_payload_to_string, pick_track, ContainerTrack,
    DecoderEvent, DecoderStep, MediaOrigin,
};
use hypehouse_engine::audio::samples::{
    after_drop, chunk_at, drain_queue, fill_stereo, interleave, left_over, next_chunk,
    offer_sample, place_sample, read_queue, read_slot, read_stem, read_track, silence_tail,
    stem_to_read, SampleQueue, SampleReader,
};
use hypehouse_engine::audio::slots::{decode_handle, encode_handle, SlotTable};
use hypehouse_engine::f32_bits::F32Bits;
use hypehouse_engine::state::TrackRef;

fn track(id: &str, path: &str) -> TrackRef {
    TrackRef { id: id.to_string(), path: path.to_string() }
}

fn f(x: f32) -> F32Bits {
    F32Bits { bits: x.to_bits() }
}

fn signal(v: &[f32]) -> Vec<F32Bits> {
    v.iter().map(|x| f(*x)).collect()
}

fn floats(v: &[F32Bits]) -> Vec<f32> {
    v.iter().map(|x| f32::from_bits(x.bits)).collect()
}

#[test]
fn handle_encoding_round_trip() {
    for slot in 0..MAX_DECODE_SLOTS {
        for id in [1u32, 7, 999, 0x0FFF_FFFE] {
            let h = DecodeHandle(encode_handle(slot, id));
            let (s2, i2) = decode_handle(h);
            assert_eq!(s2, slot);
            assert_eq!(i2, id);
        }
    }
}

#[test]
fn underruns_are_padded_and_counted() {
    let mut table = SlotTable::new();
    let queue = SampleQueue::new(64);
    let (mut writer, mut reader) = (queue.writer(), queue.reader());
    for i in 0..10 {
        assert_eq!(offer_sample(&mut writer, f(i as f32 + 1.0)), None);
    }
    let mut buf = vec![f(9.0); 16];
    let r = read_queue(&mut reader, &mut buf);
    assert_eq!(r.samples, 16);
    assert!(r.underrun);
    table.count_underrun();
    assert!(
        table.underrun_count() >= 1,
        "expected underrun events, got {}",
        table.underrun_count()
    );
    assert_eq!(floats(&buf)[..10], [1.0, 2.0, 3.0, 4.0, 5.0, 6.0, 7.0, 8.0, 9.0, 10.0]);
    assert!(f32::from_bits(buf[buf.len() - 1].bits).abs() < 1e-6);
    let r = read_queue(&mut reader, &mut []);
    assert!(!r.underrun);
}

#[test]
fn mono_signals_feed_both_sides() {
    let mono = vec![signal(&[0.5, -0.25, 0.125])];
    let mut left = Vec::new();
    let mut right = Vec::new();
    fill_stereo(&mono, 3, &mut left, &mut right);
    let buf = floats(&interleave(&left, &right));
    let mut mismatches = 0;
    for i in (0..buf.len()).step_by(2) {
        if (buf[i] - buf[i + 1]).abs() > 1e-6 {
            mismatches += 1;
        }
    }
    assert_eq!(mismatches, 0, "mono input must duplicate L=R");
    assert!(buf.iter().any(|s| s.abs() > 0.05), "expected non-trivial audio energy");
    assert_eq!(buf, vec![0.5, 0.5, -0.25, -0.25, 0.125, 0.125]);
}

#[test]
fn close_stops_decoder_thread() {
    let mut svc = SlotTable::new();
    let slot = svc.claim().unwrap();
    let h = svc.finish_open(slot, Ok(())).unwrap();
    assert_eq!(svc.open_slot_count(), 1);
    svc.close(h);
    assert_eq!(svc.open_slot_count(), 0);
    svc.close(h);
    assert_eq!(svc.open_slot_count(), 0);
}

#[test]
fn open_close_reuses_slots() {
    let mut svc = SlotTable::new();
    for _ in 0..(MAX_DECODE_SLOTS * 2) {
        let slot = svc.claim().unwrap();
        let h = svc.finish_open(slot, Ok(())).unwrap();
        svc.close(h);
    }
    assert_eq!(svc.open_slot_count(), 0);
}

#[test]
fn slot_exhaustion_returns_no_free_slot() {
    let mut svc = StubDecodeService::new();
    let mut handles = Vec::new();
    for i in 0..MAX_DECODE_SLOTS {
        let key = format!("ex-{i}");
        let h = svc.open(&track(&key, &format!("mem://{key}")), 48_000).unwrap();
        handles.push(h);
    }
    let key = "ex-overflow";
    let res = svc.open(&track(key, &format!("mem://{key}")), 48_000);
    assert!(matches!(res, Err(DecodeError::NoFreeSlot)));
    for h in handles {
        svc.close(h);
    }
    assert!(svc.open(&track(key, &format!("mem://{key}")), 48_000).is_ok());
}

#[test]
fn the_empty_handle_reaches_nothing() {
    let svc = SlotTable::new();
    assert_eq!(svc.slot_for(DecodeHandle::none()), None);
    assert_eq!(StubDecodeService::new().tone_of(DecodeHandle::none()), None);
}

#[test]
fn read_on_unknown_file_path_errors_at_open() {
    let mut svc = SlotTable::new();
    assert!(matches!(media_origin("/nonexistent/file.wav"), MediaOrigin::File));
    let slot = svc.claim().unwrap();
    let failed = DecodeError::Io {
        path: "/nonexistent/file.wav".into(),
        source: "No such file or directory (os error 2)".into(),
    };
    let res = svc.finish_open(slot, Err(failed));
    assert!(matches!(res, Err(DecodeError::Io { .. })), "expected IO error, got {res:?}");
    assert_eq!(svc.open_slot_count(), 0);
}

#[test]
fn stub_open_returns_distinct_handles() {
    let mut svc = StubDecodeService::new();
    let a = svc.open(&track("a", "/a.mp3"), 48_000).unwrap();
    let b = svc.open(&track("b", "/b.mp3"), 48_000).unwrap();
    assert_ne!(a, b);
    svc.close(a);
    svc.close(b);
}

#[test]
fn stub_tones_keep_rate_and_phase() {
    let mut svc = StubDecodeService::new();
    let h = svc.open(&track("t", "/t.mp3"), 44_100).unwrap();
    assert_eq!(svc.tone_of(h), Some((44_100, f(0.0))));
    svc.set_phase(h, f(1.25));
    assert_eq!(svc.tone_of(h), Some((44_100, f(1.25))));
    svc.close(h);
    assert_eq!(svc.tone_of(h), None);
    assert_eq!(svc.underrun_count(), 0);
}

#[test]
fn mid_stream_failure_kind_category_mapping() {
    assert_eq!(
        MidStreamFailureKind::DecodeFailed("x".into()).category(),
        "mid_stream_decode_failure",
    );
    assert_eq!(
        MidStreamFailureKind::ResampleFailed("x".into()).category(),
        "mid_stream_decode_failure",
    );
    assert_eq!(
        MidStreamFailureKind::ThreadPanic("x".into()).category(),
        "decoder_thread_panic",
    );
}

#[test]
fn panicking_test_decoder_thread_surfaces_decoder_thread_panic() {
    let got = panic_failure(
        "trk-panic-1".to_string(),
        Some("synthetic panic in decoder thread".to_string()),
    );
    assert_eq!(got.track_id, "trk-panic-1");
    assert_eq!(got.kind.category(), "decoder_thread_panic");
    assert!(
        got.kind.message().contains("synthetic panic"),
        "message should preserve panic payload: {}",
        got.kind.message()
    );
    assert_eq!(
        panic_payload_to_string(None),
        "decoder thread panicked (non-string payload)"
    );
}

#[test]
fn audio_thread_continues_silence_pad_after_decoder_panic() {
    let mut queue = SampleQueue::new(64).reader();
    let mut buf = vec![f(1.0); 32];
    let r = read_queue(&mut queue, &mut buf);
    assert!(r.underrun);
    assert!(
        floats(&buf).iter().all(|s| *s == 0.0),
        "audio thread should have silence-padded after panic",
    );
}

#[test]
fn stale_handles_reach_the_slot_but_closed_ones_nothing() {
    let mut t = SlotTable::new();
    let slot = t.claim().unwrap();
    let h = t.finish_open(slot, Ok(())).unwrap();
    assert_eq!(decode_handle(h), (0, 1));
    assert_eq!(t.slot_for(h), Some(0));
    assert!(t.is_open(0));
    assert_eq!(t.close(h), Some(0));
    assert_eq!(t.slot_for(h), None);
    assert_eq!(t.close(h), None);
    let claimed = t.claim().unwrap();
    t.release(claimed);
    assert_eq!(t.open_slot_count(), 0);
    assert_eq!(DecodeHandle(encode_handle(15, 0x0FFF_FFFF)), DecodeHandle::none());
}

#[test]
fn tone_states_pack_and_unpack() {
    for (rate, phase) in [(0u32, 0.0f32), (48_000, 6.25), (u32::MAX, -1.0)] {
        assert_eq!(unpack_state(pack_state(rate, f(phase))), (rate, f(phase)));
    }
}

#[test]
fn error_texts_name_what_went_wrong() {
    let text = |e: DecodeError| e.message();
    assert_eq!(text(DecodeError::NoFreeSlot), "decode slot table exhausted (max 16)");
    assert_eq!(
        text(DecodeError::Io { path: "/x".into(), source: "gone".into() }),
        "io error opening /x: gone"
    );
    assert_eq!(text(DecodeError::Probe("p".into())), "symphonia probe failed: p");
    assert_eq!(text(DecodeError::NoTrack), "no default audio track in container");
    assert_eq!(text(DecodeError::Resampler("r".into())), "rubato resampler init failed: r");
    assert_eq!(
        text(DecodeError::UnknownInlineSource("k".into())),
        "track id `k` is reserved for inline test sources but no source registered"
    );
    assert_eq!(text(DecodeError::Spawn("s".into())), "failed to spawn decoder thread: s");
}

#[test]
fn stem_handles_hold_four() {
    let none = StemHandle::none();
    assert!(!none.is_some());
    let mut one = none;
    one.0[2] = DecodeHandle(5);
    assert!(one.is_some());
    assert_eq!(one.get(2), DecodeHandle(5));
    assert_eq!(one.get(3), DecodeHandle::none());
}

#[test]
fn paths_tell_where_audio_comes_from() {
    match media_origin("mem://key") {
        MediaOrigin::Inline(k) => assert_eq!(k, "key"),
        other => panic!("expected Inline, got {other:?}"),
    }
    assert!(matches!(media_origin("http://h/x"), MediaOrigin::Http));
    assert!(matches!(media_origin("https://h/x"), MediaOrigin::Http));
    assert!(matches!(media_origin("HTTP://h/x"), MediaOrigin::File));
    assert!(matches!(media_origin(""), MediaOrigin::File));
}

#[test]
fn the_first_track_with_a_codec_is_picked() {
    let t = |id, has_codec, sample_rate| ContainerTrack { id, has_codec, sample_rate };
    let tracks = vec![t(1, false, Some(1)), t(2, true, None), t(3, true, Some(44_100))];
    assert_eq!(pick_track(&tracks, 48_000), Some((1, 48_000)));
    assert_eq!(pick_track(&vec![t(3, true, Some(44_100))], 48_000), Some((0, 44_100)));
    assert_eq!(pick_track(&vec![t(1, false, None)], 48_000), None);
}

#[test]
fn decoder_threads_step_from_event_to_event() {
    let step = |e| decoder_step(e, 3, "trk");
    assert!(matches!(step(DecoderEvent::ShutDown), DecoderStep::Stop));
    assert!(matches!(step(DecoderEvent::StreamEnded), DecoderStep::Stop));
    assert!(matches!(step(DecoderEvent::PacketRead { track: 3 }), DecoderStep::DecodePacket));
    assert!(matches!(step(DecoderEvent::PacketRead { track: 4 }), DecoderStep::ReadPacket));
    assert!(matches!(step(DecoderEvent::Decoded), DecoderStep::PushSamples));
    assert!(matches!(step(DecoderEvent::PacketDamaged), DecoderStep::ReadPacket));
    assert!(matches!(step(DecoderEvent::Pushed), DecoderStep::ReadPacket));
    let failed = |e| match step(e) {
        DecoderStep::Fail(f) => (f.track_id.clone(), f.deck, f.kind.message().to_string()),
        other => panic!("expected Fail, got {other:?}"),
    };
    assert_eq!(
        failed(DecoderEvent::ReadFailed("x".into())),
        ("trk".to_string(), None, "reader.next_packet failed: x".to_string())
    );
    assert_eq!(
        failed(DecoderEvent::DecodeFailed("x".into())).2,
        "decoder.decode failed: x"
    );
    assert_eq!(
        failed(DecoderEvent::ResampleFailed("x".into())).2,
        "rubato resample failed mid-stream: x"
    );
}

#[test]
fn queues_drain_and_give_back() {
    let queue = SampleQueue::new(4);
    let (mut writer, mut reader) = (queue.writer(), queue.reader());
    for i in 0..4 {
        assert_eq!(offer_sample(&mut writer, f(i as f32)), None);
    }
    assert_eq!(offer_sample(&mut writer, f(9.0)), Some(f(9.0)));
    assert_eq!(drain_queue(&mut reader, 3), 3);
    assert_eq!(drain_queue(&mut reader, 10), 1);
    assert_eq!(drain_queue(&mut reader, 10), 0);
}

#[test]
fn a_popped_sample_counts_and_a_refused_one_is_left_over() {
    assert_eq!(after_drop(4, Some(f(0.5))), Some(5));
    assert_eq!(after_drop(4, None), None);
    assert_eq!(left_over(Ok(())), None);
    assert_eq!(left_over(Err(f(0.5))), Some(f(0.5)));
}

#[test]
fn buffers_are_filled_and_padded() {
    let mut buf = signal(&[7.0; 4]);
    let queue = SampleQueue::new(8);
    let (mut writer, mut reader) = (queue.writer(), queue.reader());
    for x in [1.0, 2.0, 1.0, 2.0, 3.0, 4.0] {
        assert_eq!(offer_sample(&mut writer, f(x)), None);
    }
    let r = read_queue(&mut reader, &mut buf[..2]);
    assert_eq!((r.samples, r.underrun), (2, false));
    assert_eq!(floats(&buf[..2]), vec![1.0, 2.0]);
    let r = read_queue(&mut reader, &mut buf);
    assert_eq!((r.samples, r.underrun), (4, false));
    assert_eq!(floats(&buf), vec![1.0, 2.0, 3.0, 4.0]);
    assert_eq!(place_sample(&mut buf, 1, Some(f(7.0))), Some(2));
    assert_eq!(place_sample(&mut buf, 2, None), None);
    assert_eq!(floats(&buf), vec![1.0, 7.0, 3.0, 4.0]);
    silence_tail(&mut buf, 1);
    assert_eq!(floats(&buf), vec![1.0, 0.0, 0.0, 0.0]);
}

#[test]
fn wide_buffers_feed_their_first_two_channels() {
    let channels = vec![signal(&[1.0, 2.0, 3.0]), signal(&[4.0, 5.0]), signal(&[9.0; 3])];
    let mut left = signal(&[0.5]);
    let mut right = signal(&[0.5]);
    fill_stereo(&channels, 3, &mut left, &mut right);
    assert_eq!(floats(&left), vec![0.5, 1.0, 2.0]);
    assert_eq!(floats(&right), vec![0.5, 4.0, 5.0]);
    fill_stereo(&vec![], 3, &mut left, &mut right);
    assert_eq!(left.len(), 3);
}

#[test]
fn signals_are_cut_into_padded_chunks() {
    let s = signal(&[1.0, 2.0, 3.0, 4.0, 5.0]);
    assert_eq!(floats(&chunk_at(&s, 0, 3)), vec![1.0, 2.0, 3.0]);
    assert_eq!(next_chunk(5, 0, 3), Some(3));
    assert_eq!(floats(&chunk_at(&s, 3, 3)), vec![4.0, 5.0, 0.0]);
    assert_eq!(next_chunk(5, 3, 3), None);
}

#[test]
fn reads_reach_open_tracks_only_and_count_underruns() {
    let mut table = SlotTable::new();
    let queues: Vec<SampleQueue> = (0..MAX_DECODE_SLOTS).map(|_| SampleQueue::new(8)).collect();
    let mut ends: Vec<SampleReader> = queues.iter().map(|q| q.reader()).collect();
    let slot = table.claim().unwrap();
    let h = table.finish_open(slot, Ok(())).unwrap();
    let one = F32Bits { bits: 1.0f32.to_bits() };
    let two = F32Bits { bits: 2.0f32.to_bits() };
    let zero = F32Bits { bits: 0 };
    assert_eq!(offer_sample(&mut queues[slot].writer(), one), None);
    assert_eq!(offer_sample(&mut queues[slot].writer(), two), None);
    assert_eq!(offer_sample(&mut queues[slot].writer(), one), None);
    let mut buf = [zero; 2];
    assert_eq!(read_track(&mut table, &mut ends, h, &mut buf), 2);
    assert_eq!(buf, [one, two]);
    assert_eq!(table.underrun_count(), 0);
    assert_eq!(read_track(&mut table, &mut ends, h, &mut buf), 2);
    assert_eq!(buf, [one, zero]);
    assert_eq!(table.underrun_count(), 1);
    buf = [two; 2];
    assert_eq!(read_track(&mut table, &mut ends, DecodeHandle::none(), &mut buf), 0);
    assert_eq!(read_track(&mut table, &mut ends, h, &mut []), 0);
    table.close(h);
    assert_eq!(read_track(&mut table, &mut ends, h, &mut buf), 0);
    assert_eq!(buf, [two; 2]);
    assert_eq!(table.underrun_count(), 1);
}

#[test]
fn closed_slots_are_not_read() {
    let queue = SampleQueue::new(8);
    let mut reader = queue.reader();
    assert_eq!(offer_sample(&mut queue.writer(), f(1.0)), None);
    let mut buf = [f(5.0); 2];
    let r = read_slot(false, &mut reader, &mut buf);
    assert_eq!((r.samples, r.underrun, buf), (0, false, [f(5.0); 2]));
    let r = read_slot(true, &mut reader, &mut []);
    assert_eq!((r.samples, r.underrun), (0, false));
    let r = read_slot(true, &mut reader, &mut buf);
    assert_eq!((r.samples, r.underrun, buf), (2, true, [f(1.0), f(0.0)]));
}

#[test]
fn stems_are_read_through_their_handles() {
    let h = DecodeHandle(7);
    let none = DecodeHandle::none();
    let stems = StemHandle([none, h, none, none]);
    let mut buf = [f(5.0); 2];
    assert_eq!(stem_to_read(stems, 1, &mut buf), Some(h));
    assert_eq!(buf, [f(5.0); 2]);
    assert_eq!(stem_to_read(stems, 0, &mut buf), None);
    assert_eq!(buf, [f(0.0); 2]);
}

#[test]
fn missing_stems_are_silent() {
    let mut table = SlotTable::new();
    let queues: Vec<SampleQueue> = (0..MAX_DECODE_SLOTS).map(|_| SampleQueue::new(8)).collect();
    let mut ends: Vec<SampleReader> = queues.iter().map(|q| q.reader()).collect();
    let slot = table.claim().unwrap();
    let h = table.finish_open(slot, Ok(())).unwrap();
    let one = F32Bits { bits: 1.0f32.to_bits() };
    let zero = F32Bits { bits: 0 };
    assert_eq!(offer_sample(&mut queues[slot].writer(), one), None);
    let none = DecodeHandle::none();
    let stems = StemHandle([none, h, none, none]);
    let mut buf = [one; 3];
    assert_eq!(read_stem(&mut table, &mut ends, stems, 0, &mut buf), 3);
    assert_eq!(buf, [zero; 3]);
    assert_eq!(table.underrun_count(), 0);
    assert_eq!(read_stem(&mut table, &mut ends, stems, 1, &mut buf), 3);
    assert_eq!(buf, [one, zero, zero]);
    assert_eq!(table.underrun_count(), 1);
    assert_eq!(read_stem(&mut table, &mut ends, stems, 7, &mut buf), 3);
    assert_eq!(buf, [zero; 3]);
}

fn stem_paths() -> [String; 4] {
    ["v.wav", "d.wav", "b.wav", "o.wav"].map(String::from)
}

#[test]
fn stems_are_opened_in_turn() {
    let t = track("song", "song.wav");
    let paths = stem_paths();
    let mut stems = StemOpening::begin(&t, &paths);
    for (i, path) in paths.iter().enumerate() {
        match stems.next() {
            StemStep::Open(part) => {
                assert_eq!(part.id, format!("song::stem{i}"));
                assert_eq!(&part.path, path);
            }
            other => panic!("unexpected step {other:?}"),
        }
        stems.answer(Ok(DecodeHandle(encode_handle(i + 3, 9))));
    }
    match stems.next() {
        StemStep::Finished(Ok(h)) => {
            assert_eq!(h.get(0), DecodeHandle(encode_handle(3, 9)));
            assert_eq!(h.get(3), DecodeHandle(encode_handle(6, 9)));
        }
        other => panic!("unexpected step {other:?}"),
    }
}

#[test]
fn a_service_opens_four_stems_or_none() {
    let mut svc = StubDecodeService::new();
    let t = track("song", "/song.wav");
    let stems = svc.open_stems(&t, &stem_paths(), 48_000).unwrap();
    for i in 0..4 {
        assert!(svc.tone_of(stems.get(i)).is_some());
    }
    // Three free slots are too few.
    let mut rest = Vec::new();
    for _ in 0..MAX_DECODE_SLOTS - 7 {
        rest.push(svc.open(&t, 48_000).unwrap());
    }
    assert!(matches!(
        svc.open_stems(&t, &stem_paths(), 48_000),
        Err(DecodeError::NoFreeSlot)
    ));
    for i in 0..4 {
        assert!(svc.tone_of(stems.get(i)).is_some());
    }
    for h in rest {
        assert!(svc.tone_of(h).is_some());
    }
}

#[test]
fn handles_are_never_given_out_twice() {
    let mut svc = StubDecodeService::new();
    let t = track("a", "/a.mp3");
    let mut seen = Vec::new();
    for _ in 0..50 {
        let h = svc.open(&t, 48_000).unwrap();
        assert!(h.is_some());
        assert!(!seen.contains(&h));
        seen.push(h);
        svc.close(h);
    }
    assert_eq!(seen[0], DecodeHandle(encode_handle(0, 1)));
    assert_eq!(seen[49], DecodeHandle(encode_handle(0, 50)));
}

#[test]
fn closing_stems_twice_is_harmless() {
    let mut svc = StubDecodeService::new();
    let stems = svc.open_stems(&track("song", "/song.wav"), &stem_paths(), 48_000).unwrap();
    svc.close_stems(stems);
    let other = svc.open(&track("b", "/b.mp3"), 48_000).unwrap();
    assert_eq!(other, DecodeHandle(encode_handle(0, 5)));
    svc.close(other);
    svc.close_stems(stems);
    for i in 0..4 {
        assert_eq!(svc.tone_of(stems.get(i)), None);
    }
}

#[test]
fn a_failed_stem_closes_those_before_it() {
    let t = track("song", "song.wav");
    let paths = stem_paths();
    let mut stems = StemOpening::begin(&t, &paths);
    let first = DecodeHandle(encode_handle(0, 1));
    let second = DecodeHandle(encode_handle(1, 2));
    for outcome in [Ok(first), Ok(second), Err(DecodeError::NoTrack)] {
        assert!(matches!(stems.next(), StemStep::Open(_)));
        stems.answer(outcome);
    }
    assert!(matches!(stems.next(), StemStep::Close(h) if h == first));
    assert!(matches!(stems.next(), StemStep::Close(h) if h == second));
    assert!(matches!(stems.next(), StemStep::Finished(Err(DecodeError::NoTrack))));
}

#[test]
fn read_on_none_handle_returns_zero() {
    let mut table = SlotTable::new();
    let queues: Vec<SampleQueue> = (0..MAX_DECODE_SLOTS).map(|_| SampleQueue::new(8)).collect();
    let mut ends: Vec<SampleReader> = queues.iter().map(|q| q.reader()).collect();
    let mut buf = [f(0.5); 64];
    let n = read_track(&mut table, &mut ends, DecodeHandle::none(), &mut buf);
    assert_eq!(n, 0);
    assert!(floats(&buf).iter().all(|s| (*s - 0.5).abs() < 1e-6));
}

#[test]
fn samples_of_several_writers_come_out_in_order_at_several_readers() {
    let queue = SampleQueue::new(4);
    let (mut w1, mut w2) = (queue.writer(), queue.writer());
    let (mut r1, mut r2) = (queue.reader(), queue.reader());
    assert_eq!(offer_sample(&mut w1, f(1.0)), None);
    assert_eq!(offer_sample(&mut w2, f(2.0)), None);
    assert_eq!(offer_sample(&mut w1, f(3.0)), None);
    assert_eq!(offer_sample(&mut w2, f(4.0)), None);
    assert_eq!(offer_sample(&mut w1, f(5.0)), Some(f(5.0)));
    let mut buf = vec![f(0.0)];
    read_queue(&mut r1, &mut buf);
    assert_eq!(floats(&buf), [1.0]);
    let mut buf = vec![f(0.0); 2];
    read_queue(&mut r2, &mut buf);
    assert_eq!(floats(&buf), [2.0, 3.0]);
    assert_eq!(offer_sample(&mut w1, f(6.0)), None);
    read_queue(&mut r1, &mut buf);
    assert_eq!(floats(&buf), [4.0, 6.0]);
}

#[test]
fn filled_stems_are_listed_in_order() {
    let none = DecodeHandle::none();
    assert!(filled_handles(StemHandle([none; 4])).is_empty());
    let stems = StemHandle([DecodeHandle(7), none, DecodeHandle(3), DecodeHandle(9)]);
    assert_eq!(filled_handles(stems), vec![DecodeHandle(7), DecodeHandle(3), DecodeHandle(9)]);
}
