use scripty::admission::Admission;
use scripty::session::{payload_range, DecodeMode, DecoderCommand, Receiver, DEFAULT_MAX_ACTIVE};
use scripty::transcode::prepare_job;
use scripty::relay::{relay_message, Profile};

#[test]
fn active_set_never_exceeds_bound() {
    let mut r = Receiver::with_max_active(DecodeMode::Decode, 3, 0);
    let mut admitted = 0;
    for i in 0..10u32 {
        let (a, _) = r.client_connect(100 + i, 1000 + i as u64);
        if a == Admission::Admitted {
            admitted += 1;
        }
    }
    assert_eq!(admitted, 3);
    let active = (0..10u64).filter(|i| r.is_active(1000 + i)).count();
    let queued = (0..10u64).filter(|i| r.is_queued(1000 + i)).count();
    assert_eq!(active, 3);
    assert_eq!(queued, 7);
    // churn: disconnect and reconnect repeatedly, bound still holds
    for round in 0..20u64 {
        let who = 1000 + (round % 10);
        r.client_disconnect(who);
        r.client_connect(200 + round as u32, who);
        let active = (0..10u64).filter(|i| r.is_active(1000 + i)).count();
        assert!(active <= 3);
    }
}

#[test]
fn default_bound_is_ten() {
    let mut r = Receiver::new(DecodeMode::Decode, 0);
    for i in 0..12u32 {
        r.client_connect(i, i as u64);
    }
    assert_eq!(DEFAULT_MAX_ACTIVE, 10);
    assert!(r.is_active(9));
    assert!(r.is_queued(10));
    assert!(r.is_queued(11));
}

#[test]
fn disconnect_purges_source_state() {
    let mut r = Receiver::new(DecodeMode::Decrypt, 0);
    let (a, cmds) = r.client_connect(7, 77);
    assert_eq!(a, Admission::Admitted);
    assert_eq!(cmds, vec![DecoderCommand::Create(7)]);
    assert!(r.voice_packet(7, &[1, 2, 3]));
    let (promoted, cmds) = r.client_disconnect(77);
    assert_eq!(promoted, None);
    assert_eq!(cmds, vec![DecoderCommand::Drop(7)]);
    assert_eq!(r.speaker_of(7), None);
    assert_eq!(r.buffered_len(7), None);
    assert!(!r.has_decoder(7));
    assert!(!r.is_active(77));
}

#[test]
fn disconnect_promotes_least_queued_speaker() {
    let mut r = Receiver::with_max_active(DecodeMode::Decrypt, 2, 0);
    r.client_connect(1, 10);
    r.client_connect(2, 20);
    let (a, cmds) = r.client_connect(5, 50);
    assert_eq!(a, Admission::Queued);
    assert!(cmds.is_empty());
    let (a, _) = r.client_connect(3, 30);
    assert_eq!(a, Admission::Queued);
    assert_eq!(r.buffered_len(3), None);
    let (promoted, cmds) = r.client_disconnect(10);
    assert_eq!(promoted, Some(30));
    assert_eq!(cmds, vec![DecoderCommand::Drop(1)]);
    assert!(r.is_active(30));
    assert!(!r.is_queued(30));
    assert!(r.is_queued(50));
    // other sources are untouched until the promoted speaker's next update
    assert_eq!(r.buffered_len(3), None);
    assert_eq!(r.buffered_len(2), Some(0));
    assert!(r.has_decoder(2));
    assert_eq!(r.speaking_state_update(3, Some(30)), vec![DecoderCommand::Create(3)]);
    assert_eq!(r.buffered_len(3), Some(0));
    assert!(r.has_decoder(3));
}

#[test]
fn session_keeps_premium_level() {
    let mut r = Receiver::new(DecodeMode::Decode, 3);
    assert_eq!(r.get_premium_level(), 3);
    r.client_connect(1, 10);
    r.client_disconnect(10);
    assert_eq!(r.get_premium_level(), 3);
}

#[test]
fn payload_range_bounds() {
    assert_eq!(payload_range(100, 12, 4), Some((12, 96)));
    assert_eq!(payload_range(100, 0, 0), Some((0, 100)));
    assert_eq!(payload_range(10, 8, 4), None);
    assert_eq!(payload_range(10, 0, 11), None);
    assert_eq!(payload_range(10, 10, 0), Some((10, 10)));
}

#[test]
fn queued_speaker_leaving_promotes_nobody() {
    let mut r = Receiver::with_max_active(DecodeMode::Decode, 1, 0);
    r.client_connect(1, 10);
    r.client_connect(2, 20);
    r.client_connect(3, 30);
    let (promoted, _) = r.client_disconnect(20);
    assert_eq!(promoted, None);
    assert!(r.is_active(10));
    assert!(!r.is_active(30));
    assert!(r.is_queued(30));
}

#[test]
fn frame_for_unknown_source_is_dropped() {
    let mut r = Receiver::new(DecodeMode::Decode, 0);
    r.client_connect(1, 10);
    assert!(!r.voice_packet(99, &[5, 6]));
    assert_eq!(r.buffered_len(99), None);
    assert_eq!(r.speaker_of(99), None);
    assert_eq!(r.buffered_len(1), Some(0));
}

#[test]
fn frame_for_queued_speaker_is_dropped() {
    let mut r = Receiver::with_max_active(DecodeMode::Decode, 0, 0);
    let (a, _) = r.client_connect(1, 10);
    assert_eq!(a, Admission::Queued);
    assert!(!r.voice_packet(1, &[5, 6]));
    assert!(r.speaking_update(1, false).is_none());
}

#[test]
fn stop_with_empty_buffer_yields_no_utterance() {
    let mut r = Receiver::new(DecodeMode::Decode, 0);
    r.client_connect(4, 40);
    assert!(r.speaking_update(4, true).is_none());
    assert!(r.speaking_update(4, false).is_none());
    assert_eq!(r.buffered_len(4), Some(0));
}

#[test]
fn stop_swaps_buffer_for_empty_one() {
    let mut r = Receiver::new(DecodeMode::Decode, 0);
    r.client_connect(4, 40);
    r.voice_packet(4, &[1, -1]);
    let u = r.speaking_update(4, false).unwrap();
    assert_eq!(u.samples, vec![1, -1]);
    assert_eq!(u.speaker, 40);
    assert_eq!(u.ssrc, 4);
    assert_eq!(r.buffered_len(4), Some(0));
    assert!(r.speaking_update(4, false).is_none());
}

#[test]
fn speaking_state_update_ignores_inactive_or_unnamed() {
    let mut r = Receiver::new(DecodeMode::Decrypt, 0);
    assert!(r.speaking_state_update(8, None).is_empty());
    assert!(r.speaking_state_update(8, Some(80)).is_empty());
    assert_eq!(r.speaker_of(8), None);
}

#[test]
fn speaking_state_update_moves_speaker_to_new_source() {
    let mut r = Receiver::new(DecodeMode::Decrypt, 0);
    r.client_connect(8, 80);
    r.voice_packet(8, &[3]);
    let cmds = r.speaking_state_update(9, Some(80));
    assert_eq!(cmds, vec![DecoderCommand::Drop(8), DecoderCommand::Create(9)]);
    assert_eq!(r.speaker_of(8), None);
    assert_eq!(r.speaker_of(9), Some(80));
    assert_eq!(r.source_of_speaker(80), Some(9));
    assert_eq!(r.buffered_len(8), None);
    assert_eq!(r.buffered_len(9), Some(0));
}

#[test]
fn end_to_end_one_second_utterance() {
    let speaker = 555u64;
    let mut r = Receiver::new(DecodeMode::Decode, 0);
    r.client_connect(42, speaker);
    r.speaking_state_update(42, Some(speaker));
    // 20 ms of 48 kHz stereo: 960 frames of two samples
    let frame: Vec<i16> = (0..1920).map(|i| (i % 200 + 1) as i16).collect();
    for _ in 0..50 {
        assert!(r.voice_packet(42, &frame));
    }
    let u = r.speaking_update(42, false).expect("one utterance");
    assert_eq!(u.samples.len(), 96000);
    assert!(r.speaking_update(42, false).is_none());
    let job = prepare_job(&u, 12345);
    assert_eq!(job.file_path, "12345.wav");
    let expected: Vec<String> = ["-f", "s16le", "-ar", "48000", "-ac", "2", "-i", "-", "-ac", "1", "12345.wav"]
        .iter()
        .map(|s| s.to_string())
        .collect();
    assert_eq!(job.args, expected);
    assert_eq!(job.input.len(), 192000);
    assert_eq!(job.speaker, speaker);
    let profile = Profile {
        name: "Sam".to_string(),
        avatar: Some("abc".to_string()),
        default_avatar_url: "https://cdn.discordapp.com/embed/avatars/0.png".to_string(),
    };
    let m = relay_message(job.speaker, "hello there".to_string(), Some(profile)).unwrap();
    assert_eq!(m.content, "hello there");
    assert_eq!(m.username, "Sam");
    assert_eq!(m.avatar_url, "https://cdn.discordapp.com/avatars/555/abc.png");
}

#[test]
fn interleaved_frames_stay_with_their_source() {
    let mut r = Receiver::new(DecodeMode::Decode, 0);
    r.client_connect(1, 10);
    r.client_connect(2, 20);
    let mut expect_a: Vec<i16> = Vec::new();
    let mut expect_b: Vec<i16> = Vec::new();
    for i in 0..100i16 {
        if i % 3 == 0 {
            r.voice_packet(2, &[i, -i]);
            expect_b.extend_from_slice(&[i, -i]);
        } else {
            r.voice_packet(1, &[i]);
            expect_a.push(i);
        }
    }
    assert_eq!(r.speaking_update(1, false).unwrap().samples, expect_a);
    assert_eq!(r.speaking_update(2, false).unwrap().samples, expect_b);
}

#[test]
fn decrypt_mode_requires_decoder() {
    let mut r = Receiver::new(DecodeMode::Decrypt, 0);
    r.client_connect(6, 60);
    assert!(r.has_decoder(6));
    assert!(r.accepts_frame(6));
    assert_eq!(r.decode_mode(), DecodeMode::Decrypt);
    let mut d = Receiver::new(DecodeMode::Decode, 0);
    let (_, cmds) = d.client_connect(6, 60);
    assert!(cmds.is_empty());
    assert!(!d.has_decoder(6));
    assert!(d.accepts_frame(6));
}
