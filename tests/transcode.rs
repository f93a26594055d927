use scripty::transcode::{job_file_name, pcm_bytes, transcoder_args, TRANSCODER};
use scripty::relay::{avatar_url, relay_message, JobGate, Profile};

#[test]
fn job_file_name_is_decimal_id() {
    assert_eq!(job_file_name(0), "0.wav");
    assert_eq!(job_file_name(42), "42.wav");
    assert_eq!(job_file_name(u128::MAX), format!("{}.wav", u128::MAX));
}

#[test]
fn transcoder_args_fixed_format() {
    let args = transcoder_args("out.wav");
    assert_eq!(args.len(), 11);
    assert_eq!(args[0..8].join(" "), "-f s16le -ar 48000 -ac 2 -i -");
    assert_eq!(args[8], "-ac");
    assert_eq!(args[9], "1");
    assert_eq!(args[10], "out.wav");
    assert_eq!(TRANSCODER, "ffmpeg");
}

#[test]
fn pcm_bytes_little_endian() {
    assert_eq!(pcm_bytes(&[1, -2, 0x1234, i16::MIN]), vec![1, 0, 0xfe, 0xff, 0x34, 0x12, 0x00, 0x80]);
    assert!(pcm_bytes(&[]).is_empty());
}

#[test]
fn avatar_url_format() {
    assert_eq!(avatar_url(123456789, "a_hash"), "https://cdn.discordapp.com/avatars/123456789/a_hash.png");
}

#[test]
fn relay_skipped_for_empty_transcript_or_unknown_speaker() {
    let dflt = "https://cdn.discordapp.com/embed/avatars/3.png".to_string();
    let p = Profile { name: "X".to_string(), avatar: None, default_avatar_url: dflt.clone() };
    assert!(relay_message(1, String::new(), Some(p)).is_none());
    assert!(relay_message(1, "text".to_string(), None).is_none());
}

#[test]
fn relay_uses_default_avatar_without_hash() {
    let dflt = "https://cdn.discordapp.com/embed/avatars/3.png".to_string();
    let p = Profile { name: "X".to_string(), avatar: None, default_avatar_url: dflt.clone() };
    let m = relay_message(1, "text".to_string(), Some(p)).unwrap();
    assert_eq!(m.avatar_url, dflt);
    assert_eq!(m.username, "X");
    assert_eq!(m.content, "text");
}

#[test]
fn job_gate_bounds_running_jobs() {
    let mut g = JobGate::new(2);
    assert!(g.try_start());
    assert!(g.try_start());
    assert!(!g.try_start());
    g.finish();
    assert!(g.try_start());
    g.finish();
    g.finish();
    g.finish();
    assert!(g.try_start());
}
