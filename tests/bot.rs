use scripty::autojoin::{forget_binding, plan_join, GuildBinding, JoinTarget};
use scripty::bot::{activity_text, get_avg_ws_latency, latency_text, Handler};

#[test]
fn get_avg_ws_latency_of_reporting_shards() {
    assert_eq!(get_avg_ws_latency(&[]), (0, 0));
    assert_eq!(get_avg_ws_latency(&[None, None]), (0, 0));
    assert_eq!(get_avg_ws_latency(&[Some(10), None, Some(21)]), (15, 2));
    assert_eq!(get_avg_ws_latency(&[Some(u64::MAX), Some(u64::MAX)]), (u64::MAX as u128, 2));
    assert_eq!(get_avg_ws_latency(&[Some(30), None, Some(45)]), (37, 2));
    // many shards, few reporting
    let mut many: Vec<Option<u64>> = vec![None; 300];
    many[7] = Some(12);
    many[250] = Some(20);
    assert_eq!(get_avg_ws_latency(&many), (16, 2));
}

#[test]
fn latency_text_nan_when_zero() {
    assert_eq!(latency_text(0), "NaN");
    assert_eq!(latency_text(87), "87");
}

#[test]
fn activity_line() {
    assert_eq!(activity_text("scripty"), "@scripty help");
}

#[test]
fn stats_loop_claimed_once() {
    let h = Handler::new(std::time::SystemTime::now());
    assert!(h.claim_stats_loop());
    assert!(!h.claim_stats_loop());
}

#[test]
fn plan_join_skips_incomplete_or_connected() {
    let row = GuildBinding { guild_id: 5, default_bind: Some(6), output_channel: Some(7) };
    assert_eq!(
        plan_join(&row, false),
        Some(JoinTarget { guild_id: 5, voice_channel: 6, output_channel: 7 })
    );
    assert_eq!(plan_join(&row, true), None);
    let row = GuildBinding { guild_id: 5, default_bind: None, output_channel: Some(7) };
    assert_eq!(plan_join(&row, false), None);
    let row = GuildBinding { guild_id: 5, default_bind: Some(6), output_channel: None };
    assert_eq!(plan_join(&row, false), None);
    assert!(forget_binding(false));
    assert!(!forget_binding(true));
}
