use ircmq::bridge::{poll_timeout_ms, tick_due, TICK_RATE_MS};
use ircmq::settings::{control_endpoint, feed_endpoint, subscriptions, Settings};

#[test]
fn endpoints_use_the_fixed_ports() {
    assert_eq!(control_endpoint("localhost"), "tcp://localhost:5555");
    assert_eq!(feed_endpoint("10.0.0.2"), "tcp://10.0.0.2:6666");
}

#[test]
fn feed_subscribes_to_broadcast_and_channel() {
    assert_eq!(subscriptions("Lobby"), vec!["broadcast".to_string(), "Lobby".to_string()]);
}

#[test]
fn missing_arguments_take_defaults() {
    let s = Settings::from_args("Ann".into(), None, None);
    assert_eq!(s.channel, "Channel #1");
    assert_eq!(s.server, "localhost");
    let s = Settings::from_args("Ann".into(), Some("X".into()), Some("srv".into()));
    assert_eq!(s.name, "Ann");
    assert_eq!(s.channel, "X");
    assert_eq!(s.server, "srv");
}

#[test]
fn switch_keeps_name_and_server() {
    let s = Settings::from_args("Ann".into(), Some("Old".into()), Some("srv".into()));
    let next = s.after_session(Some("NewRoom".into())).unwrap();
    assert_eq!(next.name, "Ann");
    assert_eq!(next.server, "srv");
    assert_eq!(next.channel, "NewRoom");
    assert_eq!(s.after_session(None), None);
}

#[test]
fn poll_never_outlasts_the_tick() {
    assert_eq!(TICK_RATE_MS, 100);
    assert_eq!(poll_timeout_ms(100, 30), 70);
    assert_eq!(poll_timeout_ms(100, 100), 0);
    assert_eq!(poll_timeout_ms(100, 250), 0);
    assert!(!tick_due(100, 99));
    assert!(tick_due(100, 100));
}
