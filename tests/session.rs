use ircmq::codec::DecodeError;
use ircmq::feed::WorkerError;
use ircmq::message::MessageType;
use ircmq::session::{FeedKind, Key, Session, SessionAction, SessionPhase, UiState, Worker};

fn type_line(s: &mut Session, line: &str) {
    for c in line.chars() {
        assert_eq!(s.on_key(Key::Char(c)), SessionAction::Idle);
    }
}

#[test]
fn new_session_shows_user_and_channel() {
    let s = Session::new("Ann".into(), "Lobby".into(), "localhost".into());
    assert_eq!(s.phase, SessionPhase::Joined);
    assert_eq!(s.ui.users, vec!["Ann".to_string()]);
    assert_eq!(s.ui.channels, vec!["Lobby".to_string()]);
    assert!(s.ui.feed.is_empty());
    assert_eq!(s.ui.input, "");
    assert_eq!(s.next_channel, None);
}

#[test]
fn channel_switch_returns_new_room_without_sending() {
    let mut s = Session::new("Ann".into(), "Lobby".into(), "localhost".into());
    type_line(&mut s, "/cc NewRoom");
    assert_eq!(s.on_key(Key::Enter), SessionAction::Disconnect);
    assert_eq!(s.phase, SessionPhase::Disconnecting);
    assert_eq!(s.next_channel, Some("NewRoom".to_string()));
    s.on_control_finished();
    assert_eq!(s.phase, SessionPhase::Terminated);
    assert_eq!(s.next_channel, Some("NewRoom".to_string()));
}

#[test]
fn esc_disconnects_without_next_channel() {
    let mut s = Session::new("Ann".into(), "Lobby".into(), "localhost".into());
    type_line(&mut s, "half");
    assert_eq!(s.on_key(Key::Esc), SessionAction::Disconnect);
    assert_eq!(s.phase, SessionPhase::Disconnecting);
    assert_eq!(s.on_key(Key::Char('x')), SessionAction::Idle);
    assert_eq!(s.ui.input, "half");
    s.on_control_finished();
    assert_eq!(s.phase, SessionPhase::Terminated);
    assert_eq!(s.next_channel, None);
}

#[test]
fn enter_sends_the_line_and_clears_it() {
    let mut s = Session::new("Ann".into(), "Lobby".into(), "localhost".into());
    type_line(&mut s, "hi /cc x");
    assert_eq!(
        s.on_key(Key::Enter),
        SessionAction::Send(MessageType::Message {
            name: "Ann".into(),
            channel: "Lobby".into(),
            content: "hi /cc x".into(),
        })
    );
    assert_eq!(s.ui.input, "");
    assert_eq!(s.phase, SessionPhase::Joined);
    assert_eq!(
        s.on_key(Key::Enter),
        SessionAction::Send(MessageType::Message {
            name: "Ann".into(),
            channel: "Lobby".into(),
            content: "".into(),
        })
    );
}

#[test]
fn switch_command_needs_the_space() {
    let mut s = Session::new("Ann".into(), "Lobby".into(), "localhost".into());
    type_line(&mut s, "/ccRoom");
    assert!(matches!(s.on_key(Key::Enter), SessionAction::Send(_)));
    type_line(&mut s, "/cc ");
    assert_eq!(s.on_key(Key::Enter), SessionAction::Disconnect);
    assert_eq!(s.next_channel, Some(String::new()));
}

#[test]
fn backspace_drops_last_character() {
    let mut s = Session::new("Ann".into(), "Lobby".into(), "localhost".into());
    assert_eq!(s.on_key(Key::Backspace), SessionAction::Idle);
    assert_eq!(s.ui.input, "");
    type_line(&mut s, "héé");
    s.on_key(Key::Backspace);
    assert_eq!(s.ui.input, "hé");
    assert_eq!(s.on_key(Key::Other), SessionAction::Idle);
    assert_eq!(s.ui.input, "hé");
}

#[test]
fn feed_messages_update_the_view() {
    let mut ui = UiState::new(&"Ann".to_string(), &"Lobby".to_string());
    ui.apply_feed(MessageType::Hello { name: "Bo".into(), channel: "Lobby".into() });
    ui.apply_feed(MessageType::Message {
        name: "Bo".into(),
        channel: "Lobby".into(),
        content: "hey".into(),
    });
    ui.apply_feed(MessageType::Goodbye { name: "Bo".into(), channel: "Lobby".into() });
    assert_eq!(ui.feed.len(), 3);
    assert_eq!(ui.feed[0].text, "Bo joined the channel");
    assert_eq!(ui.feed[0].kind, FeedKind::Welcome);
    assert_eq!(ui.feed[1].text, "Bo -> hey");
    assert_eq!(ui.feed[1].kind, FeedKind::Chat);
    assert_eq!(ui.feed[2].text, "Bo left the channel");
    assert_eq!(ui.feed[2].kind, FeedKind::Goodbye);

    ui.apply_feed(MessageType::ResponseMembers { members: vec!["z".into(), "a".into()] });
    assert_eq!(ui.users, vec!["z".to_string(), "a".to_string()]);
    ui.apply_feed(MessageType::ResponseMembers { members: vec![] });
    assert!(ui.users.is_empty());
    ui.apply_feed(MessageType::ResponseChannels { channels: vec!["c2".into(), "c1".into()] });
    assert_eq!(ui.channels, vec!["c2".to_string(), "c1".to_string()]);
    assert_eq!(ui.feed.len(), 3);

    let drawn = ui.feed_newest_first();
    let texts: Vec<&str> = drawn.iter().map(|e| e.text.as_str()).collect();
    assert_eq!(texts, vec!["Bo left the channel", "Bo -> hey", "Bo joined the channel"]);
}

#[test]
fn session_on_feed_keeps_phase() {
    let mut s = Session::new("Ann".into(), "Lobby".into(), "srv".into());
    s.on_feed(MessageType::Hello { name: "Cy".into(), channel: "Lobby".into() });
    assert_eq!(s.phase, SessionPhase::Joined);
    assert_eq!(s.ui.feed[0].text, "Cy joined the channel");
    s.on_control_finished();
    assert_eq!(s.phase, SessionPhase::Joined);
}

#[test]
fn worker_failure_is_shown() {
    let mut s = Session::new("Ann".into(), "Lobby".into(), "srv".into());
    assert_eq!(s.ui.notice, None);
    type_line(&mut s, "ab");
    s.on_worker_failed(Worker::Feed, WorkerError::Decode(DecodeError::MalformedPayload));
    assert_eq!(s.ui.notice, Some("feed stopped: malformed payload".to_string()));
    assert_eq!(s.ui.input, "ab");
    assert_eq!(s.phase, SessionPhase::Joined);
    s.on_worker_failed(Worker::Control, WorkerError::Transport);
    assert_eq!(s.ui.notice, Some("control channel stopped: transport failed".to_string()));
    s.on_worker_failed(Worker::Feed, WorkerError::Decode(DecodeError::SchemaMismatch));
    assert_eq!(
        s.ui.notice,
        Some("feed stopped: payload does not match the schema".to_string())
    );
    s.on_feed(MessageType::ResponseChannels { channels: vec!["x".into()] });
    assert!(s.ui.notice.is_some());
}
