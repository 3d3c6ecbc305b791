use ircmq::codec::encode;
use ircmq::control::{ControlAction, ControlEvent, ControlPhase, ControlWorker};
use ircmq::message::MessageType;

fn chat(content: &str) -> MessageType {
    MessageType::Message { name: "Ann".into(), channel: "Lobby".into(), content: content.into() }
}

#[test]
fn session_makes_n_plus_two_requests() {
    let (mut w, hello) = ControlWorker::start("Ann".into(), "Lobby".into());
    assert_eq!(hello, "{\"tag\":\"Hello\",\"name\":\"Ann\",\"channel\":\"Lobby\"}");
    assert_eq!(w.phase, ControlPhase::Greeting);
    let mut requests = 1;
    let mut replies = 0;

    assert_eq!(w.step(ControlEvent::Reply), ControlAction::AwaitQueue);
    replies += 1;
    for text in ["one", "two", "three"] {
        let m = chat(text);
        let expected = encode(&m);
        assert_eq!(w.step(ControlEvent::Queued(m)), ControlAction::Request(expected));
        requests += 1;
        assert_eq!(w.phase, ControlPhase::Forwarding);
        assert_eq!(w.step(ControlEvent::Reply), ControlAction::AwaitQueue);
        replies += 1;
    }
    assert_eq!(
        w.step(ControlEvent::QueueClosed),
        ControlAction::Request(
            "{\"tag\":\"Goodbye\",\"name\":\"Ann\",\"channel\":\"Lobby\"}".to_string()
        )
    );
    requests += 1;
    assert_eq!(w.step(ControlEvent::Reply), ControlAction::Stop);
    replies += 1;
    assert_eq!(w.phase, ControlPhase::Finished);
    assert_eq!(requests, 3 + 2);
    assert_eq!(replies, 3 + 2);
}

#[test]
fn no_queued_message_before_greeting_reply() {
    let (mut w, _) = ControlWorker::start("Ann".into(), "Lobby".into());
    assert_eq!(w.step(ControlEvent::Queued(chat("early"))), ControlAction::Abort);
    assert_eq!(w.phase, ControlPhase::Failed);
    assert_eq!(w.step(ControlEvent::Reply), ControlAction::Abort);
}

#[test]
fn no_second_request_before_reply() {
    let (mut w, _) = ControlWorker::start("Ann".into(), "Lobby".into());
    w.step(ControlEvent::Reply);
    assert!(matches!(w.step(ControlEvent::Queued(chat("a"))), ControlAction::Request(_)));
    assert_eq!(w.step(ControlEvent::Queued(chat("b"))), ControlAction::Abort);
}

#[test]
fn transport_failure_aborts() {
    let (mut w, _) = ControlWorker::start("Ann".into(), "Lobby".into());
    w.step(ControlEvent::Reply);
    assert_eq!(w.step(ControlEvent::TransportFailed), ControlAction::Abort);
    assert_eq!(w.phase, ControlPhase::Failed);
}

#[test]
fn immediate_close_says_goodbye() {
    let (mut w, _) = ControlWorker::start("Ann".into(), "Lobby".into());
    w.step(ControlEvent::Reply);
    assert!(matches!(w.step(ControlEvent::QueueClosed), ControlAction::Request(_)));
    assert_eq!(w.phase, ControlPhase::Closing);
    assert_eq!(w.step(ControlEvent::Reply), ControlAction::Stop);
    assert_eq!(w.step(ControlEvent::Reply), ControlAction::Stop);
}
