use ircmq::codec::DecodeError;
use ircmq::feed::{
    feed_on_delivery, feed_on_invalid_text, feed_on_payload, feed_on_transport_failure,
    FeedAction, WorkerError,
};
use ircmq::message::MessageType;

#[test]
fn dropped_interface_ends_worker_cleanly() {
    assert_eq!(feed_on_delivery(false), FeedAction::Exit(Ok(())));
    assert_eq!(feed_on_delivery(true), FeedAction::Receive);
}

#[test]
fn payload_is_decoded_and_delivered() {
    assert_eq!(
        feed_on_payload("{\"tag\":\"Hello\",\"name\":\"Bo\",\"channel\":\"Lobby\"}"),
        FeedAction::Deliver(MessageType::Hello { name: "Bo".into(), channel: "Lobby".into() })
    );
}

#[test]
fn undecodable_payload_ends_worker_with_error() {
    assert_eq!(
        feed_on_payload("{\"tag\":\"Nope\"}"),
        FeedAction::Exit(Err(WorkerError::Decode(DecodeError::MalformedPayload)))
    );
    assert_eq!(
        feed_on_payload("{\"tag\":\"Hello\",\"name\":\"Bo\"}"),
        FeedAction::Exit(Err(WorkerError::Decode(DecodeError::SchemaMismatch)))
    );
    assert_eq!(feed_on_transport_failure(), FeedAction::Exit(Err(WorkerError::Transport)));
    assert_eq!(
        feed_on_invalid_text(),
        FeedAction::Exit(Err(WorkerError::Decode(DecodeError::MalformedPayload)))
    );
}
