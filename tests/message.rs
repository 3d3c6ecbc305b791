use ircmq::codec::{decode, encode};
use ircmq::message::MessageType;

#[test]
fn test_serialize_message() {
    let message = MessageType::Message {
        name: "Sebern".into(),
        channel: "A".into(),
        content: "Heihei".into(),
    };

    let message = encode(&message);

    assert_eq!(
        message,
        "{\"tag\":\"Message\",\"name\":\"Sebern\",\"channel\":\"A\",\"content\":\"Heihei\"}"
    );
}

#[test]
fn test_deserialize_message() {
    let message: &str =
        "{\"tag\":\"Message\",\"name\":\"Sebern\",\"channel\":\"A\",\"content\":\"Heihei\"}";

    let message: MessageType =
        decode(message).expect("failed to decode MessageType::Message");

    assert_eq!(
        message,
        MessageType::Message {
            name: "Sebern".into(),
            channel: "A".into(),
            content: "Heihei".into(),
        }
    );
}

#[test]
fn test_serialize_hello() {
    let message = MessageType::Hello {
        name: String::from("Name"),
        channel: String::from("Channel"),
    };

    let message = encode(&message);

    assert_eq!(
        message,
        "{\"tag\":\"Hello\",\"name\":\"Name\",\"channel\":\"Channel\"}"
    );
}

#[test]
fn test_deserialize_hello() {
    let message: &str = "{\"tag\":\"Hello\",\"name\":\"Name\",\"channel\":\"Channel\"}";

    let message: MessageType = decode(message).expect("failed to decode MessageType::Hello");

    assert_eq!(
        message,
        MessageType::Hello {
            name: String::from("Name"),
            channel: String::from("Channel"),
        }
    );
}

#[test]
fn test_serialize_goodbye() {
    let message = MessageType::Goodbye {
        name: String::from("Name"),
        channel: String::from("Channel"),
    };

    let message = encode(&message);

    assert_eq!(
        message,
        "{\"tag\":\"Goodbye\",\"name\":\"Name\",\"channel\":\"Channel\"}"
    );
}

#[test]
fn test_deserialize_goodbye() {
    let message: &str = "{\"tag\":\"Goodbye\",\"name\":\"Name\",\"channel\":\"Channel\"}";

    let message: MessageType = decode(message).expect("failed to decode MessageType::Goodbye");

    assert_eq!(
        message,
        MessageType::Goodbye {
            name: String::from("Name"),
            channel: String::from("Channel"),
        }
    );
}

#[test]
fn test_serialize_response_members() {
    let message = MessageType::ResponseMembers {
        members: vec![String::from("Member")],
    };

    let message = encode(&message);

    assert_eq!(
        message,
        "{\"tag\":\"ResponseMembers\",\"members\":[\"Member\"]}"
    );
}

#[test]
fn test_deserialize_response_members() {
    let message: &str = "{\"tag\":\"ResponseMembers\",\"members\":[\"Member\"]}";

    let message: MessageType =
        decode(message).expect("failed to decode MessageType::ResponseMembers");

    assert_eq!(
        message,
        MessageType::ResponseMembers {
            members: vec![String::from("Member")],
        }
    );
}

#[test]
fn test_serialize_response_channels() {
    let message = MessageType::ResponseChannels {
        channels: vec![String::from("Channel")],
    };

    let message = encode(&message);

    assert_eq!(
        message,
        "{\"tag\":\"ResponseChannels\",\"channels\":[\"Channel\"]}"
    );
}

#[test]
fn test_deserialize_response_channel() {
    let message: &str = "{\"tag\":\"ResponseChannels\",\"channels\":[\"Channel\"]}";

    let message: MessageType =
        decode(message).expect("failed to decode MessageType::ResponseChannels");

    assert_eq!(
        message,
        MessageType::ResponseChannels {
            channels: vec![String::from("Channel")],
        },
    );
}
