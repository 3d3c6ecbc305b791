use ircmq::codec::{decode, encode, DecodeError};
use ircmq::message::MessageType;

fn samples() -> Vec<MessageType> {
    vec![
        MessageType::Hello { name: "Ann".into(), channel: "Channel #1".into() },
        MessageType::Message {
            name: "Bo \"B\"".into(),
            channel: "back\\slash".into(),
            content: "line\nbreak\ttab\r\u{8}\u{c}\u{1}\u{1f}\u{7f} é ✓ 🚀 /".into(),
        },
        MessageType::ResponseMembers { members: vec![] },
        MessageType::ResponseMembers {
            members: vec!["zed".into(), "amy".into(), "zed".into(), "".into()],
        },
        MessageType::ResponseChannels { channels: vec!["x,y".into(), "]".into()] },
        MessageType::Goodbye { name: "".into(), channel: "".into() },
    ]
}

#[test]
fn round_trip_on_samples() {
    for m in samples() {
        let text = encode(&m);
        assert_eq!(decode(&text), Ok(m));
    }
}

#[test]
fn encode_hello_and_goodbye_keep_field_order() {
    let hello = MessageType::Hello { name: "Name".into(), channel: "Channel".into() };
    let goodbye = MessageType::Goodbye { name: "Name".into(), channel: "Channel".into() };
    assert_eq!(encode(&hello), "{\"tag\":\"Hello\",\"name\":\"Name\",\"channel\":\"Channel\"}");
    assert_eq!(
        encode(&goodbye),
        "{\"tag\":\"Goodbye\",\"name\":\"Name\",\"channel\":\"Channel\"}"
    );
}

#[test]
fn encode_keeps_list_order() {
    let m = MessageType::ResponseMembers {
        members: vec!["c".into(), "a".into(), "b".into(), "a".into()],
    };
    assert_eq!(
        encode(&m),
        "{\"tag\":\"ResponseMembers\",\"members\":[\"c\",\"a\",\"b\",\"a\"]}"
    );
    let empty = MessageType::ResponseChannels { channels: vec![] };
    assert_eq!(encode(&empty), "{\"tag\":\"ResponseChannels\",\"channels\":[]}");
}

#[test]
fn encode_escapes_special_characters() {
    let m = MessageType::Message {
        name: "q\"b\\".into(),
        channel: "c".into(),
        content: "n\nt\tr\rb\u{8}f\u{c}u\u{1}v\u{1f}".into(),
    };
    assert_eq!(
        encode(&m),
        "{\"tag\":\"Message\",\"name\":\"q\\\"b\\\\\",\"channel\":\"c\",\"content\":\"n\\nt\\tr\\rb\\bf\\fu\\u0001v\\u001f\"}"
    );
}

#[test]
fn string_literals_match_serde_json() {
    let texts = ["plain", "q\"b\\", "n\nt\tr\r\u{8}\u{c}\u{0}\u{1f}\u{7f}", "é✓🚀/"];
    for t in texts {
        let m = MessageType::Hello { name: t.into(), channel: "c".into() };
        let expected = format!(
            "{{\"tag\":\"Hello\",\"name\":{},\"channel\":\"c\"}}",
            serde_json::to_string(t).unwrap()
        );
        assert_eq!(encode(&m), expected);
    }
}

#[test]
fn encoding_parses_as_json_with_the_fields() {
    let m = MessageType::Message {
        name: "Sebern".into(),
        channel: "A".into(),
        content: "\"Hei\"\n".into(),
    };
    let v: serde_json::Value = serde_json::from_str(&encode(&m)).unwrap();
    assert_eq!(v["tag"], "Message");
    assert_eq!(v["name"], "Sebern");
    assert_eq!(v["channel"], "A");
    assert_eq!(v["content"], "\"Hei\"\n");
}

#[test]
fn decode_unknown_tag_is_malformed() {
    assert_eq!(
        decode("{\"tag\":\"Shout\",\"name\":\"Name\",\"channel\":\"Channel\"}"),
        Err(DecodeError::MalformedPayload)
    );
    assert_eq!(decode("{\"tag\":7,\"name\":\"Name\"}"), Err(DecodeError::MalformedPayload));
    assert_eq!(decode("{\"name\":\"Name\"}"), Err(DecodeError::MalformedPayload));
    assert_eq!(decode("{}"), Err(DecodeError::MalformedPayload));
}

#[test]
fn decode_non_object_is_malformed() {
    assert_eq!(decode(""), Err(DecodeError::MalformedPayload));
    assert_eq!(decode("not json"), Err(DecodeError::MalformedPayload));
    assert_eq!(decode("[\"tag\",\"Hello\"]"), Err(DecodeError::MalformedPayload));
    assert_eq!(
        decode("{\"tag\":\"Goodbye\",\"name\":\"Name\",\"channel\":\"Channel\"}trailing"),
        Err(DecodeError::MalformedPayload)
    );
    assert_eq!(
        decode("{\"tag\":\"ResponseMembers\",\"members\":[\"a\",]}"),
        Err(DecodeError::MalformedPayload)
    );
    assert_eq!(
        decode("{\"tag\":\"Message\",\"name\":\"a\\qb\",\"channel\":\"A\",\"content\":\"c\"}"),
        Err(DecodeError::MalformedPayload)
    );
    assert_eq!(decode("{\"tag\":\"Hello\",\"name\":\"\\udc00\"}"), Err(DecodeError::MalformedPayload));
}

#[test]
fn decode_missing_or_misshapen_fields_is_schema_mismatch() {
    assert_eq!(decode("{\"tag\":\"Hello\"}"), Err(DecodeError::SchemaMismatch));
    assert_eq!(
        decode("{\"tag\":\"Hello\",\"name\":\"Name\"}"),
        Err(DecodeError::SchemaMismatch)
    );
    assert_eq!(
        decode("{\"tag\": \"Hello\",\"name\":\"Name\"}"),
        Err(DecodeError::SchemaMismatch)
    );
    assert_eq!(
        decode("{\"name\":\"Name\",\"tag\":\"Hello\"}"),
        Err(DecodeError::SchemaMismatch)
    );
    assert_eq!(
        decode("{\"tag\":\"Hello\",\"name\":7,\"channel\":\"Channel\"}"),
        Err(DecodeError::SchemaMismatch)
    );
    assert_eq!(
        decode("{\"tag\":\"ResponseMembers\",\"members\":\"Member\"}"),
        Err(DecodeError::SchemaMismatch)
    );
    assert_eq!(
        decode("{\"tag\":\"ResponseMembers\",\"members\":[\"a\",1]}"),
        Err(DecodeError::SchemaMismatch)
    );
    assert_eq!(
        decode("{\"tag\":\"Hello\",\"name\":\"a\",\"name\":\"b\",\"channel\":\"c\"}"),
        Err(DecodeError::SchemaMismatch)
    );
    assert_eq!(
        decode("{\"tag\":\"Hello\",\"tag\":\"Hello\",\"name\":\"a\",\"channel\":\"c\"}"),
        Err(DecodeError::SchemaMismatch)
    );
}

#[test]
fn decode_reads_any_json_layout() {
    let hello = MessageType::Hello { name: "Name".into(), channel: "Channel".into() };
    assert_eq!(
        decode(" {\n  \"tag\" : \"Hello\" ,\r\n\t\"name\": \"Name\", \"channel\" :\"Channel\" }\n"),
        Ok(hello.clone())
    );
    assert_eq!(
        decode("{\"channel\":\"Channel\",\"name\":\"Name\",\"tag\":\"Hello\"}"),
        Ok(hello.clone())
    );
    assert_eq!(
        decode(
            "{\"extra\":{\"a\":[1,-2.5e+3,true,false,null,{}],\"b\":[]},\"tag\":\"Hello\",\
             \"id\":0,\"name\":\"Name\",\"n\":-0.25E-2,\"channel\":\"Channel\"}"
        ),
        Ok(hello)
    );
    assert_eq!(
        decode("{\"tag\":\"ResponseChannels\",\"channels\":[ \"b\" , \"a\" ]}"),
        Ok(MessageType::ResponseChannels { channels: vec!["b".into(), "a".into()] })
    );
    assert_eq!(
        decode("{\"tag\":\"ResponseMembers\",\"members\":[ ]}"),
        Ok(MessageType::ResponseMembers { members: vec![] })
    );
}

#[test]
fn decode_reads_escapes_back() {
    assert_eq!(
        decode("{\"tag\":\"Hello\",\"name\":\"a\\\"b\\\\c\\n\\u0001\",\"channel\":\"é\"}"),
        Ok(MessageType::Hello { name: "a\"b\\c\n\u{1}".into(), channel: "é".into() })
    );
    assert_eq!(
        decode("{\"tag\":\"Hello\",\"name\":\"\\/\\u00E9\\u00e9\\ud83d\\ude80\\u000A\",\"channel\":\"\"}"),
        Ok(MessageType::Hello { name: "/éé🚀\n".into(), channel: "".into() })
    );
}

#[test]
fn decode_agrees_with_serde_json_layouts() {
    for m in samples() {
        let v: serde_json::Value = serde_json::from_str(&encode(&m)).unwrap();
        let pretty = serde_json::to_string_pretty(&v).unwrap();
        assert_eq!(decode(&pretty), Ok(m));
    }
}
