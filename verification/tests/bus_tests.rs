use mediadownloader::bus::{encode_bus_message, parse_bus_message, BotMessage};

#[test]
fn bus_round_trip() {
    let message = BotMessage {
        chat_id: -1001234567890,
        message_id: 42,
        url: "https://vm.tiktok.com/ZMYSQfA9o".to_string(),
    };
    let framed = encode_bus_message(&message).unwrap();
    assert_eq!(
        framed,
        "chat_id = -1001234567890\nmessage_id = 42\nurl = \"https://vm.tiktok.com/ZMYSQfA9o\"\n"
    );
    let parsed = parse_bus_message(&framed).unwrap();
    assert_eq!(parsed.chat_id, message.chat_id);
    assert_eq!(parsed.message_id, message.message_id);
    assert_eq!(parsed.url, message.url);
}

#[test]
fn bus_round_trip_at_the_edges() {
    let message = BotMessage {
        chat_id: i64::MIN,
        message_id: i32::MAX,
        url: String::new(),
    };
    let framed = encode_bus_message(&message).unwrap();
    let parsed = parse_bus_message(&framed).unwrap();
    assert_eq!(parsed.chat_id, i64::MIN);
    assert_eq!(parsed.message_id, i32::MAX);
    assert_eq!(parsed.url, "");
}

#[test]
fn unframable_url_is_refused() {
    let message = BotMessage {
        chat_id: 1,
        message_id: 1,
        url: "https://example.com/\"quoted\"".to_string(),
    };
    assert!(encode_bus_message(&message).is_none());
}

#[test]
fn only_canonical_frames_parse() {
    // leading zero
    assert!(parse_bus_message("chat_id = 05\nmessage_id = 1\nurl = \"u\"\n").is_none());
    // negative zero
    assert!(parse_bus_message("chat_id = -0\nmessage_id = 1\nurl = \"u\"\n").is_none());
    // trailing garbage
    assert!(parse_bus_message("chat_id = 5\nmessage_id = 1\nurl = \"u\"\nx").is_none());
    // missing field
    assert!(parse_bus_message("chat_id = 5\nurl = \"u\"\n").is_none());
    // message id out of range
    assert!(parse_bus_message("chat_id = 5\nmessage_id = 3000000000\nurl = \"u\"\n").is_none());
    // unterminated url
    assert!(parse_bus_message("chat_id = 5\nmessage_id = 1\nurl = \"u\n").is_none());
    // wrong spacing
    assert!(parse_bus_message("chat_id =5\nmessage_id = 1\nurl = \"u\"\n").is_none());
    // empty digits
    assert!(parse_bus_message("chat_id = -\nmessage_id = 1\nurl = \"u\"\n").is_none());
    // the canonical frame itself parses
    assert!(parse_bus_message("chat_id = 5\nmessage_id = 1\nurl = \"u\"\n").is_some());
}
