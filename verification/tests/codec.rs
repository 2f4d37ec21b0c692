use google_doc2::shell::{DecodeError, Message, MessageType};

fn sample() -> Message {
    Message {
        message_type: MessageType::Command,
        message_id: [0x02; 12],
        message: "Hello, world!".to_string(),
    }
}

#[test]
fn test_message_conversion() {
    let message = sample();
    assert_eq!(
        message.to_string(),
        "0102020202020202020202020248656c6c6f2c20776f726c6421"
    );

    assert_eq!(
        "0102020202020202020202020248656c6c6f2c20776f726c6421"
            .parse::<Message>()
            .unwrap(),
        message
    );
}

#[test]
fn tags_are_one_two_three() {
    assert_eq!(MessageType::Command.tag(), 1);
    assert_eq!(MessageType::Output.tag(), 2);
    assert_eq!(MessageType::Exit.tag(), 3);
    assert_eq!(MessageType::try_from(1), Ok(MessageType::Command));
    assert_eq!(MessageType::try_from(2), Ok(MessageType::Output));
    assert_eq!(MessageType::try_from(3), Ok(MessageType::Exit));
    assert_eq!(MessageType::try_from(0), Err(()));
    assert_eq!(MessageType::try_from(4), Err(()));
    assert_eq!(MessageType::try_from(0xff), Err(()));
}

#[test]
fn round_trip_on_chosen_messages() {
    let payloads = ["", "a", "echo hi", "größe ✓ 日本語", "line one\nline two\t\0"];
    let kinds = [MessageType::Command, MessageType::Output, MessageType::Exit];
    for payload in payloads {
        for kind in kinds {
            let message = Message {
                message_type: kind,
                message_id: [0x00, 0x01, 0x7f, 0x80, 0xff, 0x10, 0x0a, 0xa0, 0x9c, 0xc9, 0xde, 0xad],
                message: payload.to_string(),
            };
            assert_eq!(Message::from_str(&message.to_string()), Ok(message));
        }
    }
}

#[test]
fn encoding_is_lower_case_hex() {
    let message = Message {
        message_type: MessageType::Exit,
        message_id: [0xab, 0xcd, 0xef, 0x01, 0x23, 0x45, 0x67, 0x89, 0x0a, 0xb0, 0xff, 0x00],
        message: String::new(),
    };
    assert_eq!(message.to_string(), "03abcdef01234567890ab0ff00");
}

#[test]
fn empty_payload_decodes() {
    let decoded = Message::from_str("02000102030405060708090a0b").unwrap();
    assert_eq!(decoded.message_type, MessageType::Output);
    assert_eq!(decoded.message_id, [0, 1, 2, 3, 4, 5, 6, 7, 8, 9, 10, 11]);
    assert_eq!(decoded.message, "");
}

#[test]
fn upper_case_digits_are_read() {
    let decoded = Message::from_str("01ABCDEF01234567890AB0FF004F4B").unwrap();
    assert_eq!(decoded.message_type, MessageType::Command);
    assert_eq!(
        decoded.message_id,
        [0xab, 0xcd, 0xef, 0x01, 0x23, 0x45, 0x67, 0x89, 0x0a, 0xb0, 0xff, 0x00]
    );
    assert_eq!(decoded.message, "OK");
}

#[test]
fn short_text_is_malformed() {
    assert_eq!(Message::from_str(""), Err(DecodeError::MalformedMessage));
    assert_eq!(Message::from_str("01"), Err(DecodeError::MalformedMessage));
    assert_eq!(
        Message::from_str("0102020202020202020202020"),
        Err(DecodeError::MalformedMessage)
    );
    assert_eq!(Message::from_str("not one of ours"), Err(DecodeError::MalformedMessage));
}

#[test]
fn unknown_tag_is_rejected() {
    assert_eq!(
        Message::from_str("00020202020202020202020202"),
        Err(DecodeError::UnknownMessageKind)
    );
    assert_eq!(
        Message::from_str("0402020202020202020202020248"),
        Err(DecodeError::UnknownMessageKind)
    );
    assert_eq!(
        Message::from_str("ff020202020202020202020202"),
        Err(DecodeError::UnknownMessageKind)
    );
}

#[test]
fn bad_hex_is_invalid_encoding() {
    // odd payload length
    assert_eq!(
        Message::from_str("010202020202020202020202024"),
        Err(DecodeError::InvalidEncoding)
    );
    // a character that is no digit, in the payload
    assert_eq!(
        Message::from_str("01020202020202020202020202zz"),
        Err(DecodeError::InvalidEncoding)
    );
    // in the identifier
    assert_eq!(
        Message::from_str("0102020202020202020202g20248"),
        Err(DecodeError::InvalidEncoding)
    );
    // in the tag
    assert_eq!(
        Message::from_str("+102020202020202020202020248"),
        Err(DecodeError::InvalidEncoding)
    );
    // a human comment that is long enough
    assert_eq!(
        Message::from_str("Please look at the second paragraph."),
        Err(DecodeError::InvalidEncoding)
    );
    // characters outside ASCII
    assert_eq!(
        Message::from_str("01020202020202020202020202é"),
        Err(DecodeError::InvalidEncoding)
    );
}

#[test]
fn bad_utf8_is_invalid_payload_encoding() {
    assert_eq!(
        Message::from_str("01020202020202020202020202ff"),
        Err(DecodeError::InvalidPayloadEncoding)
    );
    assert_eq!(
        Message::from_str("01020202020202020202020202c3"),
        Err(DecodeError::InvalidPayloadEncoding)
    );
}

#[test]
fn hex_errors_come_before_the_tag() {
    assert_eq!(
        Message::from_str("09020202020202020202020202zz"),
        Err(DecodeError::InvalidEncoding)
    );
}

#[test]
fn clone_is_equal() {
    let message = sample();
    assert_eq!(message.clone(), message);
}
