use ketalk::errors::ServiceError;
use ketalk::helpers::get_timestamp_as_nano;
use ketalk::json::{encode_server_messages, parse_client_frame};
use ketalk::messages::{ClientWsMessageType, ServerActorMessage, ServerActorMessages};
use ketalk::models::is_message_read;
use ketalk::text::{i64_to_dec_string, parse_i64_str, parse_room_id};

#[test]
fn parses_plain_message_frame() {
    let m = parse_client_frame("{\"messageType\":\"Message\",\"message\":\"hello\"}").unwrap();
    assert_eq!(m.message_type, ClientWsMessageType::Message);
    assert_eq!(m.message, "hello");
}

#[test]
fn parses_frame_with_swapped_members_and_whitespace() {
    let m =
        parse_client_frame(" { \"message\" : \"hi\" ,\n\t\"messageType\" : \"Closed\" } ").unwrap();
    assert_eq!(m.message_type, ClientWsMessageType::Closed);
    assert_eq!(m.message, "hi");
}

#[test]
fn parses_all_four_tags() {
    for (tag, ty) in [
        ("Message", ClientWsMessageType::Message),
        ("Closed", ClientWsMessageType::Closed),
        ("Editing", ClientWsMessageType::Editing),
        ("MessageDelete", ClientWsMessageType::MessageDelete),
    ] {
        let text = format!("{{\"messageType\":\"{}\",\"message\":\"\"}}", tag);
        let m = parse_client_frame(&text).unwrap();
        assert_eq!(m.message_type, ty);
        assert_eq!(m.message, "");
    }
}

#[test]
fn decodes_string_escapes() {
    let m = parse_client_frame(
        "{\"messageType\":\"Message\",\"message\":\"a\\n\\t\\\\\\\"\\u0041\\/\"}",
    )
    .unwrap();
    assert_eq!(m.message, "a\n\t\\\"A/");
}

#[test]
fn refuses_malformed_frames() {
    let bad = [
        "",
        "hello",
        "{\"messageType\":\"Message\"}",
        "{\"messageType\":\"Shout\",\"message\":\"x\"}",
        "{\"messageType\":\"Message\",\"message\":\"x\"} trailing",
        "{\"messageType\":\"Message\",\"message\":\"unterminated}",
        "{\"messageType\":\"Message\",\"message\":7}",
        "{\"messageType\":\"Message\",\"messageType\":\"Closed\"}",
        "{\"messageType\":\"Message\",\"message\":\"bad\\q\"}",
        "{\"messageType\":\"Message\",\"message\":\"\\ud834\"}",
    ];
    for text in bad {
        assert!(parse_client_frame(text).is_none(), "accepted: {}", text);
    }
}

#[test]
fn encodes_envelope_with_escaping() {
    let msgs = vec![ServerActorMessage {
        message: "line1\nline2 \"quoted\" \\ \u{1}".to_string(),
        sender_name: "a\tb".to_string(),
        sender_id: -7,
        created_at: "2023-01-01 00:00:00".to_string(),
    }];
    let out = encode_server_messages(&ServerActorMessages { messages: msgs });
    assert_eq!(
        out,
        "{\"messages\":[{\"message\":\"line1\\nline2 \\\"quoted\\\" \\\\ \\u0001\",\
         \"senderName\":\"a\\tb\",\"senderId\":-7,\"createdAt\":\"2023-01-01 00:00:00\"}]}"
    );
}

#[test]
fn encodes_empty_envelope() {
    let out = encode_server_messages(&ServerActorMessages { messages: Vec::new() });
    assert_eq!(out, "{\"messages\":[]}");
}

#[test]
fn renders_signed_decimals() {
    assert_eq!(i64_to_dec_string(0), "0");
    assert_eq!(i64_to_dec_string(42), "42");
    assert_eq!(i64_to_dec_string(-42), "-42");
    assert_eq!(i64_to_dec_string(i64::MAX), "9223372036854775807");
    assert_eq!(i64_to_dec_string(i64::MIN), "-9223372036854775808");
}

#[test]
fn parses_signed_decimals() {
    assert_eq!(parse_i64_str("0"), Some(0));
    assert_eq!(parse_i64_str("+7"), Some(7));
    assert_eq!(parse_i64_str("-3"), Some(-3));
    assert_eq!(parse_i64_str("9223372036854775807"), Some(i64::MAX));
    assert_eq!(parse_i64_str("-9223372036854775808"), Some(i64::MIN));
    assert_eq!(parse_i64_str("9223372036854775808"), None);
    assert_eq!(parse_i64_str(""), None);
    assert_eq!(parse_i64_str("+"), None);
    assert_eq!(parse_i64_str("12x"), None);
    assert_eq!(parse_i64_str(" 12"), None);
}

#[test]
fn parses_room_identifiers() {
    assert_eq!(parse_room_id("42"), Some(42));
    assert_eq!(parse_room_id("42#"), Some(42));
    assert_eq!(parse_room_id("-5"), Some(-5));
    assert_eq!(parse_room_id("abc"), None);
    assert_eq!(parse_room_id("12#a"), None);
    assert_eq!(parse_room_id("#"), None);
    assert_eq!(parse_room_id(""), None);
}

#[test]
fn timestamp_nanos_is_all_digits() {
    let t = get_timestamp_as_nano();
    assert!(!t.is_empty());
    assert!(t.chars().all(|c| c.is_ascii_digit()));
    // A current clock reading is far past one second since the epoch.
    assert!(t.len() > 9);
}

#[test]
fn service_error_messages() {
    assert_eq!(ServiceError::InternalServerError.message(), "Internal Server Error");
    assert_eq!(
        ServiceError::BadRequest("no such room".to_string()).message(),
        "BadRequest: no such room"
    );
    assert_eq!(ServiceError::JWKSFetchError.message(), "JWKSFetchError");
    assert_eq!(ServiceError::JWTTokenCreationError.message(), "JWTTokenCreationError");
}

#[test]
fn unread_state_rule() {
    assert!(is_message_read(1, 1, 500, 0));
    assert!(is_message_read(2, 1, 400, 400));
    assert!(!is_message_read(2, 1, 401, 400));
}
