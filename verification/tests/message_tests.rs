use websocket_message::dataframe::DataFrame;
use websocket_message::error::WebSocketError;
use websocket_message::message::Message;
use websocket_message::opcode::Opcode;

fn plain_frame(opcode: Opcode, data: Vec<u8>) -> DataFrame {
    DataFrame { finished: true, reserved: [false, false, false], opcode, data }
}

fn expect_protocol_error(result: Result<Message, WebSocketError>, reason: &str) {
    match result {
        Err(WebSocketError::ProtocolError(message)) => assert_eq!(message, reason),
        other => panic!("expected a protocol error, got {:?}", other),
    }
}

#[test]
fn text_single_frame_round_trip() {
    let message = Message::text("Hello".to_string());
    let frames = message.dataframes();
    assert_eq!(frames.len(), 1);
    let rebuilt = Message::from_dataframes(frames).unwrap();
    assert_eq!(rebuilt, message);
}

#[test]
fn text_multibyte_round_trip() {
    let message = Message::text("héllo \u{1F600} \u{4E16}\u{754C}".to_string());
    let rebuilt = Message::from_dataframes(message.dataframes()).unwrap();
    assert_eq!(rebuilt, message);
}

#[test]
fn text_payload_is_utf8_bytes() {
    let message = Message::text("héllo".to_string());
    assert_eq!(message.payload, "héllo".as_bytes().to_vec());
    assert_eq!(message.opcode, Opcode::Text);
    assert_eq!(message.cd_status_code, None);
}

#[test]
fn binary_yields_one_frame_with_exact_payload() {
    let bytes = vec![0u8, 1, 2, 254, 255];
    let message = Message::binary(bytes.clone());
    let frames = message.dataframes();
    assert_eq!(frames.len(), 1);
    assert_eq!(frames[0].data, bytes);
    let mut written: Vec<u8> = Vec::new();
    message.write_payload(&mut written);
    assert_eq!(written, bytes);
}

#[test]
fn binary_round_trip() {
    let message = Message::binary(vec![9u8, 8, 7]);
    let rebuilt = Message::from_dataframes(message.dataframes()).unwrap();
    assert_eq!(rebuilt, message);
}

#[test]
fn close_because_writes_status_then_reason() {
    let message = Message::close_because(1000, "bye".to_string());
    let mut written: Vec<u8> = Vec::new();
    message.write_payload(&mut written);
    assert_eq!(written, vec![0x03u8, 0xE8, b'b', b'y', b'e']);
}

#[test]
fn close_because_round_trip() {
    let message = Message::close_because(1001, "going away".to_string());
    let rebuilt = Message::from_dataframes(message.dataframes()).unwrap();
    assert_eq!(rebuilt.cd_status_code, Some(1001));
    assert_eq!(rebuilt, message);
}

#[test]
fn empty_frame_sequence_is_rejected() {
    expect_protocol_error(Message::from_dataframes(Vec::new()), "No dataframes provided");
}

#[test]
fn reserved_bits_are_rejected() {
    let frame = DataFrame {
        finished: true,
        reserved: [true, false, false],
        opcode: Opcode::Close,
        data: Vec::new(),
    };
    expect_protocol_error(
        Message::from_dataframes(vec![frame]),
        "Unsupported reserved bits received",
    );
}

#[test]
fn each_reserved_bit_is_rejected() {
    for position in 0..3 {
        let mut reserved = [false, false, false];
        reserved[position] = true;
        let frame = DataFrame { finished: true, reserved, opcode: Opcode::Ping, data: Vec::new() };
        expect_protocol_error(
            Message::from_dataframes(vec![frame]),
            "Unsupported reserved bits received",
        );
    }
}

#[test]
fn empty_close_frame_equals_bare_close() {
    let frame = plain_frame(Opcode::Close, Vec::new());
    let rebuilt = Message::from_dataframes(vec![frame]).unwrap();
    assert_eq!(rebuilt, Message::close());
}

#[test]
fn ping_frame_equals_ping() {
    let frame = plain_frame(Opcode::Ping, b"abc".to_vec());
    let rebuilt = Message::from_dataframes(vec![frame]).unwrap();
    assert_eq!(rebuilt, Message::ping(b"abc".to_vec()));
}

#[test]
fn pong_frame_equals_pong() {
    let frame = plain_frame(Opcode::Pong, b"xyz".to_vec());
    let rebuilt = Message::from_dataframes(vec![frame]).unwrap();
    assert_eq!(rebuilt, Message::pong(b"xyz".to_vec()));
}

#[test]
fn unsupported_opcode_is_rejected() {
    let frame = plain_frame(Opcode::Control5, Vec::new());
    expect_protocol_error(Message::from_dataframes(vec![frame]), "Unsupported opcode received");
}

#[test]
fn continuation_as_first_frame_is_rejected() {
    let frame = plain_frame(Opcode::Continuation, b"data".to_vec());
    expect_protocol_error(Message::from_dataframes(vec![frame]), "Unsupported opcode received");
}

#[test]
fn second_frame_must_be_continuation() {
    let frames = vec![
        plain_frame(Opcode::Text, b"He".to_vec()),
        plain_frame(Opcode::Binary, b"llo".to_vec()),
    ];
    expect_protocol_error(
        Message::from_dataframes(frames),
        "Unexpected non-continuation data frame",
    );
}

#[test]
fn continuation_payloads_are_concatenated_in_order() {
    let frames = vec![
        plain_frame(Opcode::Text, b"Hel".to_vec()),
        plain_frame(Opcode::Continuation, b"lo ".to_vec()),
        plain_frame(Opcode::Continuation, b"there".to_vec()),
    ];
    let rebuilt = Message::from_dataframes(frames).unwrap();
    assert_eq!(rebuilt, Message::text("Hello there".to_string()));
}

#[test]
fn close_status_code_may_span_frames() {
    let frames = vec![
        plain_frame(Opcode::Close, vec![0x03u8]),
        plain_frame(Opcode::Continuation, vec![0xE8u8, b'o', b'k']),
    ];
    let rebuilt = Message::from_dataframes(frames).unwrap();
    assert_eq!(rebuilt, Message::close_because(1000, "ok".to_string()));
}

#[test]
fn binary_payload_may_span_frames() {
    let frames = vec![
        plain_frame(Opcode::Binary, vec![1u8, 2]),
        plain_frame(Opcode::Continuation, Vec::new()),
        plain_frame(Opcode::Continuation, vec![3u8]),
    ];
    let rebuilt = Message::from_dataframes(frames).unwrap();
    assert_eq!(rebuilt, Message::binary(vec![1u8, 2, 3]));
}

#[test]
fn invalid_utf8_text_is_rejected() {
    let frame = plain_frame(Opcode::Text, vec![0xffu8, 0xfe]);
    assert!(matches!(Message::from_dataframes(vec![frame]), Err(WebSocketError::Utf8Error)));
}

#[test]
fn overlong_encoding_is_rejected() {
    let frame = plain_frame(Opcode::Text, vec![0xc0u8, 0x80]);
    assert!(matches!(Message::from_dataframes(vec![frame]), Err(WebSocketError::Utf8Error)));
}

#[test]
fn surrogate_encoding_is_rejected() {
    let frame = plain_frame(Opcode::Text, vec![0xedu8, 0xa0, 0x80]);
    assert!(matches!(Message::from_dataframes(vec![frame]), Err(WebSocketError::Utf8Error)));
}

#[test]
fn truncated_encoding_is_rejected() {
    let frame = plain_frame(Opcode::Text, vec![0xe2u8, 0x82]);
    assert!(matches!(Message::from_dataframes(vec![frame]), Err(WebSocketError::Utf8Error)));
}

#[test]
fn short_close_status_code_is_rejected() {
    let frame = plain_frame(Opcode::Close, vec![0x03u8]);
    assert!(matches!(Message::from_dataframes(vec![frame]), Err(WebSocketError::IoError)));
}

#[test]
fn close_frame_with_status_and_reason() {
    let frame = plain_frame(Opcode::Close, vec![0x03u8, 0xE8, b'b', b'y', b'e']);
    let rebuilt = Message::from_dataframes(vec![frame]).unwrap();
    assert_eq!(rebuilt, Message::close_because(1000, "bye".to_string()));
}

#[test]
fn close_reason_must_be_utf8() {
    let frame = plain_frame(Opcode::Close, vec![0x03u8, 0xE8, 0xff]);
    assert!(matches!(Message::from_dataframes(vec![frame]), Err(WebSocketError::Utf8Error)));
}

#[test]
fn close_frame_with_status_and_empty_reason() {
    let frame = plain_frame(Opcode::Close, vec![0x0fu8, 0xA1]);
    let rebuilt = Message::from_dataframes(vec![frame]).unwrap();
    assert_eq!(rebuilt.cd_status_code, Some(4001));
    assert_eq!(rebuilt, Message::close_because(4001, String::new()));
}

#[test]
fn message_frame_flags() {
    let message = Message::ping(Vec::new());
    assert!(message.is_last());
    assert_eq!(message.reserved(), [false, false, false]);
    assert_eq!(message.opcode(), Opcode::Ping);
}

#[test]
fn bare_close_has_empty_wire_payload() {
    let message = Message::close();
    let mut written: Vec<u8> = Vec::new();
    message.write_payload(&mut written);
    assert!(written.is_empty());
    let frames = message.dataframes();
    assert_eq!(frames.len(), 1);
    assert!(frames[0].data.is_empty());
    assert!(frames[0].finished);
    assert_eq!(frames[0].reserved, [false, false, false]);
}

#[test]
fn dataframes_is_restartable() {
    let message = Message::binary(vec![1u8, 2, 3]);
    let first = message.dataframes();
    let second = message.dataframes();
    assert_eq!(first[0].data, second[0].data);
    assert_eq!(first[0].opcode, second[0].opcode);
}

#[test]
fn messages_with_different_payloads_differ() {
    assert_ne!(Message::binary(vec![1u8]), Message::binary(vec![2u8]));
    assert_ne!(Message::ping(Vec::new()), Message::pong(Vec::new()));
    assert_ne!(Message::close(), Message::close_because(1000, String::new()));
}
