use fresh_editor::codec::{
    classify, decode_frame, encode_frame, frame_body_text, FrameParse, MessageKind, TransportError,
};

#[test]
fn encode_writes_length_header() {
    let body = br#"{"jsonrpc":"2.0","method":"exit"}"#.to_vec();
    let frame = encode_frame(&body);
    let expected = format!("Content-Length: {}\r\n\r\n{}", body.len(), String::from_utf8(body.clone()).unwrap());
    assert_eq!(frame, expected.into_bytes());
    assert_eq!(encode_frame(&Vec::new()), b"Content-Length: 0\r\n\r\n".to_vec());
}

#[test]
fn decode_finds_the_encoded_body() {
    let body = br#"{"id":1,"result":null}"#.to_vec();
    let mut buf = encode_frame(&body);
    buf.extend_from_slice(b"Content-Length: 2\r\n\r\n{}");
    match decode_frame(&buf) {
        FrameParse::Frame { body_start, body_len } => {
            assert_eq!(&buf[body_start..body_start + body_len], &body[..]);
        }
        other => panic!("unexpected {:?}", other),
    }
}

#[test]
fn decode_headers() {
    let frame = b"Content-Type: application/vscode-jsonrpc\r\nContent-Length:  3 \r\n\r\nabcdef".to_vec();
    assert_eq!(decode_frame(&frame), FrameParse::Frame { body_start: 65, body_len: 3 });
    assert_eq!(decode_frame(&b"Content-Length: 10\r\n\r\nabc".to_vec()), FrameParse::Incomplete);
    assert_eq!(decode_frame(&b"Content-Length: 10\r\n".to_vec()), FrameParse::Incomplete);
    assert_eq!(decode_frame(&Vec::new()), FrameParse::Incomplete);
    assert_eq!(
        decode_frame(&b"X-Other: 1\r\n\r\n{}".to_vec()),
        FrameParse::Failed(TransportError::MissingLength)
    );
    assert_eq!(
        decode_frame(&b"Content-Length: ten\r\n\r\n{}".to_vec()),
        FrameParse::Failed(TransportError::Malformed)
    );
    assert_eq!(
        decode_frame(&b"Content-Length: 99999999999999999999999\r\n\r\n".to_vec()),
        FrameParse::Failed(TransportError::Malformed)
    );
    // The last length header wins.
    assert_eq!(
        decode_frame(&b"Content-Length: 1\r\nContent-Length: 2\r\n\r\nab".to_vec()),
        FrameParse::Frame { body_start: 40, body_len: 2 }
    );
}

#[test]
fn message_kinds() {
    assert_eq!(classify(true, true), MessageKind::Request);
    assert_eq!(classify(true, false), MessageKind::Response);
    assert_eq!(classify(false, true), MessageKind::Notification);
    assert_eq!(classify(false, false), MessageKind::Invalid);
}

#[test]
fn frame_body_must_be_utf8() {
    let buf = encode_frame(&"{\"x\":\"é\"}".as_bytes().to_vec());
    let (start, len) = match decode_frame(&buf) {
        FrameParse::Frame { body_start, body_len } => (body_start, body_len),
        other => panic!("unexpected {:?}", other),
    };
    assert_eq!(frame_body_text(&buf, start, len).unwrap(), "{\"x\":\"é\"}");
    let bad = encode_frame(&vec![b'"', 0xff, b'"']);
    assert_eq!(frame_body_text(&bad, 21, 3), Err(TransportError::Utf8));
    assert_eq!(frame_body_text(&bad, 21, 4), Err(TransportError::Eof));
}

#[test]
fn header_value_is_trimmed_like_str_trim() {
    let mut frame = "Content-Length: 2\u{a0}\u{2003}\r\n\r\n{}".as_bytes().to_vec();
    let start = frame.len() - 2;
    assert_eq!(decode_frame(&frame), FrameParse::Frame { body_start: start, body_len: 2 });
    frame = b"Content-Length: \xff2\r\n\r\n{}".to_vec();
    assert_eq!(decode_frame(&frame), FrameParse::Failed(TransportError::Utf8));
    frame = b"X-Note: \xc3\r\nContent-Length: 2\r\n\r\n{}".to_vec();
    assert_eq!(decode_frame(&frame), FrameParse::Failed(TransportError::Utf8));
}
