use lsp_core::codec::{encode_frame, decode_frame, Decoded, FrameDecoder};

fn b(s: &str) -> Vec<u8> {
    s.as_bytes().to_vec()
}

#[test]
fn encode_exact_bytes() {
    let body = b("{}");
    let frame = encode_frame(&body);
    assert_eq!(frame, b("Content-Length: 2\r\n\r\n{}"));
}

#[test]
fn encode_counts_bytes_not_chars() {
    // multi-byte text: the length is the byte count
    let body = "{\"k\":\"\u{e9}\"}".as_bytes().to_vec();
    let frame = encode_frame(&body);
    let expect_len = body.len();
    let head = format!("Content-Length: {}\r\n\r\n", expect_len);
    let mut expect = head.as_bytes().to_vec();
    expect.extend_from_slice(&body);
    assert_eq!(frame, expect);
}

#[test]
fn decode_single_frame() {
    let bytes = b("Content-Length: 5\r\n\r\nhello");
    match decode_frame(&bytes) {
        Decoded::Msg { body, used } => {
            assert_eq!(body, b("hello"));
            assert_eq!(used, bytes.len());
        },
        _ => panic!("expected a complete frame"),
    }
}

#[test]
fn round_trip_canonical_frame() {
    let body = b("{\"jsonrpc\":\"2.0\",\"id\":1,\"method\":\"initialize\"}");
    let bytes = encode_frame(&body);
    match decode_frame(&bytes) {
        Decoded::Msg { body: got, used } => {
            assert_eq!(used, bytes.len());
            assert_eq!(encode_frame(&got), bytes);
        },
        _ => panic!("expected a complete frame"),
    }
}

#[test]
fn decode_skips_other_headers() {
    let bytes = b("Content-Type: application/json\r\nContent-Length: 4\r\n\r\nabcd");
    match decode_frame(&bytes) {
        Decoded::Msg { body, .. } => assert_eq!(body, b("abcd")),
        _ => panic!("expected a complete frame"),
    }
}

#[test]
fn decode_trims_header_value() {
    let bytes = b("Content-Length: \t 3 \r\n\r\nxyz");
    match decode_frame(&bytes) {
        Decoded::Msg { body, .. } => assert_eq!(body, b("xyz")),
        _ => panic!("expected a complete frame"),
    }
}

#[test]
fn decode_incomplete_header() {
    let bytes = b("Content-Length: 5\r\n");
    assert!(matches!(decode_frame(&bytes), Decoded::Incomplete));
}

#[test]
fn decode_incomplete_body() {
    let bytes = b("Content-Length: 5\r\n\r\nhel");
    assert!(matches!(decode_frame(&bytes), Decoded::Incomplete));
}

#[test]
fn decode_missing_content_length() {
    let bytes = b("Content-Type: text\r\n\r\nhello");
    match decode_frame(&bytes) {
        Decoded::Malformed { used } => assert_eq!(used, 22),
        _ => panic!("expected a parse error"),
    }
}

#[test]
fn decode_bad_content_length_value() {
    let bytes = b("Content-Length: abc\r\n\r\nhello");
    assert!(matches!(decode_frame(&bytes), Decoded::Malformed { .. }));
}

#[test]
fn split_feed_reassembles_identical_message() {
    let body = b("{\"jsonrpc\":\"2.0\",\"method\":\"initialized\"}");
    let whole = encode_frame(&body);
    // decode in one chunk
    let mut one = FrameDecoder::new();
    one.feed(&whole);
    let direct = match one.try_next() {
        Decoded::Msg { body, .. } => body,
        _ => panic!("expected a complete frame"),
    };
    // decode with a split at every position
    for cut in 0..=whole.len() {
        let mut d = FrameDecoder::new();
        let first: Vec<u8> = whole[..cut].to_vec();
        let second: Vec<u8> = whole[cut..].to_vec();
        d.feed(&first);
        if cut < whole.len() {
            // a strict prefix of the frame must not yield a message
            assert!(matches!(d.try_next(), Decoded::Incomplete));
        }
        d.feed(&second);
        match d.try_next() {
            Decoded::Msg { body, .. } => assert_eq!(body, direct),
            _ => panic!("expected a complete frame after the second chunk"),
        }
    }
}

#[test]
fn two_frames_in_one_buffer() {
    let mut stream = encode_frame(&b("one"));
    stream.extend_from_slice(&encode_frame(&b("three")));
    let mut d = FrameDecoder::new();
    d.feed(&stream);
    match d.try_next() {
        Decoded::Msg { body, .. } => assert_eq!(body, b("one")),
        _ => panic!("expected the first frame"),
    }
    match d.try_next() {
        Decoded::Msg { body, .. } => assert_eq!(body, b("three")),
        _ => panic!("expected the second frame"),
    }
    assert!(matches!(d.try_next(), Decoded::Incomplete));
}

#[test]
fn malformed_frame_does_not_kill_the_stream() {
    let mut stream = b("No-Length: x\r\n\r\n");
    stream.extend_from_slice(&encode_frame(&b("ok")));
    let mut d = FrameDecoder::new();
    d.feed(&stream);
    assert!(matches!(d.try_next(), Decoded::Malformed { .. }));
    match d.try_next() {
        Decoded::Msg { body, .. } => assert_eq!(body, b("ok")),
        _ => panic!("expected the frame after the malformed header"),
    }
}
