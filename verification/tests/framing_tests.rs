use worker_rpc::framing::{decode_clen_frame, encode_clen_frame, DecodeStep};

fn frame_of(body: &[u8]) -> Vec<u8> {
    encode_clen_frame(&body.to_vec())
}

#[test]
fn encode_writes_exact_header() {
    let out = frame_of(b"hello");
    assert_eq!(&out[..], b"Content-Length: 5\r\n\r\nhello".as_slice());
}

#[test]
fn round_trip_simple_body() {
    let body = b"{\"id\":1}".to_vec();
    let framed = encode_clen_frame(&body);
    match decode_clen_frame(&framed) {
        DecodeStep::Frame { body: got, consumed } => {
            assert_eq!(got, body);
            assert_eq!(consumed, framed.len());
        }
        _ => panic!("expected a whole frame"),
    }
}

#[test]
fn round_trip_embedded_newlines_and_multibyte() {
    let body = "{\"text\":\"line one\nline two\r\n\u{00e9}\u{2603}\u{1f600}\"}".as_bytes().to_vec();
    let framed = encode_clen_frame(&body);
    match decode_clen_frame(&framed) {
        DecodeStep::Frame { body: got, consumed } => {
            assert_eq!(got, body);
            assert_eq!(consumed, framed.len());
        }
        _ => panic!("expected a whole frame"),
    }
}

#[test]
fn header_counts_bytes_not_characters() {
    let body = "\u{00e9}".as_bytes().to_vec();
    assert_eq!(body.len(), 2);
    let framed = encode_clen_frame(&body);
    assert!(framed.starts_with(b"Content-Length: 2\r\n\r\n"));
}

#[test]
fn truncated_buffer_needs_more() {
    let body = b"abcdefgh".to_vec();
    let framed = encode_clen_frame(&body);
    for cut in [0, 5, framed.len() - 1] {
        let partial = framed[..cut].to_vec();
        match decode_clen_frame(&partial) {
            DecodeStep::NeedMore => {}
            _ => panic!("expected NeedMore at cut {}", cut),
        }
    }
}

#[test]
fn corrupt_length_is_fatal() {
    let buf = b"Content-Length: abc\r\n\r\nbody".to_vec();
    match decode_clen_frame(&buf) {
        DecodeStep::Malformed => {}
        _ => panic!("expected Malformed"),
    }
}

#[test]
fn blank_line_without_length_is_fatal() {
    let buf = b"X-Other: 1\r\n\r\nbody".to_vec();
    match decode_clen_frame(&buf) {
        DecodeStep::Malformed => {}
        _ => panic!("expected Malformed"),
    }
}

#[test]
fn extra_headers_are_skipped() {
    let buf = b"X-Other: 1\r\nContent-Length: 4\r\n\r\nbodyrest".to_vec();
    match decode_clen_frame(&buf) {
        DecodeStep::Frame { body, consumed } => {
            assert_eq!(&body[..], b"body");
            assert_eq!(consumed, buf.len() - 4);
        }
        _ => panic!("expected a frame"),
    }
}

#[test]
fn two_frames_decode_in_sequence() {
    let mut buf = encode_clen_frame(&b"one".to_vec());
    buf.extend_from_slice(&encode_clen_frame(&b"second".to_vec()));
    let consumed = match decode_clen_frame(&buf) {
        DecodeStep::Frame { body, consumed } => {
            assert_eq!(&body[..], b"one");
            consumed
        }
        _ => panic!("expected first frame"),
    };
    let rest = buf[consumed..].to_vec();
    match decode_clen_frame(&rest) {
        DecodeStep::Frame { body, consumed } => {
            assert_eq!(&body[..], b"second");
            assert_eq!(consumed, rest.len());
        }
        _ => panic!("expected second frame"),
    }
}

#[test]
fn header_name_must_match_exactly() {
    // Without the single space after the colon the line is not a
    // length header; the blank line then ends a block that named no
    // length, which is fatal.
    let buf = b"Content-Length:4\r\n\r\nbody".to_vec();
    match decode_clen_frame(&buf) {
        DecodeStep::Malformed => {}
        _ => panic!("expected Malformed"),
    }
}

#[test]
fn last_length_header_wins() {
    let buf = b"Content-Length: 99\r\nContent-Length: 2\r\n\r\nab".to_vec();
    match decode_clen_frame(&buf) {
        DecodeStep::Frame { body, .. } => assert_eq!(&body[..], b"ab"),
        _ => panic!("expected a frame"),
    }
}
