use edit::framing::{
    decimal_bytes, decode_next, encode, header_step, parse_header_line, stream_closed, Decoded,
    FramingError, HeaderLine, HeaderStep,
};

#[test]
fn encode_writes_the_header_and_the_body() {
    let body = b"{\"jsonrpc\":\"2.0\"}".to_vec();
    let wire = encode(&body);
    assert_eq!(wire, b"Content-Length: 17\r\n\r\n{\"jsonrpc\":\"2.0\"}".to_vec());
}

#[test]
fn encode_of_an_empty_body() {
    assert_eq!(encode(&[]), b"Content-Length: 0\r\n\r\n".to_vec());
}

#[test]
fn encode_then_decode_gives_the_body_back() {
    let bodies: Vec<Vec<u8>> = vec![
        b"{}".to_vec(),
        b"[1,2,3]".to_vec(),
        b"\"line\\nfeed\"".to_vec(),
        b"line\nfeeds\r\n\r\ninside".to_vec(),
        vec![0u8; 1234],
        Vec::new(),
    ];
    for body in bodies {
        let wire = encode(&body);
        match decode_next(&wire) {
            Decoded::Message { start, end } => {
                assert_eq!(&wire[start..end], &body[..]);
                assert_eq!(end, wire.len());
            }
            other => panic!("no message: {:?}", other),
        }
    }
}

#[test]
fn decimal_bytes_writes_plain_digits() {
    assert_eq!(decimal_bytes(0), b"0".to_vec());
    assert_eq!(decimal_bytes(7), b"7".to_vec());
    assert_eq!(decimal_bytes(10), b"10".to_vec());
    assert_eq!(decimal_bytes(1234567890), b"1234567890".to_vec());
    assert_eq!(decimal_bytes(u64::MAX), b"18446744073709551615".to_vec());
}

#[test]
fn decode_takes_the_first_of_two_messages() {
    let mut wire = encode(b"{\"a\":1}");
    let first_len = wire.len();
    wire.extend_from_slice(&encode(b"{\"b\":22}"));
    assert_eq!(decode_next(&wire), Decoded::Message { start: first_len - 7, end: first_len });
    let rest = &wire[first_len..];
    match decode_next(rest) {
        Decoded::Message { start, end } => assert_eq!(&rest[start..end], b"{\"b\":22}"),
        other => panic!("no message: {:?}", other),
    }
}

#[test]
fn decode_of_an_empty_stream_is_the_end() {
    assert_eq!(decode_next(b""), Decoded::EndOfStream);
}

#[test]
fn decode_of_a_stream_cut_in_the_header() {
    assert_eq!(decode_next(b"Content-Length: 5\r\n"), Decoded::Failed(FramingError::Truncated));
    assert_eq!(decode_next(b"Content-Len"), Decoded::Failed(FramingError::Truncated));
}

#[test]
fn decode_of_a_stream_cut_in_the_body() {
    assert_eq!(
        decode_next(b"Content-Length: 5\r\n\r\n{\"a\""),
        Decoded::Failed(FramingError::Truncated)
    );
}

#[test]
fn decode_without_a_length_line() {
    assert_eq!(decode_next(b"\r\n{}"), Decoded::Failed(FramingError::MissingLength));
    assert_eq!(
        decode_next(b"Content-Type: json\r\n\r\n{}"),
        Decoded::Failed(FramingError::MissingLength)
    );
}

#[test]
fn decode_matches_the_key_by_case() {
    assert_eq!(
        decode_next(b"content-length: 2\r\n\r\n{}"),
        Decoded::Failed(FramingError::MissingLength)
    );
}

#[test]
fn decode_with_a_length_that_is_no_number() {
    assert_eq!(
        decode_next(b"Content-Length: two\r\n\r\n{}"),
        Decoded::Failed(FramingError::InvalidLength)
    );
    assert_eq!(
        decode_next(b"Content-Length: 99999999999999999999999999\r\n\r\n{}"),
        Decoded::Failed(FramingError::InvalidLength)
    );
}

#[test]
fn decode_passes_over_other_header_lines() {
    let wire = b"Content-Type: application/json\r\nContent-Length: 2\r\nX: y\r\n\r\n{}tail";
    match decode_next(wire) {
        Decoded::Message { start, end } => assert_eq!(&wire[start..end], b"{}"),
        other => panic!("no message: {:?}", other),
    }
}

#[test]
fn decode_takes_the_last_length_line() {
    let wire = b"Content-Length: 100\nContent-Length: 2\n\n{}";
    assert_eq!(decode_next(wire), Decoded::Message { start: 39, end: 41 });
}

#[test]
fn header_lines_are_told_apart() {
    assert_eq!(parse_header_line(b"\r\n"), HeaderLine::Blank);
    assert_eq!(parse_header_line(b""), HeaderLine::Blank);
    assert_eq!(parse_header_line(b"  \t \n"), HeaderLine::Blank);
    assert_eq!(parse_header_line(b"Content-Length: 42\r\n"), HeaderLine::Length(42));
    assert_eq!(parse_header_line(b"  Content-Length: 42  "), HeaderLine::Length(42));
    assert_eq!(parse_header_line(b"Content-Length: +42\r\n"), HeaderLine::Length(42));
    assert_eq!(parse_header_line(b"Content-Length: 007\r\n"), HeaderLine::Length(7));
    assert_eq!(parse_header_line(b"Content-Length: 0\r\n"), HeaderLine::Length(0));
    assert_eq!(parse_header_line(b"Content-Length:  42\r\n"), HeaderLine::BadLength);
    assert_eq!(parse_header_line(b"Content-Length: -1\r\n"), HeaderLine::BadLength);
    assert_eq!(parse_header_line(b"Content-Length: 4 2\r\n"), HeaderLine::BadLength);
    assert_eq!(parse_header_line(b"Content-Length: +\r\n"), HeaderLine::BadLength);
    assert_eq!(parse_header_line(b"Content-Length: \r\n"), HeaderLine::Other);
    assert_eq!(parse_header_line(b"Content-Length:42\r\n"), HeaderLine::Other);
    assert_eq!(parse_header_line(b"Content-Length\r\n"), HeaderLine::Other);
    assert_eq!(parse_header_line(b"CONTENT-LENGTH: 42\r\n"), HeaderLine::Other);
    assert_eq!(parse_header_line(b"Content-Type: x\r\n"), HeaderLine::Other);
}

#[test]
fn header_length_at_the_limit_of_usize() {
    let top = format!("Content-Length: {}\r\n", usize::MAX);
    assert_eq!(parse_header_line(top.as_bytes()), HeaderLine::Length(usize::MAX));
    let over = format!("Content-Length: {}0\r\n", usize::MAX);
    assert_eq!(parse_header_line(over.as_bytes()), HeaderLine::BadLength);
}

#[test]
fn header_steps_follow_the_lines() {
    assert_eq!(header_step(None, b"Content-Length: 3\r\n"), HeaderStep::NextLine(Some(3)));
    assert_eq!(header_step(Some(3), b"Other: x\r\n"), HeaderStep::NextLine(Some(3)));
    assert_eq!(header_step(None, b"Other: x\r\n"), HeaderStep::NextLine(None));
    assert_eq!(header_step(Some(3), b"Content-Length: 9\r\n"), HeaderStep::NextLine(Some(9)));
    assert_eq!(header_step(Some(3), b"\r\n"), HeaderStep::Body(3));
    assert_eq!(header_step(None, b"\r\n"), HeaderStep::Fail(FramingError::MissingLength));
    assert_eq!(
        header_step(Some(3), b"Content-Length: x\r\n"),
        HeaderStep::Fail(FramingError::InvalidLength)
    );
}

#[test]
fn a_closed_stream_ends_or_truncates() {
    assert_eq!(stream_closed(true), Decoded::EndOfStream);
    assert_eq!(stream_closed(false), Decoded::Failed(FramingError::Truncated));
}
