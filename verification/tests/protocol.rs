use qingjian_shell::protocol::{
    read_frame, scan_header_line, write_frame, FrameError, FrameSpan, HeaderStep, protocol_message};

fn body_of(input: &[u8], span: FrameSpan) -> &[u8] {
    &input[span.start..span.start + span.len]
}

#[test]
fn frame_round_trips() {
    let msg = br#"{"jsonrpc":"2.0","id":1,"method":"ping"}"#;
    let out = write_frame(msg);
    let span = read_frame(&out).unwrap().unwrap();
    assert_eq!(body_of(&out, span), &msg[..]);
    assert_eq!(span.start + span.len, out.len());
}

#[test]
fn frames_are_written_with_a_content_length_header() {
    assert_eq!(write_frame(b"{}"), b"Content-Length: 2\r\n\r\n{}".to_vec());
    assert_eq!(write_frame(b""), b"Content-Length: 0\r\n\r\n".to_vec());
    let big = vec![b'x'; 1234];
    let out = write_frame(&big);
    assert!(out.starts_with(b"Content-Length: 1234\r\n\r\n"));
}

#[test]
fn missing_content_length_is_an_error() {
    let input = "X-Header: 1\r\n\r\n{}";
    assert_eq!(read_frame(input.as_bytes()), Err(FrameError::MissingLength));
}

#[test]
fn two_frames_in_one_stream_parse_separately() {
    let mut out = write_frame(br#"{"method":"a"}"#);
    out.extend(write_frame(br#"{"method":"b"}"#));
    let first = read_frame(&out).unwrap().unwrap();
    assert_eq!(body_of(&out, first), br#"{"method":"a"}"#);
    let rest = &out[first.start + first.len..];
    let second = read_frame(rest).unwrap().unwrap();
    assert_eq!(body_of(rest, second), br#"{"method":"b"}"#);
    let end = &rest[second.start + second.len..];
    assert_eq!(read_frame(end), Ok(None));
}

#[test]
fn other_headers_are_ignored_and_the_last_length_wins() {
    let input = b"Content-Type: application/json\r\nContent-Length: 9\r\nContent-Length:  3 \r\n\r\nabcdef";
    let span = read_frame(input).unwrap().unwrap();
    assert_eq!(body_of(input, span), b"abc");
}

#[test]
fn a_bad_length_is_an_error() {
    assert_eq!(
        read_frame(b"Content-Length: ten\r\n\r\n{}"),
        Err(FrameError::LengthNotNumber)
    );
    assert_eq!(
        read_frame(b"Content-Length: -2\r\n\r\n{}"),
        Err(FrameError::LengthNotNumber)
    );
    assert_eq!(
        read_frame(b"Content-Length: 99999999999999999999999\r\n\r\n{}"),
        Err(FrameError::LengthNotNumber)
    );
    // a plus sign is accepted, as by `str::parse`
    let span = read_frame(b"Content-Length: +2\r\n\r\n{}").unwrap().unwrap();
    assert_eq!(span, FrameSpan { start: 22, len: 2 });
}

#[test]
fn a_short_body_is_an_error() {
    assert_eq!(
        read_frame(b"Content-Length: 10\r\n\r\n{}"),
        Err(FrameError::UnexpectedEof)
    );
}

#[test]
fn end_of_input_before_the_header_ends_reads_nothing() {
    assert_eq!(read_frame(b""), Ok(None));
    assert_eq!(read_frame(b"Content-Length: 2\r\n"), Ok(None));
}

#[test]
fn invalid_utf8_in_the_header_is_an_error() {
    assert_eq!(
        read_frame(b"X-\xff: 1\r\nContent-Length: 2\r\n\r\n{}"),
        Err(FrameError::InvalidText)
    );
}

#[test]
fn header_lines_are_classified_one_by_one() {
    assert_eq!(
        scan_header_line(None, "Content-Length: 42\r\n"),
        HeaderStep::Continue(Some(42))
    );
    assert_eq!(
        scan_header_line(Some(42), "Content-Type: x\n"),
        HeaderStep::Continue(Some(42))
    );
    assert_eq!(scan_header_line(Some(42), "\r\n"), HeaderStep::Body(42));
    assert_eq!(scan_header_line(Some(7), "\n"), HeaderStep::Body(7));
    assert_eq!(
        scan_header_line(None, "\r\n"),
        HeaderStep::Fail(FrameError::MissingLength)
    );
    // Unicode white space around the number is trimmed
    assert_eq!(
        scan_header_line(None, "Content-Length:\u{3000}5\u{a0}\n"),
        HeaderStep::Continue(Some(5))
    );
    // the header name is case sensitive
    assert_eq!(
        scan_header_line(None, "content-length: 5\n"),
        HeaderStep::Continue(None)
    );
}

#[test]
fn malformed_headers_have_protocol_messages() {
    assert_eq!(protocol_message(FrameError::LengthNotNumber), Some("Content-Length 不是数字"));
    assert_eq!(protocol_message(FrameError::MissingLength), Some("帧缺少 Content-Length 头"));
    assert_eq!(protocol_message(FrameError::InvalidText), None);
    assert_eq!(protocol_message(FrameError::UnexpectedEof), None);
}
