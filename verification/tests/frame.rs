use lsp_client::frame::{
    append_bytes, encode_frame, find_header, find_line_end, has_token_at, is_blank_byte,
    next_frame, read_declared_length, read_header, starts_with_token, FramingError,
};

#[test]
fn frame_of_a_short_body() {
    assert_eq!(encode_frame(b"{}"), b"Content-Length: 2\r\n\r\n{}".to_vec());
}

#[test]
fn frame_of_an_empty_body() {
    assert_eq!(encode_frame(b""), b"Content-Length: 0\r\n\r\n".to_vec());
}

#[test]
fn declared_length_counts_bytes_not_characters() {
    let body = "{\"k\":\"\u{e9}\"}";
    assert_eq!(body.chars().count(), 9);
    assert_eq!(
        encode_frame(body.as_bytes()),
        b"Content-Length: 10\r\n\r\n{\"k\":\"\xc3\xa9\"}".to_vec()
    );
}

#[test]
fn declared_length_is_the_length_of_the_body() {
    for size in [0usize, 1, 9, 10, 11, 99, 100, 1000] {
        let body = vec![b'x'; size];
        let bytes = encode_frame(&body);
        let end = find_line_end(&bytes, 0);
        assert!(matches!(read_header(&bytes[..end]), Ok(Some(n)) if n == size));
        assert_eq!(&bytes[end + 2..], &body[..]);
    }
}

#[test]
fn bytes_are_appended() {
    let mut out = b"ab".to_vec();
    append_bytes(&mut out, b"cd");
    append_bytes(&mut out, b"");
    assert_eq!(out, b"abcd".to_vec());
}

#[test]
fn header_token_is_found_where_it_stands() {
    assert!(starts_with_token(b"Content-Length: 5\r\n"));
    assert!(!starts_with_token(b"content-length: 5\r\n"));
    assert!(!starts_with_token(b"Content-Length:5\r\n"));
    assert!(!starts_with_token(b"Content-Length"));
    assert!(!starts_with_token(b""));
    assert!(has_token_at(b"xxContent-Length: 5", 2));
    assert!(!has_token_at(b"xxContent-Length: 5", 1));
    assert!(!has_token_at(b"xxContent-Length: 5", 3));
    assert!(!has_token_at(b"Content-Length: ", usize::MAX));
}

#[test]
fn blanks_are_told_apart() {
    for b in [b' ', b'\t', b'\n', 0x0b, 0x0c, b'\r'] {
        assert!(is_blank_byte(b));
    }
    for b in [0u8, 8, 14, 31, 33, b'0', b'a', 0x85, 0xa0] {
        assert!(!is_blank_byte(b));
    }
}

#[test]
fn length_field_is_read() {
    assert_eq!(read_declared_length(b"12\r\n"), Some(12));
    assert_eq!(read_declared_length(b"12"), Some(12));
    assert_eq!(read_declared_length(b"  12 \t\r\n"), Some(12));
    assert_eq!(read_declared_length(b"+12\r\n"), Some(12));
    assert_eq!(read_declared_length(b"0\r\n"), Some(0));
    assert_eq!(read_declared_length(b"0012\r\n"), Some(12));
}

#[test]
fn length_field_that_is_no_length_is_refused() {
    assert_eq!(read_declared_length(b"\r\n"), None);
    assert_eq!(read_declared_length(b""), None);
    assert_eq!(read_declared_length(b"+\r\n"), None);
    assert_eq!(read_declared_length(b"++1\r\n"), None);
    assert_eq!(read_declared_length(b"-1\r\n"), None);
    assert_eq!(read_declared_length(b"1 2\r\n"), None);
    assert_eq!(read_declared_length(b"12x\r\n"), None);
    assert_eq!(read_declared_length(b"0x10\r\n"), None);
    assert_eq!(read_declared_length(b"99999999999999999999999999\r\n"), None);
}

#[test]
fn header_line_is_read() {
    assert!(matches!(read_header(b"Content-Length: 58\r\n"), Ok(Some(58))));
    assert!(matches!(read_header(b"Content-Length: 58"), Ok(Some(58))));
    assert!(matches!(read_header(b""), Ok(None)));
    assert!(matches!(read_header(b"Content-Length: \r\n"), Err(FramingError::BadLength)));
    assert!(matches!(read_header(b"Content-Length: abc\r\n"), Err(FramingError::BadLength)));
    assert!(matches!(
        read_header(b"Content-Length: Content-Length: 5\r\n"),
        Err(FramingError::BadLength)
    ));
}

#[test]
fn line_that_is_no_header_is_carried_in_the_fault() {
    match read_header(b"Content-Type: text\r\n") {
        Err(FramingError::UnexpectedLine(line)) => {
            assert_eq!(line, b"Content-Type: text\r\n".to_vec())
        }
        other => panic!("unexpected: {:?}", other),
    }
    assert!(matches!(read_header(b"\r\n"), Err(FramingError::UnexpectedLine(_))));
    assert!(matches!(read_header(b"\n"), Err(FramingError::UnexpectedLine(_))));
}

#[test]
fn line_ends_behind_its_line_feed() {
    assert_eq!(find_line_end(b"ab\ncd\n", 0), 3);
    assert_eq!(find_line_end(b"ab\ncd\n", 2), 3);
    assert_eq!(find_line_end(b"ab\ncd\n", 3), 6);
    assert_eq!(find_line_end(b"ab\ncd", 3), 5);
    assert_eq!(find_line_end(b"ab", 2), 2);
    assert_eq!(find_line_end(b"", 0), 0);
}

#[test]
fn frame_is_read_back() {
    let bytes = encode_frame(b"{\"a\":1}");
    let (found, next) = next_frame(&bytes, 0);
    assert!(matches!(found, Ok(Some(ref body)) if body == b"{\"a\":1}"));
    assert_eq!(next, bytes.len());
}

#[test]
fn frame_is_read_back_from_the_middle_of_a_stream() {
    let mut stream = encode_frame(b"first");
    let at = stream.len();
    stream.extend_from_slice(&encode_frame(b"second"));
    stream.extend_from_slice(b"Content-Length: 1\r\n\r\nx");
    let (found, next) = next_frame(&stream, at);
    assert!(matches!(found, Ok(Some(ref body)) if body == b"second"));
    let (last, end) = next_frame(&stream, next);
    assert!(matches!(last, Ok(Some(ref body)) if body == b"x"));
    assert_eq!(end, stream.len());
}

#[test]
fn reading_stops_at_the_declared_length() {
    let stream = b"Content-Length: 3\r\n\r\nabcdef";
    let (found, next) = next_frame(stream, 0);
    assert!(matches!(found, Ok(Some(ref body)) if body == b"abc"));
    assert_eq!(next, stream.len() - 3);
}

#[test]
fn end_of_stream_is_no_fault() {
    let (found, next) = next_frame(b"", 0);
    assert!(matches!(found, Ok(None)));
    assert_eq!(next, 0);
    let bytes = encode_frame(b"x");
    let (found, next) = next_frame(&bytes, bytes.len());
    assert!(matches!(found, Ok(None)));
    assert_eq!(next, bytes.len());
    let (found, next) = next_frame(&bytes, bytes.len() + 7);
    assert!(matches!(found, Ok(None)));
    assert_eq!(next, bytes.len() + 7);
}

#[test]
fn unexpected_line_takes_only_that_line() {
    let stream = b"hello\r\nContent-Length: 2\r\n\r\n{}";
    let (found, next) = next_frame(stream, 0);
    assert!(matches!(found, Err(FramingError::UnexpectedLine(ref line)) if line == b"hello\r\n"));
    assert_eq!(next, 7);
    let (found, next) = next_frame(stream, next);
    assert!(matches!(found, Ok(Some(ref body)) if body == b"{}"));
    assert_eq!(next, stream.len());
}

#[test]
fn bad_length_takes_only_the_header_line() {
    let stream = b"Content-Length: x\r\n\r\n{}";
    let (found, next) = next_frame(stream, 0);
    assert!(matches!(found, Err(FramingError::BadLength)));
    assert_eq!(next, 19);
}

#[test]
fn short_body_is_a_short_read() {
    let stream = b"Content-Length: 10\r\n\r\n{}";
    let (found, next) = next_frame(stream, 0);
    assert!(matches!(found, Err(FramingError::ShortRead)));
    assert_eq!(next, stream.len());
}

#[test]
fn missing_delimiter_is_a_short_read() {
    let (found, _) = next_frame(b"Content-Length: 0\r\n\r", 0);
    assert!(matches!(found, Err(FramingError::ShortRead)));
    let (found, _) = next_frame(b"Content-Length: 0\r\n", 0);
    assert!(matches!(found, Err(FramingError::ShortRead)));
    let (found, next) = next_frame(b"Content-Length: 0\r\n\r\n", 0);
    assert!(matches!(found, Ok(Some(ref body)) if body.is_empty()));
    assert_eq!(next, 21);
}

#[test]
fn largest_declared_length_is_a_short_read() {
    let stream = format!("Content-Length: {}\r\n\r\nabc", usize::MAX);
    let (found, next) = next_frame(stream.as_bytes(), 0);
    assert!(matches!(found, Err(FramingError::ShortRead)));
    assert_eq!(next, stream.len());
}

#[test]
fn delimiter_bytes_are_not_looked_at() {
    let (found, _) = next_frame(b"Content-Length: 2\r\nxy{}", 0);
    assert!(matches!(found, Ok(Some(ref body)) if body == b"{}"));
}

#[test]
fn next_header_is_found() {
    let stream = b"\r\n{\"a\":1}Content-Length: 2\r\n\r\n{}";
    assert_eq!(find_header(stream, 0), 9);
    assert_eq!(find_header(stream, 9), 9);
    assert_eq!(find_header(stream, 10), stream.len());
    assert_eq!(find_header(b"nothing here", 0), 12);
    assert_eq!(find_header(b"", 0), 0);
}
