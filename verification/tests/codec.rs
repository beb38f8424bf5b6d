use lsp_client::codec::{decode, decode_all, decode_body, decode_text, encode, message_or_text, Decoded};
use lsp_client::frame::FramingError;
use serde_json::Value;

fn value(text: &str) -> Value {
    serde_json::from_str(text).unwrap()
}

#[test]
fn value_is_encoded_as_its_compact_text() {
    let v = value("{ \"b\" : [1, 2.5, true, null], \"a\" : \"x\" }");
    assert_eq!(
        encode(&v),
        b"Content-Length: 31\r\n\r\n{\"a\":\"x\",\"b\":[1,2.5,true,null]}".to_vec()
    );
}

#[test]
fn text_beyond_ascii_is_counted_in_bytes() {
    let v = value("{\"k\":\"\u{e9}\"}");
    assert_eq!(encode(&v), b"Content-Length: 10\r\n\r\n{\"k\":\"\xc3\xa9\"}".to_vec());
}

#[test]
fn round_trip_gives_the_value_back() {
    let texts = [
        "null",
        "true",
        "0",
        "-12",
        "18446744073709551615",
        "1.5",
        "\"\"",
        "\"line\\nbreak \\\" quote \u{1F600}\"",
        "[]",
        "{}",
        "[1,[2,[3,[]]],{\"a\":{\"b\":null}}]",
        "{\"jsonrpc\":\"2.0\",\"id\":7,\"result\":[{\"uri\":\"file:///a.c\"}]}",
    ];
    for text in texts {
        let v = value(text);
        let bytes = encode(&v);
        let (found, next) = decode(&bytes, 0);
        assert_eq!(found.unwrap(), Decoded::Message(v));
        assert_eq!(next, bytes.len());
    }
}

#[test]
fn round_trip_in_the_middle_of_a_stream() {
    let a = value("{\"id\":1}");
    let b = value("[\"x\"]");
    let mut stream = encode(&a);
    let at = stream.len();
    stream.extend_from_slice(&encode(&b));
    let (found, next) = decode(&stream, at);
    assert_eq!(found.unwrap(), Decoded::Message(b));
    assert_eq!(next, stream.len());
    let (end, _) = decode(&stream, next);
    assert_eq!(end.unwrap(), Decoded::EndOfStream);
}

#[test]
fn body_is_decoded() {
    assert_eq!(decode_body(b"{\"a\":1}"), Decoded::Message(value("{\"a\":1}")));
    assert_eq!(decode_body(b" [1, 2] "), Decoded::Message(value("[1,2]")));
}

#[test]
fn trailing_white_space_is_left_out() {
    assert_eq!(decode_body(b"{\"a\":1}\r\n"), Decoded::Message(value("{\"a\":1}")));
    assert_eq!(
        decode_body("{\"a\":1}\u{a0}\u{2003}".as_bytes()),
        Decoded::Message(value("{\"a\":1}"))
    );
    assert_eq!(decode_body(b"oops \t\r\n"), Decoded::Malformed("oops".to_string()));
}

#[test]
fn leading_white_space_stays_in_the_text_shown() {
    assert_eq!(decode_body(b"  oops"), Decoded::Malformed("  oops".to_string()));
}

#[test]
fn empty_body_is_no_message() {
    assert_eq!(decode_body(b""), Decoded::Empty);
    assert_eq!(decode_body(b" \r\n\t"), Decoded::Empty);
    let (found, next) = decode(b"Content-Length: 2\r\n\r\n\r\n", 0);
    assert_eq!(found.unwrap(), Decoded::Empty);
    assert_eq!(next, 23);
}

#[test]
fn body_that_is_not_json_is_carried_as_text() {
    assert_eq!(decode_body(b"{\"a\":"), Decoded::Malformed("{\"a\":".to_string()));
    assert_eq!(decode_body(b"hello"), Decoded::Malformed("hello".to_string()));
    assert_eq!(decode_body(b"{} {}"), Decoded::Malformed("{} {}".to_string()));
}

#[test]
fn bytes_that_are_not_utf8_are_replaced() {
    assert_eq!(decode_body(b"a\xffb"), Decoded::Malformed("a\u{fffd}b".to_string()));
    assert_eq!(
        decode_body(b"\"a\xffb\""),
        Decoded::Message(Value::String("a\u{fffd}b".to_string()))
    );
}

#[test]
fn text_is_decoded() {
    assert_eq!(decode_text(""), Decoded::Empty);
    assert_eq!(decode_text("7"), Decoded::Message(value("7")));
    assert_eq!(decode_text("seven"), Decoded::Malformed("seven".to_string()));
}

#[test]
fn message_or_the_text_itself() {
    assert_eq!(
        message_or_text("[1]", serde_json::from_str::<Value>("[1]")),
        Decoded::Message(value("[1]"))
    );
    assert_eq!(
        message_or_text("[1", serde_json::from_str::<Value>("[1")),
        Decoded::Malformed("[1".to_string())
    );
}

#[test]
fn value_nested_too_deeply_is_not_read_back() {
    let mut v = Value::Null;
    for _ in 0..200 {
        v = Value::Array(vec![v]);
    }
    let bytes = encode(&v);
    let (found, next) = decode(&bytes, 0);
    assert!(matches!(found, Ok(Decoded::Malformed(_))));
    assert_eq!(next, bytes.len());
}

#[test]
fn faults_of_the_framing_pass_through() {
    let (found, _) = decode(b"garbage\n", 0);
    assert!(matches!(found, Err(FramingError::UnexpectedLine(ref l)) if l == b"garbage\n"));
    let (found, _) = decode(b"Content-Length: ?\r\n\r\n", 0);
    assert!(matches!(found, Err(FramingError::BadLength)));
    let (found, _) = decode(b"Content-Length: 5\r\n\r\n{}", 0);
    assert!(matches!(found, Err(FramingError::ShortRead)));
    let (found, next) = decode(b"", 0);
    assert_eq!(found.unwrap(), Decoded::EndOfStream);
    assert_eq!(next, 0);
}

#[test]
fn whole_stream_is_decoded_in_order() {
    let a = value("{\"id\":1}");
    let b = value("{\"id\":2}");
    let mut stream = encode(&a);
    stream.extend_from_slice(b"Content-Length: 3\r\n\r\n   ");
    stream.extend_from_slice(b"Content-Length: 4\r\n\r\nnope");
    stream.extend_from_slice(&encode(&b));
    let list = decode_all(&stream);
    assert_eq!(list.len(), 4);
    assert_eq!(list[0].as_ref().unwrap(), &Decoded::Message(a));
    assert_eq!(list[1].as_ref().unwrap(), &Decoded::Empty);
    assert_eq!(list[2].as_ref().unwrap(), &Decoded::Malformed("nope".to_string()));
    assert_eq!(list[3].as_ref().unwrap(), &Decoded::Message(b));
}

#[test]
fn empty_stream_decodes_to_nothing() {
    assert!(decode_all(b"").is_empty());
}

#[test]
fn corrupted_length_costs_one_frame_and_one_diagnostic() {
    let first = value("{\"id\":1,\"result\":null}");
    let third = value("{\"id\":3,\"result\":[]}");
    let mut stream = encode(&first);
    stream.extend_from_slice(b"Content-Length: 2z\r\n\r\n{\"id\":2,\"result\":null}");
    stream.extend_from_slice(&encode(&third));
    let list = decode_all(&stream);
    assert_eq!(list.len(), 3);
    assert_eq!(list[0].as_ref().unwrap(), &Decoded::Message(first));
    assert!(matches!(list[1], Err(FramingError::BadLength)));
    assert_eq!(list[2].as_ref().unwrap(), &Decoded::Message(third));
}

#[test]
fn corrupted_length_at_the_end_of_the_stream() {
    let first = value("1");
    let mut stream = encode(&first);
    stream.extend_from_slice(b"Content-Length: \r\n\r\n{}");
    let list = decode_all(&stream);
    assert_eq!(list.len(), 2);
    assert_eq!(list[0].as_ref().unwrap(), &Decoded::Message(first));
    assert!(matches!(list[1], Err(FramingError::BadLength)));
}

#[test]
fn unexpected_lines_are_reported_one_by_one() {
    let v = value("true");
    let mut stream = b"one\ntwo\n".to_vec();
    stream.extend_from_slice(&encode(&v));
    let list = decode_all(&stream);
    assert_eq!(list.len(), 3);
    assert!(matches!(list[0], Err(FramingError::UnexpectedLine(ref l)) if l == b"one\n"));
    assert!(matches!(list[1], Err(FramingError::UnexpectedLine(ref l)) if l == b"two\n"));
    assert_eq!(list[2].as_ref().unwrap(), &Decoded::Message(v));
}

#[test]
fn short_read_ends_the_stream() {
    let v = value("true");
    let mut stream = encode(&v);
    stream.extend_from_slice(b"Content-Length: 100\r\n\r\n{\"id\":");
    let list = decode_all(&stream);
    assert_eq!(list.len(), 2);
    assert!(matches!(list[1], Err(FramingError::ShortRead)));
}
