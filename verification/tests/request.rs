use lsp_client::codec::{decode, Decoded};
use lsp_client::request::{
    create_request, definition_message, definition_request, did_close_message, did_close_request,
    did_open_message, did_open_request, document_symbol_message, document_symbol_request,
    exit_message, exit_request, file_uri, generate_rpc_request, initialize_message,
    initialize_request, reference_message, reference_request,
};
use serde_json::Value;

fn value(text: &str) -> Value {
    serde_json::from_str(text).unwrap()
}

#[test]
fn envelope_of_a_request_has_an_identifier() {
    let request = create_request("shutdown", value("[1,2]"), Some(12));
    assert_eq!(
        request,
        value("{\"jsonrpc\":\"2.0\",\"method\":\"shutdown\",\"params\":[1,2],\"id\":12}")
    );
}

#[test]
fn envelope_of_a_notification_has_no_identifier() {
    let request = create_request("initialized", value("{}"), None);
    assert_eq!(request, value("{\"jsonrpc\":\"2.0\",\"method\":\"initialized\",\"params\":{}}"));
    assert!(request.get("id").is_none());
}

#[test]
fn envelope_with_a_negative_identifier() {
    let request = create_request("m", Value::Null, Some(-3));
    assert_eq!(request, value("{\"jsonrpc\":\"2.0\",\"method\":\"m\",\"params\":null,\"id\":-3}"));
}

#[test]
fn envelope_is_framed() {
    let request = value("{\"a\":[]}");
    assert_eq!(generate_rpc_request(&request), b"Content-Length: 8\r\n\r\n{\"a\":[]}".to_vec());
}

#[test]
fn initialize_frame() {
    assert_eq!(
        initialize_request(1),
        b"Content-Length: 58\r\n\r\n{\"id\":1,\"jsonrpc\":\"2.0\",\"method\":\"initialize\",\"params\":{}}"
            .to_vec()
    );
    assert_eq!(
        initialize_message(1),
        value("{\"jsonrpc\":\"2.0\",\"method\":\"initialize\",\"params\":{},\"id\":1}")
    );
}

#[test]
fn did_open_frame() {
    assert_eq!(
        did_open_request("file:///tmp/main.c", "int main() {}\n"),
        b"Content-Length: 158\r\n\r\n{\"jsonrpc\":\"2.0\",\"method\":\"textDocument/didOpen\",\"params\":{\"textDocument\":{\"languageId\":\"c\",\"text\":\"int main() {}\\n\",\"uri\":\"file:///tmp/main.c\",\"version\":1}}}"
            .to_vec()
    );
    let message = did_open_message("file:///tmp/main.c", "int main() {}\n");
    assert!(message.get("id").is_none());
    assert_eq!(message["params"]["textDocument"]["version"], value("1"));
    assert_eq!(message["params"]["textDocument"]["languageId"], value("\"c\""));
}

#[test]
fn definition_frame() {
    assert_eq!(
        definition_request(2, "file:///tmp/main.c", 9, 4),
        b"Content-Length: 150\r\n\r\n{\"id\":2,\"jsonrpc\":\"2.0\",\"method\":\"textDocument/definition\",\"params\":{\"position\":{\"character\":4,\"line\":9},\"textDocument\":{\"uri\":\"file:///tmp/main.c\"}}}"
            .to_vec()
    );
    assert_eq!(
        definition_message(2, "file:///tmp/main.c", 9, 4),
        value(
            "{\"jsonrpc\":\"2.0\",\"id\":2,\"method\":\"textDocument/definition\",\"params\":{\"textDocument\":{\"uri\":\"file:///tmp/main.c\"},\"position\":{\"line\":9,\"character\":4}}}"
        )
    );
}

#[test]
fn reference_frame() {
    assert_eq!(
        reference_request(3, "file:///tmp/main.c", 9, 4),
        b"Content-Length: 150\r\n\r\n{\"id\":3,\"jsonrpc\":\"2.0\",\"method\":\"textDocument/references\",\"params\":{\"position\":{\"character\":4,\"line\":9},\"textDocument\":{\"uri\":\"file:///tmp/main.c\"}}}"
            .to_vec()
    );
    assert_eq!(
        reference_message(3, "u", 0, 0),
        value(
            "{\"jsonrpc\":\"2.0\",\"id\":3,\"method\":\"textDocument/references\",\"params\":{\"textDocument\":{\"uri\":\"u\"},\"position\":{\"line\":0,\"character\":0}}}"
        )
    );
}

#[test]
fn position_may_be_as_large_as_the_machine_allows() {
    let message = definition_message(1, "u", usize::MAX, 0);
    assert_eq!(message["params"]["position"]["line"].as_u64(), Some(usize::MAX as u64));
    assert_eq!(message["params"]["position"]["character"].as_u64(), Some(0));
}

#[test]
fn document_symbol_frame() {
    assert_eq!(
        document_symbol_request(4, "file:///tmp/main.c"),
        b"Content-Length: 118\r\n\r\n{\"id\":4,\"jsonrpc\":\"2.0\",\"method\":\"textDocument/documentSymbol\",\"params\":{\"textDocument\":{\"uri\":\"file:///tmp/main.c\"}}}"
            .to_vec()
    );
    assert_eq!(
        document_symbol_message(4, "u"),
        value(
            "{\"jsonrpc\":\"2.0\",\"id\":4,\"method\":\"textDocument/documentSymbol\",\"params\":{\"textDocument\":{\"uri\":\"u\"}}}"
        )
    );
}

#[test]
fn did_close_frame() {
    assert_eq!(
        did_close_request("file:///tmp/main.c"),
        b"Content-Length: 105\r\n\r\n{\"jsonrpc\":\"2.0\",\"method\":\"textDocument/didClose\",\"params\":{\"textDocument\":{\"uri\":\"file:///tmp/main.c\"}}}"
            .to_vec()
    );
    assert!(did_close_message("u").get("id").is_none());
}

#[test]
fn exit_frame() {
    assert_eq!(
        exit_request(),
        b"Content-Length: 47\r\n\r\n{\"jsonrpc\":\"2.0\",\"method\":\"exit\",\"params\":null}".to_vec()
    );
    assert_eq!(exit_message(), value("{\"jsonrpc\":\"2.0\",\"method\":\"exit\",\"params\":null}"));
}

#[test]
fn every_frame_decodes_to_its_envelope() {
    let pairs = [
        (initialize_request(5), initialize_message(5)),
        (did_open_request("u", "text \"quoted\" \u{e9}"), did_open_message("u", "text \"quoted\" \u{e9}")),
        (definition_request(6, "u", 1, 2), definition_message(6, "u", 1, 2)),
        (reference_request(7, "u", 3, 4), reference_message(7, "u", 3, 4)),
        (document_symbol_request(8, "u"), document_symbol_message(8, "u")),
        (did_close_request("u"), did_close_message("u")),
        (exit_request(), exit_message()),
    ];
    for (frame, message) in pairs {
        let (found, next) = decode(&frame, 0);
        assert_eq!(found.unwrap(), Decoded::Message(message));
        assert_eq!(next, frame.len());
    }
}

#[test]
fn uri_of_a_file() {
    assert_eq!(file_uri("/tmp/main.c"), "file:///tmp/main.c");
    assert_eq!(file_uri(""), "file://");
}
