//! The requests and notifications that this client sends.
//!
//! Every message is a JSON-RPC envelope with the members `jsonrpc`, `method`
//! and `params`. A request, which expects a response, has the member `id` as
//! well; a notification has none.

use vstd::prelude::*;
use vstd::string::StringExecFns;
use serde_json::Value;
use crate::codec::{encode, encoding};
use crate::json::{json_empty_object, json_from_i32, json_from_text, json_from_usize, json_null,
    json_set, json_view, Json, JsonNumber};

verus! {

/// The JSON string with the text `text`.
pub open spec fn text_of(text: Seq<char>) -> Json {
    Json::String(text)
}

/// The JSON number `n`.
pub open spec fn number_of(n: int) -> Json {
    Json::Number(JsonNumber::Int(n))
}

/// The envelope of a message: a request where `id` is given, a notification
/// where it is not.
pub open spec fn envelope(method: Seq<char>, params: Json, id: Option<int>) -> Json {
    let members = Map::<Seq<char>, Json>::empty().insert("jsonrpc"@, text_of("2.0"@)).insert(
        "method"@,
        text_of(method),
    ).insert("params"@, params);
    match id {
        Some(n) => Json::Object(members.insert("id"@, number_of(n))),
        None => Json::Object(members),
    }
}

/// The object that names a document by its URI.
pub open spec fn document_ref(uri: Seq<char>) -> Json {
    Json::Object(Map::<Seq<char>, Json>::empty().insert("uri"@, text_of(uri)))
}

/// The object that holds a position in a document, both parts counted from 0.
pub open spec fn position_of(line: nat, character: nat) -> Json {
    Json::Object(
        Map::<Seq<char>, Json>::empty().insert("line"@, number_of(line as int)).insert(
            "character"@,
            number_of(character as int),
        ),
    )
}

/// The parameters of a request about a position in a document.
pub open spec fn position_params(uri: Seq<char>, line: nat, character: nat) -> Json {
    Json::Object(
        Map::<Seq<char>, Json>::empty().insert("textDocument"@, document_ref(uri)).insert(
            "position"@,
            position_of(line, character),
        ),
    )
}

/// The parameters of a message about a document as a whole.
pub open spec fn document_params(uri: Seq<char>) -> Json {
    Json::Object(Map::<Seq<char>, Json>::empty().insert("textDocument"@, document_ref(uri)))
}

/// The `initialize` request.
pub open spec fn initialize_envelope(id: int) -> Json {
    envelope("initialize"@, Json::Object(Map::empty()), Some(id))
}

/// The `textDocument/didOpen` notification: the document is C source, in its
/// first version, with the text `source`.
pub open spec fn did_open_envelope(uri: Seq<char>, source: Seq<char>) -> Json {
    envelope(
        "textDocument/didOpen"@,
        Json::Object(
            Map::<Seq<char>, Json>::empty().insert(
                "textDocument"@,
                Json::Object(
                    Map::<Seq<char>, Json>::empty().insert("uri"@, text_of(uri)).insert(
                        "languageId"@,
                        text_of("c"@),
                    ).insert("version"@, number_of(1)).insert("text"@, text_of(source)),
                ),
            ),
        ),
        None,
    )
}

/// The `textDocument/definition` request.
pub open spec fn definition_envelope(id: int, uri: Seq<char>, line: nat, character: nat) -> Json {
    envelope("textDocument/definition"@, position_params(uri, line, character), Some(id))
}

/// The `textDocument/references` request.
pub open spec fn reference_envelope(id: int, uri: Seq<char>, line: nat, character: nat) -> Json {
    envelope("textDocument/references"@, position_params(uri, line, character), Some(id))
}

/// The `textDocument/documentSymbol` request.
pub open spec fn document_symbol_envelope(id: int, uri: Seq<char>) -> Json {
    envelope("textDocument/documentSymbol"@, document_params(uri), Some(id))
}

/// The `textDocument/didClose` notification.
pub open spec fn did_close_envelope(uri: Seq<char>) -> Json {
    envelope("textDocument/didClose"@, document_params(uri), None)
}

/// The `exit` notification.
pub open spec fn exit_envelope() -> Json {
    envelope("exit"@, Json::Null, None)
}

/// The integer behind an optional identifier.
pub open spec fn id_of(id: Option<i32>) -> Option<int> {
    match id {
        Some(n) => Some(n as int),
        None => None,
    }
}

/// Builds the envelope of a message.
pub fn create_request(method: &str, params: Value, id: Option<i32>) -> (request: Value)
    ensures
        json_view(request) == envelope(method@, json_view(params), id_of(id)),
{
    let mut request = json_empty_object();
    json_set(&mut request, "jsonrpc", json_from_text("2.0"));
    json_set(&mut request, "method", json_from_text(method));
    json_set(&mut request, "params", params);
    if let Some(n) = id {
        json_set(&mut request, "id", json_from_i32(n));
    }
    request
}

/// Puts an envelope on the wire: its frame.
pub fn generate_rpc_request(request: &Value) -> (bytes: Vec<u8>)
    ensures
        bytes@ == encoding(json_view(*request)),
{
    encode(request)
}

/// Builds the object that names a document.
fn document_ref_value(uri: &str) -> (v: Value)
    ensures
        json_view(v) == document_ref(uri@),
{
    let mut v = json_empty_object();
    json_set(&mut v, "uri", json_from_text(uri));
    v
}

/// Builds the parameters of a message about a document as a whole.
fn document_params_value(uri: &str) -> (v: Value)
    ensures
        json_view(v) == document_params(uri@),
{
    let mut v = json_empty_object();
    json_set(&mut v, "textDocument", document_ref_value(uri));
    v
}

/// Builds the parameters of a request about a position in a document.
fn position_params_value(uri: &str, line: usize, character: usize) -> (v: Value)
    ensures
        json_view(v) == position_params(uri@, line as nat, character as nat),
{
    let mut position = json_empty_object();
    json_set(&mut position, "line", json_from_usize(line));
    json_set(&mut position, "character", json_from_usize(character));
    let mut v = json_empty_object();
    json_set(&mut v, "textDocument", document_ref_value(uri));
    json_set(&mut v, "position", position);
    v
}

/// The envelope of the `initialize` request with the identifier `n`.
pub fn initialize_message(n: i32) -> (request: Value)
    ensures
        json_view(request) == initialize_envelope(n as int),
{
    create_request("initialize", json_empty_object(), Some(n))
}

/// The envelope of the notification that the document `file_uri_str` was
/// opened with the text `source`.
pub fn did_open_message(file_uri_str: &str, source: &str) -> (request: Value)
    ensures
        json_view(request) == did_open_envelope(file_uri_str@, source@),
{
    let mut document = json_empty_object();
    json_set(&mut document, "uri", json_from_text(file_uri_str));
    json_set(&mut document, "languageId", json_from_text("c"));
    json_set(&mut document, "version", json_from_i32(1));
    json_set(&mut document, "text", json_from_text(source));
    let mut params = json_empty_object();
    json_set(&mut params, "textDocument", document);
    create_request("textDocument/didOpen", params, None)
}

/// The envelope of the request for the definition of what stands at a
/// position.
pub fn definition_message(n: i32, file_uri_str: &str, line: usize, character: usize) -> (request:
    Value)
    ensures
        json_view(request) == definition_envelope(
            n as int,
            file_uri_str@,
            line as nat,
            character as nat,
        ),
{
    create_request(
        "textDocument/definition",
        position_params_value(file_uri_str, line, character),
        Some(n),
    )
}

/// The envelope of the request for the references to what stands at a
/// position.
pub fn reference_message(n: i32, file_uri_str: &str, line: usize, character: usize) -> (request:
    Value)
    ensures
        json_view(request) == reference_envelope(
            n as int,
            file_uri_str@,
            line as nat,
            character as nat,
        ),
{
    create_request(
        "textDocument/references",
        position_params_value(file_uri_str, line, character),
        Some(n),
    )
}

/// The envelope of the request for the symbols of a document.
pub fn document_symbol_message(n: i32, file_uri_str: &str) -> (request: Value)
    ensures
        json_view(request) == document_symbol_envelope(n as int, file_uri_str@),
{
    create_request("textDocument/documentSymbol", document_params_value(file_uri_str), Some(n))
}

/// The envelope of the notification that a document was closed.
pub fn did_close_message(file_uri_str: &str) -> (request: Value)
    ensures
        json_view(request) == did_close_envelope(file_uri_str@),
{
    create_request("textDocument/didClose", document_params_value(file_uri_str), None)
}

/// The envelope of the notification that asks the server to exit.
pub fn exit_message() -> (request: Value)
    ensures
        json_view(request) == exit_envelope(),
{
    create_request("exit", json_null(), None)
}

/// The frame of the `initialize` request with the identifier `n`.
pub fn initialize_request(n: i32) -> (bytes: Vec<u8>)
    ensures
        bytes@ == encoding(initialize_envelope(n as int)),
{
    generate_rpc_request(&initialize_message(n))
}

/// The frame of the notification that the document `file_uri_str` was opened
/// with the text `source`.
pub fn did_open_request(file_uri_str: &str, source: &str) -> (bytes: Vec<u8>)
    ensures
        bytes@ == encoding(did_open_envelope(file_uri_str@, source@)),
{
    generate_rpc_request(&did_open_message(file_uri_str, source))
}

/// The frame of the request for the definition of what stands at a position.
pub fn definition_request(n: i32, file_uri_str: &str, line: usize, character: usize) -> (bytes: Vec<
    u8,
>)
    ensures
        bytes@ == encoding(
            definition_envelope(n as int, file_uri_str@, line as nat, character as nat),
        ),
{
    generate_rpc_request(&definition_message(n, file_uri_str, line, character))
}

/// The frame of the request for the references to what stands at a position.
pub fn reference_request(n: i32, file_uri_str: &str, line: usize, character: usize) -> (bytes: Vec<
    u8,
>)
    ensures
        bytes@ == encoding(
            reference_envelope(n as int, file_uri_str@, line as nat, character as nat),
        ),
{
    generate_rpc_request(&reference_message(n, file_uri_str, line, character))
}

/// The frame of the request for the symbols of a document.
pub fn document_symbol_request(n: i32, file_uri_str: &str) -> (bytes: Vec<u8>)
    ensures
        bytes@ == encoding(document_symbol_envelope(n as int, file_uri_str@)),
{
    generate_rpc_request(&document_symbol_message(n, file_uri_str))
}

/// The frame of the notification that a document was closed.
pub fn did_close_request(file_uri_str: &str) -> (bytes: Vec<u8>)
    ensures
        bytes@ == encoding(did_close_envelope(file_uri_str@)),
{
    generate_rpc_request(&did_close_message(file_uri_str))
}

/// The frame of the notification that asks the server to exit.
pub fn exit_request() -> (bytes: Vec<u8>)
    ensures
        bytes@ == encoding(exit_envelope()),
{
    generate_rpc_request(&exit_message())
}

/// The URI of the file with the absolute path `path`.
pub fn file_uri(path: &str) -> (uri: String)
    ensures
        uri@ == "file://"@ + path@,
{
    let mut uri = "file://".to_owned();
    uri.append(path);
    uri
}

} // verus!
