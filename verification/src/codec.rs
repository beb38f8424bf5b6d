//! The frame codec: JSON values to frames and back.

use vstd::prelude::*;
use vstd::utf8::encode_utf8;
use serde_json::Value;
use crate::frame::{declared_length, delimiter, encode_frame, find_header, frame, frames_from,
    has_at, header_of, header_token, lemma_declared_length_is_body_length,
    lemma_frame_round_trip, lemma_line_end_bounds, lemma_recovery_after_bad_length,
    lemma_resume_advances, line_end, next_frame, next_frame_spec, token_free,
    FramingError, FramingFault};
use crate::json::{json_from_str, json_parsed, json_text, json_to_string, json_view, Json};
use crate::text::{from_utf8_lossy, trim_end, trimmed_end, utf8_text};

verus! {

/// What the body of a frame turned out to be, as a value of specifications.
pub enum DecodedView {
    Message(Json),
    Empty,
    Malformed(Seq<char>),
    EndOfStream,
}

/// What one attempt to decode a message found.
#[derive(Debug, PartialEq)]
pub enum Decoded {
    /// A frame whose body is JSON.
    Message(Value),
    /// A frame whose body is empty once trailing white space is left out: no
    /// message.
    Empty,
    /// A frame whose body is not JSON: no message. The text of the body is
    /// carried, without its trailing white space, to be shown as it is.
    Malformed(String),
    /// The stream has ended.
    EndOfStream,
}

impl View for Decoded {
    type V = DecodedView;

    open spec fn view(&self) -> DecodedView {
        match self {
            Decoded::Message(v) => DecodedView::Message(json_view(*v)),
            Decoded::Empty => DecodedView::Empty,
            Decoded::Malformed(text) => DecodedView::Malformed(text@),
            Decoded::EndOfStream => DecodedView::EndOfStream,
        }
    }
}

/// What a body with the text `text` is decoded to.
pub open spec fn text_outcome(text: Seq<char>) -> DecodedView {
    let kept = trimmed_end(text);
    if kept.len() == 0 {
        DecodedView::Empty
    } else {
        parsed_outcome(kept, json_parsed(kept))
    }
}

/// What the body of a frame is decoded to.
pub open spec fn body_outcome(body: Seq<u8>) -> DecodedView {
    text_outcome(utf8_text(body))
}

/// The frame that carries the value `j`: its compact text, in UTF-8, framed.
pub open spec fn encoding(j: Json) -> Seq<u8> {
    frame(encode_utf8(json_text(j)))
}

/// What one attempt to decode a message from `s` at `pos` finds, and where
/// the next attempt starts.
pub open spec fn decode_spec(s: Seq<u8>, pos: int) -> (Result<DecodedView, FramingFault>, int) {
    let step = next_frame_spec(s, pos);
    match step.0 {
        Ok(Some(body)) => (Ok(body_outcome(body)), step.1),
        Ok(None) => (Ok(DecodedView::EndOfStream), step.1),
        Err(fault) => (Err(fault), step.1),
    }
}

/// The content of what an attempt to decode returns.
pub open spec fn decoded_view(r: Result<Decoded, FramingError>) -> Result<DecodedView, FramingFault> {
    match r {
        Ok(d) => Ok(d@),
        Err(e) => Err(e@),
    }
}

/// Encodes a value: its compact JSON text in UTF-8, behind a header that
/// declares the length of that text in bytes.
pub fn encode(json: &Value) -> (bytes: Vec<u8>)
    ensures
        bytes@ == encoding(json_view(*json)),
{
    let text = json_to_string(json);
    encode_frame(text.as_str().as_bytes())
}

/// What a text that was read, or could not be read, as JSON is decoded to.
pub open spec fn parsed_outcome(kept: Seq<char>, parsed: Option<Json>) -> DecodedView {
    match parsed {
        Some(j) => DecodedView::Message(j),
        None => DecodedView::Malformed(kept),
    }
}

/// Makes what is decoded of a text and of what the JSON reader made of it:
/// the message where it read one, the text itself where it did not.
pub fn message_or_text(kept: &str, parsed: Result<Value, serde_json::Error>) -> (d: Decoded)
    ensures
        d@ == parsed_outcome(
            kept@,
            match parsed {
                Ok(v) => Some(json_view(v)),
                Err(_) => None,
            },
        ),
{
    match parsed {
        Ok(value) => Decoded::Message(value),
        Err(_) => Decoded::Malformed(kept.to_owned()),
    }
}

/// Decodes the text of a body that has no trailing white space: no message
/// where nothing is left, else what the JSON reader makes of it.
pub fn decode_text(kept: &str) -> (d: Decoded)
    ensures
        d@ == if kept@.len() == 0 {
            DecodedView::Empty
        } else {
            parsed_outcome(kept@, json_parsed(kept@))
        },
{
    if kept.is_empty() {
        Decoded::Empty
    } else {
        message_or_text(kept, json_from_str(kept))
    }
}

/// Decodes the body of a frame. The body is read as UTF-8, with anything that
/// is not UTF-8 replaced, and its trailing white space is left out.
pub fn decode_body(body: &[u8]) -> (d: Decoded)
    ensures
        d@ == body_outcome(body@),
{
    let text = from_utf8_lossy(body);
    decode_text(trim_end(text.as_str()))
}

/// Decodes one message from `stream` at `pos`, and returns where to go on.
pub fn decode(stream: &[u8], pos: usize) -> (r: (Result<Decoded, FramingError>, usize))
    ensures
        decoded_view(r.0) == decode_spec(stream@, pos as int).0,
        r.1 == decode_spec(stream@, pos as int).1,
{
    let (framed, next) = next_frame(stream, pos);
    match framed {
        Ok(Some(body)) => (Ok(decode_body(body.as_slice())), next),
        Ok(None) => (Ok(Decoded::EndOfStream), next),
        Err(e) => (Err(e), next),
    }
}

/// What a frame or a fault that reading a stream found is decoded to.
pub open spec fn outcome_of(found: Result<Seq<u8>, FramingFault>) -> Result<DecodedView, FramingFault> {
    match found {
        Ok(body) => Ok(body_outcome(body)),
        Err(fault) => Err(fault),
    }
}

/// Everything that decoding `s` from `pos` to its end finds, in order. After
/// a header without a valid length decoding goes on at the next header token.
pub open spec fn messages_from(s: Seq<u8>, pos: int) -> Seq<Result<DecodedView, FramingFault>> {
    frames_from(s, pos).map_values(|found: Result<Seq<u8>, FramingFault>| outcome_of(found))
}

/// The contents of a list of what decoding returned.
pub open spec fn decoded_views(list: Seq<Result<Decoded, FramingError>>) -> Seq<
    Result<DecodedView, FramingFault>,
> {
    list.map_values(|r: Result<Decoded, FramingError>| decoded_view(r))
}

/// Decodes a whole stream: every message and every fault, in order, up to the
/// end of the stream. A fault ends only the frame it was found in.
pub fn decode_all(stream: &[u8]) -> (list: Vec<Result<Decoded, FramingError>>)
    ensures
        decoded_views(list@) == messages_from(stream@, 0),
{
    let mut list: Vec<Result<Decoded, FramingError>> = Vec::new();
    let mut pos: usize = 0;
    while pos < stream.len()
        invariant
            pos <= stream.len(),
            decoded_views(list@) + messages_from(stream@, pos as int) == messages_from(stream@, 0),
        decreases stream.len() - pos,
    {
        proof {
            lemma_resume_advances(stream@, pos as int);
            lemma_line_end_bounds(stream@, pos as int);
        }
        let (found, next) = decode(stream, pos);
        let resume = match &found {
            Err(FramingError::BadLength) => find_header(stream, next),
            _ => next,
        };
        list.push(found);
        proof {
            let here = seq![decode_spec(stream@, pos as int).0];
            assert(messages_from(stream@, pos as int) =~= here + messages_from(
                stream@,
                resume as int,
            ));
        }
        pos = resume;
    }
    list
}

/// The length invariant: the header of the frame of a value declares the
/// number of bytes that the compact text of the value takes in UTF-8, and
/// that text, in UTF-8, is all that follows the delimiter.
pub proof fn lemma_length_invariant(j: Json)
    requires
        encode_utf8(json_text(j)).len() <= usize::MAX,
    ensures
        header_of(encoding(j).subrange(0, line_end(encoding(j), 0))) == Ok::<
            Option<nat>,
            FramingFault,
        >(Some(encode_utf8(json_text(j)).len())),
        encoding(j).subrange(line_end(encoding(j), 0) + 2, encoding(j).len() as int)
            == encode_utf8(json_text(j)),
{
    lemma_declared_length_is_body_length(encode_utf8(json_text(j)));
}

/// Whether `serde_json` reads the text that it writes for `j` back as `j`.
pub open spec fn reads_back(j: Json) -> bool {
    text_outcome(json_text(j)) == DecodedView::Message(j)
}

/// Decoding what was encoded: the frame of a value is decoded to whatever the
/// JSON reader makes of the text that the JSON writer wrote for the value, and
/// decoding leaves off right behind the frame. Where the reader reads that
/// text back as the value, decoding gives the value.
pub proof fn lemma_decode_encode(s: Seq<u8>, pos: int, j: Json)
    requires
        has_at(s, pos, encoding(j)),
        encode_utf8(json_text(j)).len() <= usize::MAX,
    ensures
        decode_spec(s, pos) == (
            Ok::<DecodedView, FramingFault>(text_outcome(json_text(j))),
            pos + encoding(j).len(),
        ),
        reads_back(j) ==> decode_spec(s, pos).0 == Ok::<DecodedView, FramingFault>(
            DecodedView::Message(j),
        ),
{
    let body = encode_utf8(json_text(j));
    lemma_frame_round_trip(s, pos, body);
    vstd::utf8::encode_utf8_valid_utf8(json_text(j));
    vstd::utf8::encode_utf8_decode_utf8(json_text(j));
}

/// Decoding the stream that holds nothing but the frame of a value.
pub proof fn lemma_round_trip(j: Json)
    requires
        encode_utf8(json_text(j)).len() <= usize::MAX,
    ensures
        decode_spec(encoding(j), 0) == (
            Ok::<DecodedView, FramingFault>(text_outcome(json_text(j))),
            encoding(j).len() as int,
        ),
        reads_back(j) ==> decode_spec(encoding(j), 0).0 == Ok::<DecodedView, FramingFault>(
            DecodedView::Message(j),
        ),
{
    assert(encoding(j).subrange(0, encoding(j).len() as int) =~= encoding(j));
    lemma_decode_encode(encoding(j), 0, j);
}

/// Recovery from a corrupted length: between the frames of two values stands
/// a frame whose length field is no valid length. Decoding the stream gives
/// what the first frame holds, one fault, and what the third frame holds.
pub proof fn lemma_malformed_frame_recovery(first: Json, field: Seq<u8>, lost: Seq<u8>, third: Json)
    requires
        encode_utf8(json_text(first)).len() <= usize::MAX,
        encode_utf8(json_text(third)).len() <= usize::MAX,
        forall|i: int| 0 <= i < field.len() ==> field[i] != 10,
        declared_length(field + seq![13u8, 10u8]) is None,
        token_free(lost),
    ensures
        messages_from(
            encoding(first) + (header_token() + field + delimiter() + lost) + encoding(third),
            0,
        ) == seq![
            Ok::<DecodedView, FramingFault>(text_outcome(json_text(first))),
            Err::<DecodedView, FramingFault>(FramingFault::BadLength),
            Ok::<DecodedView, FramingFault>(text_outcome(json_text(third))),
        ],
{
    let a = encode_utf8(json_text(first));
    let c = encode_utf8(json_text(third));
    let s = encoding(first) + (header_token() + field + delimiter() + lost) + encoding(third);
    lemma_recovery_after_bad_length(a, field, lost, c);
    vstd::utf8::encode_utf8_valid_utf8(json_text(first));
    vstd::utf8::encode_utf8_decode_utf8(json_text(first));
    vstd::utf8::encode_utf8_valid_utf8(json_text(third));
    vstd::utf8::encode_utf8_decode_utf8(json_text(third));
    assert(messages_from(s, 0) =~= seq![
        Ok::<DecodedView, FramingFault>(text_outcome(json_text(first))),
        Err::<DecodedView, FramingFault>(FramingFault::BadLength),
        Ok::<DecodedView, FramingFault>(text_outcome(json_text(third))),
    ]);
}

} // verus!
