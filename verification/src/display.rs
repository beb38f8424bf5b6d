//! What the operator is shown for a response.
//!
//! Nothing is printed here. Every function appends the lines that it shows to
//! a list, in order, and returns an error where showing had to stop; the
//! lines that were shown before the error stay in the list.

use vstd::prelude::*;
use vstd::string::StringExecFns;
use serde_json::Value;
use crate::correlator::{Correlator, Outstanding};
use crate::decimal::{int_text, push_int};
use crate::text::same_text;
use crate::json::{json_as_array, json_as_i64, json_as_str, json_get, json_i64, json_is_null,
    json_items, json_member, json_pretty_text, json_str, json_to_string_pretty, json_view,
    json_views, Json};

verus! {

/// What showing a response comes to: the lines shown, and the error, if any,
/// at which showing stopped.
pub struct Shown {
    pub lines: Seq<Seq<char>>,
    pub error: Option<Seq<char>>,
}

impl Shown {
    /// Nothing shown, no error.
    pub open spec fn nothing() -> Shown {
        Shown { lines: Seq::empty(), error: None }
    }

    /// One line shown, no error.
    pub open spec fn line(text: Seq<char>) -> Shown {
        Shown { lines: seq![text], error: None }
    }

    /// Nothing shown, and an error.
    pub open spec fn failure(text: Seq<char>) -> Shown {
        Shown { lines: Seq::empty(), error: Some(text) }
    }

    /// `self` and after it `next`, unless `self` stopped at an error.
    pub open spec fn followed_by(self, next: Shown) -> Shown {
        if self.error is Some {
            self
        } else {
            Shown { lines: self.lines + next.lines, error: next.error }
        }
    }
}

/// The texts of a list of lines.
pub open spec fn lines_of(list: Seq<String>) -> Seq<Seq<char>> {
    list.map_values(|line: String| line@)
}

/// The error that a result holds, if it holds one.
pub open spec fn error_of(r: Result<(), String>) -> Option<Seq<char>> {
    match r {
        Ok(_) => None,
        Err(e) => Some(e@),
    }
}

/// Whether a sink that held `before` and a result `r` show what `shown` says.
pub open spec fn shows(before: Seq<String>, after: Seq<String>, r: Result<(), String>, shown: Shown) -> bool {
    lines_of(after) == lines_of(before) + shown.lines && error_of(r) == shown.error
}

/// The integer member `key` of `point`, or -1 where `point` has no such
/// member or it is no integer.
pub open spec fn coordinate(point: Json, key: Seq<char>) -> int {
    match json_member(point, key) {
        Some(v) => match json_i64(v) {
            Some(n) => n as int,
            None => -1,
        },
        None => -1,
    }
}

/// The text `line:character` of a position.
pub open spec fn point_text(point: Json) -> Seq<char> {
    int_text(coordinate(point, "line"@)) + ":"@ + int_text(coordinate(point, "character"@))
}

/// The text `start->end` of a range, or the error that says which end is
/// missing; the end is looked for first.
pub open spec fn range_text(range: Json) -> Result<Seq<char>, Seq<char>> {
    match json_member(range, "end"@) {
        None => Err("Range end is missing"@),
        Some(end) => match json_member(range, "start"@) {
            None => Err("Range start is missing"@),
            Some(start) => Ok(point_text(start) + "->"@ + point_text(end)),
        },
    }
}

/// The content of a result that holds a text either way.
pub open spec fn text_result(r: Result<String, String>) -> Result<Seq<char>, Seq<char>> {
    match r {
        Ok(t) => Ok(t@),
        Err(e) => Err(e@),
    }
}

/// Reads the integer member `key` of `point`, -1 if there is none.
fn read_coordinate(point: &Value, key: &str) -> (n: i64)
    ensures
        n == coordinate(json_view(*point), key@),
{
    match json_get(point, key) {
        Some(v) => match json_as_i64(v) {
            Some(n) => n,
            None => -1,
        },
        None => -1,
    }
}

/// Appends the text `line:character` of a position to `out`.
fn push_point(out: &mut String, point: &Value)
    ensures
        final(out)@ == old(out)@ + point_text(json_view(*point)),
{
    push_int(out, read_coordinate(point, "line"));
    out.append(":");
    push_int(out, read_coordinate(point, "character"));
}

/// Formats a range as `line:character->line:character`, with -1 in place of
/// a part that is missing or no integer. A range without an end or without a
/// start is an error.
pub fn format_range(range: &Value) -> (r: Result<String, String>)
    ensures
        text_result(r) == range_text(json_view(*range)),
{
    match json_get(range, "end") {
        None => Err("Range end is missing".to_owned()),
        Some(end) => match json_get(range, "start") {
            None => Err("Range start is missing".to_owned()),
            Some(start) => {
                let mut text = String::new();
                push_point(&mut text, start);
                text.append("->");
                push_point(&mut text, end);
                assert(text@ =~= point_text(json_view(*start)) + "->"@ + point_text(
                    json_view(*end),
                ));
                Ok(text)
            },
        },
    }
}

/// What showing one entry comes to: its line, or the error that it is.
pub open spec fn shown_entry(entry: Result<Seq<char>, Seq<char>>) -> Shown {
    match entry {
        Ok(line) => Shown::line(line),
        Err(e) => Shown::failure(e),
    }
}

/// What showing entries one after another comes to: the lines of the entries
/// up to the first that is an error, and that error.
pub open spec fn shown_each(entries: Seq<Result<Seq<char>, Seq<char>>>) -> Shown
    decreases entries.len(),
{
    if entries.len() == 0 {
        Shown::nothing()
    } else {
        shown_each(entries.drop_last()).followed_by(shown_entry(entries.last()))
    }
}

/// Once showing has stopped at an error, further entries change nothing.
proof fn lemma_shown_each_stops(entries: Seq<Result<Seq<char>, Seq<char>>>, k: int)
    requires
        0 <= k <= entries.len(),
        shown_each(entries.subrange(0, k)).error is Some,
    ensures
        shown_each(entries) == shown_each(entries.subrange(0, k)),
    decreases entries.len() - k,
{
    if k == entries.len() {
        assert(entries.subrange(0, k) =~= entries);
    } else {
        assert(entries.drop_last().subrange(0, k) =~= entries.subrange(0, k));
        lemma_shown_each_stops(entries.drop_last(), k);
    }
}

/// Showing one entry more.
proof fn lemma_shown_each_next(entries: Seq<Result<Seq<char>, Seq<char>>>, k: int)
    requires
        0 <= k < entries.len(),
    ensures
        shown_each(entries.subrange(0, k + 1)) == shown_each(entries.subrange(0, k)).followed_by(
            shown_entry(entries[k]),
        ),
{
    assert(entries.subrange(0, k + 1).drop_last() =~= entries.subrange(0, k));
}

/// The line shown for one location of a list, or the error at which the list
/// is given up: a location whose URI is no text.
pub open spec fn location_line(item: Json, range_missing: Seq<char>, uri_missing: Seq<char>) -> Result<
    Seq<char>,
    Seq<char>,
> {
    match json_member(item, "uri"@) {
        None => Ok(uri_missing),
        Some(uri) => match json_str(uri) {
            None => Err("Failed to format URI: Invalid URI"@),
            Some(text) => match json_member(item, "range"@) {
                None => Ok(range_missing),
                Some(range) => match range_text(range) {
                    Ok(span) => Ok(text + "\t"@ + span),
                    Err(e) => Ok("Failed to format range: "@ + e),
                },
            },
        },
    }
}

/// The lines of the locations `items`, as entries.
pub open spec fn location_entries(items: Seq<Json>, range_missing: Seq<char>, uri_missing: Seq<char>) -> Seq<
    Result<Seq<char>, Seq<char>>,
> {
    items.map_values(|item: Json| location_line(item, range_missing, uri_missing))
}

/// What is shown for a response that lists locations. Without a result the
/// response is an error. A result that is `null` or an empty list shows
/// `none_found`; a list shows one line for each location; any other result
/// shows nothing.
pub open spec fn shown_locations(
    response: Json,
    none_found: Seq<char>,
    range_missing: Seq<char>,
    uri_missing: Seq<char>,
) -> Shown {
    match json_member(response, "result"@) {
        None => Shown::failure("No result found in JSON response"@),
        Some(result) => if result is Null {
            Shown::line(none_found)
        } else {
            match json_items(result) {
                None => Shown::nothing(),
                Some(items) => if items.len() == 0 {
                    Shown::line(none_found)
                } else {
                    shown_each(location_entries(items, range_missing, uri_missing))
                },
            }
        },
    }
}

/// What is shown for the response to a request for a definition.
pub open spec fn shown_definition(response: Json) -> Shown {
    shown_locations(
        response,
        "No definition found."@,
        "Definition found but range is missing."@,
        "Definition found but URI is missing."@,
    )
}

/// What is shown for the response to a request for references.
pub open spec fn shown_references(response: Json) -> Shown {
    shown_locations(
        response,
        "No references found."@,
        "Reference found but range is missing."@,
        "Reference found but URI is missing."@,
    )
}

/// Makes the line for one location.
fn location_text(item: &Value, range_missing: &str, uri_missing: &str) -> (r: Result<String, String>)
    ensures
        text_result(r) == location_line(json_view(*item), range_missing@, uri_missing@),
{
    match json_get(item, "uri") {
        None => Ok(uri_missing.to_owned()),
        Some(uri) => match json_as_str(uri) {
            None => Err("Failed to format URI: Invalid URI".to_owned()),
            Some(text) => match json_get(item, "range") {
                None => Ok(range_missing.to_owned()),
                Some(range) => match format_range(range) {
                    Ok(span) => {
                        let mut line = text.to_owned();
                        line.append("\t");
                        line.append(span.as_str());
                        Ok(line)
                    },
                    Err(e) => {
                        let mut line = "Failed to format range: ".to_owned();
                        line.append(e.as_str());
                        Ok(line)
                    },
                },
            },
        },
    }
}

/// Shows a response that lists locations.
fn display_locations(
    json_value: &Value,
    none_found: &str,
    range_missing: &str,
    uri_missing: &str,
    out: &mut Vec<String>,
) -> (r: Result<(), String>)
    ensures
        shows(
            old(out)@,
            final(out)@,
            r,
            shown_locations(json_view(*json_value), none_found@, range_missing@, uri_missing@),
        ),
{
    let result = match json_get(json_value, "result") {
        None => {
            return Err("No result found in JSON response".to_owned());
        },
        Some(result) => result,
    };
    if json_is_null(result) {
        out.push(none_found.to_owned());
        assert(lines_of(out@) =~= lines_of(old(out)@) + seq![none_found@]);
        return Ok(());
    }
    let items = match json_as_array(result) {
        None => {
            return Ok(());
        },
        Some(items) => items,
    };
    if items.len() == 0 {
        out.push(none_found.to_owned());
        assert(lines_of(out@) =~= lines_of(old(out)@) + seq![none_found@]);
        return Ok(());
    }
    let ghost entries = location_entries(json_views(items@), range_missing@, uri_missing@);
    let ghost whole = shown_locations(
        json_view(*json_value),
        none_found@,
        range_missing@,
        uri_missing@,
    );
    let mut i: usize = 0;
    while i < items.len()
        invariant
            0 <= i <= items.len(),
            entries == location_entries(json_views(items@), range_missing@, uri_missing@),
            whole == shown_each(entries),
            whole == shown_locations(
                json_view(*json_value),
                none_found@,
                range_missing@,
                uri_missing@,
            ),
            shown_each(entries.subrange(0, i as int)).error is None,
            lines_of(out@) == lines_of(old(out)@) + shown_each(entries.subrange(0, i as int)).lines,
        decreases items.len() - i,
    {
        proof {
            lemma_shown_each_next(entries, i as int);
            assert(entries[i as int] == location_line(
                json_view(items@[i as int]),
                range_missing@,
                uri_missing@,
            ));
        }
        let ghost before = out@;
        match location_text(&items[i], range_missing, uri_missing) {
            Ok(line) => {
                out.push(line);
                assert(lines_of(out@) =~= lines_of(before).push(line@));
            },
            Err(e) => {
                proof {
                    lemma_shown_each_stops(entries, i + 1);
                    assert(shown_each(entries).lines =~= shown_each(
                        entries.subrange(0, i as int),
                    ).lines);
                }
                return Err(e);
            },
        }
        i += 1;
    }
    assert(entries.subrange(0, i as int) =~= entries);
    Ok(())
}

/// Shows the response to a request for a definition: for each location a
/// line with its URI, a tab and its range.
pub fn display_definition(json_value: &Value, out: &mut Vec<String>) -> (r: Result<(), String>)
    ensures
        shows(old(out)@, final(out)@, r, shown_definition(json_view(*json_value))),
{
    display_locations(
        json_value,
        "No definition found.",
        "Definition found but range is missing.",
        "Definition found but URI is missing.",
        out,
    )
}

/// Shows the response to a request for references: for each location a line
/// with its URI, a tab and its range.
pub fn display_references(json_value: &Value, out: &mut Vec<String>) -> (r: Result<(), String>)
    ensures
        shows(old(out)@, final(out)@, r, shown_references(json_view(*json_value))),
{
    display_locations(
        json_value,
        "No references found.",
        "Reference found but range is missing.",
        "Reference found but URI is missing.",
        out,
    )
}

/// The line shown for one symbol, or the error at which the list is given
/// up: a symbol whose name, location, range or URI is missing or is not what
/// it should be.
pub open spec fn symbol_line(item: Json) -> Result<Seq<char>, Seq<char>> {
    match json_member(item, "name"@) {
        None => Err("Symbol found but name is missing."@),
        Some(name) => match json_str(name) {
            None => Err("Invalid symbol name"@),
            Some(name_text) => match json_member(item, "location"@) {
                None => Err("Symbol found but location is missing."@),
                Some(location) => match json_member(location, "range"@) {
                    None => Err("Symbol location found but range is missing."@),
                    Some(range) => match json_member(location, "uri"@) {
                        None => Err("Symbol location found but URI is missing."@),
                        Some(uri) => match json_str(uri) {
                            None => Err("Invalid symbol URI"@),
                            Some(uri_text) => match range_text(range) {
                                Err(e) => Err(
                                    "Failed to format range for symbol '"@ + name_text + "': "@
                                        + e,
                                ),
                                Ok(span) => Ok(uri_text + "\t"@ + span + "\t"@ + name_text),
                            },
                        },
                    },
                },
            },
        },
    }
}

/// The lines of the symbols `items`, as entries.
pub open spec fn symbol_entries(items: Seq<Json>) -> Seq<Result<Seq<char>, Seq<char>>> {
    items.map_values(|item: Json| symbol_line(item))
}

/// What is shown for the response to a request for the symbols of a
/// document. A response without a result, or whose result is no list or an
/// empty one, is an error. A list shows one line for each symbol.
pub open spec fn shown_symbols(response: Json) -> Shown {
    match json_member(response, "result"@) {
        None => Shown::failure("No result found in JSON response"@),
        Some(result) => match json_items(result) {
            None => Shown::failure("No symbols found."@),
            Some(items) => if items.len() == 0 {
                Shown::failure("No symbols found."@)
            } else {
                shown_each(symbol_entries(items))
            },
        },
    }
}

/// Makes the line for one symbol.
fn symbol_text(item: &Value) -> (r: Result<String, String>)
    ensures
        text_result(r) == symbol_line(json_view(*item)),
{
    let name = match json_get(item, "name") {
        None => {
            return Err("Symbol found but name is missing.".to_owned());
        },
        Some(name) => match json_as_str(name) {
            None => {
                return Err("Invalid symbol name".to_owned());
            },
            Some(text) => text,
        },
    };
    let location = match json_get(item, "location") {
        None => {
            return Err("Symbol found but location is missing.".to_owned());
        },
        Some(location) => location,
    };
    let range = match json_get(location, "range") {
        None => {
            return Err("Symbol location found but range is missing.".to_owned());
        },
        Some(range) => range,
    };
    let uri = match json_get(location, "uri") {
        None => {
            return Err("Symbol location found but URI is missing.".to_owned());
        },
        Some(uri) => match json_as_str(uri) {
            None => {
                return Err("Invalid symbol URI".to_owned());
            },
            Some(text) => text,
        },
    };
    match format_range(range) {
        Err(e) => {
            let mut text = "Failed to format range for symbol '".to_owned();
            text.append(name);
            text.append("': ");
            text.append(e.as_str());
            Err(text)
        },
        Ok(span) => {
            let mut line = uri.to_owned();
            line.append("\t");
            line.append(span.as_str());
            line.append("\t");
            line.append(name);
            Ok(line)
        },
    }
}

/// Shows the response to a request for the symbols of a document: for each
/// symbol a line with its URI, its range and its name, with tabs between.
pub fn display_symbols(json_value: &Value, out: &mut Vec<String>) -> (r: Result<(), String>)
    ensures
        shows(old(out)@, final(out)@, r, shown_symbols(json_view(*json_value))),
{
    let result = match json_get(json_value, "result") {
        None => {
            return Err("No result found in JSON response".to_owned());
        },
        Some(result) => result,
    };
    let items = match json_as_array(result) {
        None => {
            return Err("No symbols found.".to_owned());
        },
        Some(items) => items,
    };
    if items.len() == 0 {
        return Err("No symbols found.".to_owned());
    }
    let ghost entries = symbol_entries(json_views(items@));
    let ghost whole = shown_symbols(json_view(*json_value));
    let mut i: usize = 0;
    while i < items.len()
        invariant
            0 <= i <= items.len(),
            entries == symbol_entries(json_views(items@)),
            whole == shown_each(entries),
            whole == shown_symbols(json_view(*json_value)),
            shown_each(entries.subrange(0, i as int)).error is None,
            lines_of(out@) == lines_of(old(out)@) + shown_each(entries.subrange(0, i as int)).lines,
        decreases items.len() - i,
    {
        proof {
            lemma_shown_each_next(entries, i as int);
        }
        let ghost before = out@;
        match symbol_text(&items[i]) {
            Ok(line) => {
                out.push(line);
                assert(lines_of(out@) =~= lines_of(before).push(line@));
            },
            Err(e) => {
                proof {
                    lemma_shown_each_stops(entries, i + 1);
                    assert(shown_each(entries).lines =~= shown_each(
                        entries.subrange(0, i as int),
                    ).lines);
                }
                return Err(e);
            },
        }
        i += 1;
    }
    assert(entries.subrange(0, i as int) =~= entries);
    Ok(())
}

/// The indented text of a value, or a fixed text where it cannot be written.
pub open spec fn pretty_or_failure(j: Json) -> Seq<char> {
    match json_pretty_text(j) {
        Some(text) => text,
        None => "Failed to format JSON"@,
    }
}

/// The line that shows a request.
pub open spec fn command_line(command: Json) -> Seq<char> {
    "Command: "@ + pretty_or_failure(command)
}

/// The line that shows a response.
pub open spec fn response_line(response: Json) -> Seq<char> {
    "Response: "@ + pretty_or_failure(response)
}

/// The method that a request names, or a fixed text where it names none.
pub open spec fn method_of(command: Json) -> Seq<char> {
    match json_member(command, "method"@) {
        Some(method) => match json_str(method) {
            Some(text) => text,
            None => "Unknown method"@,
        },
        None => "Unknown method"@,
    }
}

/// What is shown of a request and its response before the result: each of
/// the two where the operator asked to see it.
pub open spec fn shown_echo(command: Json, response: Json, echo_commands: bool, echo_responses: bool) -> Shown {
    let first = if echo_commands {
        seq![command_line(command)]
    } else {
        Seq::empty()
    };
    let second = if echo_responses {
        seq![response_line(response)]
    } else {
        Seq::empty()
    };
    Shown { lines: first + second, error: None }
}

/// What is shown of the result of a response, by the method of its request:
/// locations, symbols, or, for any other method, the request and the
/// response themselves.
pub open spec fn shown_result(command: Json, response: Json) -> Shown {
    let method = method_of(command);
    if method == "textDocument/definition"@ {
        shown_definition(response)
    } else if method == "textDocument/references"@ {
        shown_references(response)
    } else if method == "textDocument/documentSymbol"@ {
        shown_symbols(response)
    } else {
        Shown { lines: seq![command_line(command), response_line(response)], error: None }
    }
}

/// What is shown for a response and the request that it answers.
pub open spec fn shown_message(command: Json, response: Json, echo_commands: bool, echo_responses: bool) -> Shown {
    shown_echo(command, response, echo_commands, echo_responses).followed_by(
        shown_result(command, response),
    )
}

/// The request that a response answers: the one kept under the identifier of
/// the response, where the response has an identifier that is an integer and
/// a request is kept under it.
pub open spec fn originating(response: Json, c: Outstanding) -> Option<Json> {
    match json_member(response, "id"@) {
        Some(id) => match json_i64(id) {
            Some(k) => c.resolve(k as int),
            None => None,
        },
        None => None,
    }
}

/// What is shown for a response that answers no request of this client: its
/// indented text, in green, or an error where that text cannot be written.
pub open spec fn shown_unmatched(response: Json) -> Shown {
    match json_pretty_text(response) {
        Some(text) => Shown::line("\x1b[32m"@ + text + "\x1b[0m"@),
        None => Shown::failure("Failed to format JSON"@),
    }
}

/// What is shown for what the decoder handed over: for no message an error,
/// for a response to a request of this client what its method asks for, and
/// for any other message the message itself.
pub open spec fn shown_response(
    message: Option<Json>,
    c: Outstanding,
    echo_commands: bool,
    echo_responses: bool,
) -> Shown {
    match message {
        None => Shown::failure("No JSON message received"@),
        Some(response) => match originating(response, c) {
            Some(command) => shown_message(command, response, echo_commands, echo_responses),
            None => shown_unmatched(response),
        },
    }
}

/// The indented text of a value, or a fixed text where it cannot be written.
fn pretty(value: &Value) -> (text: String)
    ensures
        text@ == pretty_or_failure(json_view(*value)),
{
    match json_to_string_pretty(value) {
        Ok(text) => text,
        Err(_) => "Failed to format JSON".to_owned(),
    }
}

/// Makes the line that shows a request.
fn command_text(command: &Value) -> (line: String)
    ensures
        line@ == command_line(json_view(*command)),
{
    let mut line = "Command: ".to_owned();
    line.append(pretty(command).as_str());
    line
}

/// Makes the line that shows a response.
fn response_text(response: &Value) -> (line: String)
    ensures
        line@ == response_line(json_view(*response)),
{
    let mut line = "Response: ".to_owned();
    line.append(pretty(response).as_str());
    line
}

/// The method that a request names.
pub fn method_name<'a>(command: &'a Value) -> (method: &'a str)
    ensures
        method@ == method_of(json_view(*command)),
{
    match json_get(command, "method") {
        Some(method) => match json_as_str(method) {
            Some(text) => text,
            None => "Unknown method",
        },
        None => "Unknown method",
    }
}

/// Shows a response and the request that it answers. Where the operator
/// asked for it, the request and the response are shown first, as they are.
pub fn display_message(
    command: &Value,
    value: &Value,
    echo_commands: bool,
    echo_responses: bool,
    out: &mut Vec<String>,
) -> (r: Result<(), String>)
    ensures
        shows(
            old(out)@,
            final(out)@,
            r,
            shown_message(json_view(*command), json_view(*value), echo_commands, echo_responses),
        ),
{
    let ghost echo = shown_echo(
        json_view(*command),
        json_view(*value),
        echo_commands,
        echo_responses,
    );
    if echo_commands {
        out.push(command_text(command));
    }
    if echo_responses {
        out.push(response_text(value));
    }
    let ghost middle = out@;
    let method = method_name(command);
    let r = if same_text(method, "textDocument/definition") {
        display_definition(value, out)
    } else if same_text(method, "textDocument/references") {
        display_references(value, out)
    } else if same_text(method, "textDocument/documentSymbol") {
        display_symbols(value, out)
    } else {
        out.push(command_text(command));
        out.push(response_text(value));
        assert(lines_of(out@) =~= lines_of(middle) + seq![
            command_line(json_view(*command)),
            response_line(json_view(*value)),
        ]);
        Ok(())
    };
    proof {
        let result = shown_result(json_view(*command), json_view(*value));
        assert(lines_of(out@) =~= lines_of(old(out)@) + (echo.lines + result.lines));
    }
    r
}

/// Finds the request that a response answers, if this client issued it.
pub fn originating_request<'a>(correlator: &'a Correlator, response: &Value) -> (r: Option<
    &'a Value,
>)
    ensures
        match r {
            Some(command) => originating(json_view(*response), correlator@) == Some(
                json_view(*command),
            ),
            None => originating(json_view(*response), correlator@) is None,
        },
{
    match json_get(response, "id") {
        Some(id) => match json_as_i64(id) {
            Some(k) => correlator.resolve(k),
            None => None,
        },
        None => None,
    }
}

/// Shows what the decoder handed over. A response is paired with the request
/// that it answers and shown as that request asks; a message that answers no
/// request of this client, because it has no identifier or none that was
/// issued, is shown as it is. No message at all is an error.
pub fn display_json_rpc_message(
    json_value: Option<&Value>,
    correlator: &Correlator,
    echo_commands: bool,
    echo_responses: bool,
    out: &mut Vec<String>,
) -> (r: Result<(), String>)
    ensures
        shows(
            old(out)@,
            final(out)@,
            r,
            shown_response(
                match json_value {
                    Some(v) => Some(json_view(*v)),
                    None => None,
                },
                correlator@,
                echo_commands,
                echo_responses,
            ),
        ),
{
    let value = match json_value {
        None => {
            return Err("No JSON message received".to_owned());
        },
        Some(value) => value,
    };
    match originating_request(correlator, value) {
        Some(command) => display_message(command, value, echo_commands, echo_responses, out),
        None => match json_to_string_pretty(value) {
            Ok(text) => {
                let mut line = "\x1b[32m".to_owned();
                line.append(text.as_str());
                line.append("\x1b[0m");
                out.push(line);
                assert(lines_of(out@) =~= lines_of(old(out)@) + seq![line@]);
                Ok(())
            },
            Err(_) => Err("Failed to format JSON".to_owned()),
        },
    }
}

/// Whether a response bears the identifier of a request that was issued.
pub open spec fn bears_issued_id(response: Json, c: Outstanding) -> bool {
    match json_member(response, "id"@) {
        Some(id) => match json_i64(id) {
            Some(k) => 1 <= k <= c.last_id,
            None => false,
        },
        None => false,
    }
}

/// A response that bears no identifier, or none that was issued, answers no
/// request: it is shown as it is, whatever the table holds.
pub proof fn lemma_unmatched_response(
    response: Json,
    c: Outstanding,
    echo_commands: bool,
    echo_responses: bool,
)
    requires
        c.wf(),
        !bears_issued_id(response, c),
    ensures
        originating(response, c) is None,
        shown_response(Some(response), c, echo_commands, echo_responses) == shown_unmatched(
            response,
        ),
{
}

/// A response that bears the identifier under which a request is kept is
/// shown as the method of that request asks, with that request beside it.
pub proof fn lemma_matched_response(
    response: Json,
    c: Outstanding,
    k: i64,
    echo_commands: bool,
    echo_responses: bool,
)
    requires
        json_member(response, "id"@) == Some(Json::Number(crate::json::JsonNumber::Int(k as int))),
        c.table.contains_key(k as int),
    ensures
        originating(response, c) == Some(c.table[k as int]),
        shown_response(Some(response), c, echo_commands, echo_responses) == shown_message(
            c.table[k as int],
            response,
            echo_commands,
            echo_responses,
        ),
{
}

} // verus!
