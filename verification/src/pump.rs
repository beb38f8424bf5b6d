//! The two pumps that drain what the server writes: one relays the messages
//! it decodes from the server's output, the other the lines of the server's
//! diagnostics.
//!
//! Reading the streams happens outside this library. Each function here takes
//! what was read and appends what the operator is to see to a list of lines
//! for the output channel or for the diagnostic channel.

use vstd::prelude::*;
use vstd::string::StringExecFns;
use crate::codec::{decoded_view, Decoded, DecodedView};
use crate::correlator::{Correlator, Outstanding};
use crate::display::{display_json_rpc_message, lines_of, shown_response};
use crate::frame::{FramingError, FramingFault};
use crate::text::{from_utf8_lossy, trim_end, trimmed_end, utf8_text};

verus! {

/// Which of what passes between the client and the server the operator wants
/// to see.
#[derive(Clone, Copy, Debug, PartialEq, Eq)]
pub struct Echo {
    /// The diagnostics of the server.
    pub stderr: bool,
    /// The requests, beside what their responses show.
    pub commands: bool,
    /// The responses as they came, beside what they show.
    pub responses: bool,
}

/// The settings that the operator's switches come to: each switch counts, and
/// `debug` turns all three on.
pub fn echo_settings(echo_stderr: bool, echo_commands: bool, echo_responses: bool, debug: bool) -> (echo:
    Echo)
    ensures
        echo.stderr == (echo_stderr || debug),
        echo.commands == (echo_commands || debug),
        echo.responses == (echo_responses || debug),
{
    Echo {
        stderr: echo_stderr || debug,
        commands: echo_commands || debug,
        responses: echo_responses || debug,
    }
}

/// What relaying one thing that the decoder found comes to: the lines for the
/// output channel, the lines for the diagnostic channel, and whether the pump
/// goes on.
pub struct Relayed {
    pub output: Seq<Seq<char>>,
    pub diagnostics: Seq<Seq<char>>,
    pub go_on: bool,
}

/// The line with which a fault in the framing is reported.
pub open spec fn fault_line(fault: FramingFault) -> Seq<char> {
    match fault {
        FramingFault::UnexpectedLine(line) => "Unexpected line: \x1b[31m"@ + utf8_text(line)
            + "\x1b[0m"@,
        FramingFault::BadLength => "Failed to parse Content-Length"@,
        FramingFault::ShortRead => "Failed to read JSON message"@,
    }
}

/// What relaying comes to. A message is shown as the renderer shows it, and
/// an error of the renderer goes to the diagnostic channel. A body that is
/// not JSON is shown as it is, in yellow; an empty body and a fault in the
/// framing are reported. Only the end of the stream stops the pump.
pub open spec fn relayed(
    found: Result<DecodedView, FramingFault>,
    c: Outstanding,
    echo_commands: bool,
    echo_responses: bool,
) -> Relayed {
    match found {
        Ok(DecodedView::Message(j)) => {
            let shown = shown_response(Some(j), c, echo_commands, echo_responses);
            Relayed {
                output: shown.lines,
                diagnostics: match shown.error {
                    Some(e) => seq![e],
                    None => Seq::empty(),
                },
                go_on: true,
            }
        },
        Ok(DecodedView::Empty) => Relayed {
            output: Seq::empty(),
            diagnostics: seq!["Received empty JSON message"@],
            go_on: true,
        },
        Ok(DecodedView::Malformed(text)) => Relayed {
            output: seq!["\x1b[33m"@ + text + "\x1b[0m"@],
            diagnostics: Seq::empty(),
            go_on: true,
        },
        Ok(DecodedView::EndOfStream) => Relayed {
            output: Seq::empty(),
            diagnostics: seq!["No JSON message received"@],
            go_on: false,
        },
        Err(fault) => Relayed {
            output: Seq::empty(),
            diagnostics: seq![fault_line(fault)],
            go_on: true,
        },
    }
}

/// Makes the line with which a fault in the framing is reported.
pub fn fault_text(fault: &FramingError) -> (line: String)
    ensures
        line@ == fault_line(fault@),
{
    match fault {
        FramingError::UnexpectedLine(bytes) => {
            let mut line = "Unexpected line: \x1b[31m".to_owned();
            line.append(from_utf8_lossy(bytes.as_slice()).as_str());
            line.append("\x1b[0m");
            line
        },
        FramingError::BadLength => "Failed to parse Content-Length".to_owned(),
        FramingError::ShortRead => "Failed to read JSON message".to_owned(),
    }
}

/// Relays one thing that the decoder found: appends what the operator is to
/// see to `output` and `diagnostics`, and says whether the pump goes on.
pub fn relay_response(
    found: &Result<Decoded, FramingError>,
    correlator: &Correlator,
    echo_commands: bool,
    echo_responses: bool,
    output: &mut Vec<String>,
    diagnostics: &mut Vec<String>,
) -> (go_on: bool)
    ensures
        lines_of(final(output)@) == lines_of(old(output)@) + relayed(
            decoded_view(*found),
            correlator@,
            echo_commands,
            echo_responses,
        ).output,
        lines_of(final(diagnostics)@) == lines_of(old(diagnostics)@) + relayed(
            decoded_view(*found),
            correlator@,
            echo_commands,
            echo_responses,
        ).diagnostics,
        go_on == relayed(decoded_view(*found), correlator@, echo_commands, echo_responses).go_on,
{
    match found {
        Ok(Decoded::Message(value)) => {
            match display_json_rpc_message(
                Some(value),
                correlator,
                echo_commands,
                echo_responses,
                output,
            ) {
                Ok(()) => {},
                Err(e) => {
                    diagnostics.push(e);
                },
            }
            true
        },
        Ok(Decoded::Empty) => {
            diagnostics.push("Received empty JSON message".to_owned());
            true
        },
        Ok(Decoded::Malformed(text)) => {
            let mut line = "\x1b[33m".to_owned();
            line.append(text.as_str());
            line.append("\x1b[0m");
            output.push(line);
            true
        },
        Ok(Decoded::EndOfStream) => {
            diagnostics.push("No JSON message received".to_owned());
            false
        },
        Err(fault) => {
            diagnostics.push(fault_text(fault));
            true
        },
    }
}

/// The line that relays a text from the server's diagnostics: the text in
/// red, marked as coming from there.
pub fn diagnostic_line(text: &str) -> (line: String)
    ensures
        line@ == "\x1b[31mstderr: "@ + text@ + "\x1b[0m"@,
{
    let mut line = "\x1b[31mstderr: ".to_owned();
    line.append(text);
    line.append("\x1b[0m");
    line
}

/// Relays one line of the server's diagnostics, without its trailing white
/// space. Nothing of the line is interpreted.
pub fn stderr_line(line: &str) -> (relayed: String)
    ensures
        relayed@ == "\x1b[31mstderr: "@ + trimmed_end(line@) + "\x1b[0m"@,
{
    diagnostic_line(trim_end(line))
}

} // verus!
