//! The interactive loop: what each line of the operator's console leads to.
//!
//! The loop waits for a command, dispatches it, and waits again, until it is
//! closed. Reading the console and writing to the server happen outside this
//! library: each step takes what happened and returns what to do next.

use vstd::prelude::*;
use vstd::string::StringExecFns;
use crate::codec::encoding;
use crate::correlator::{Correlator, Outstanding, Position, Query};
use crate::request::{did_close_envelope, did_close_request, did_open_envelope, did_open_request,
    exit_envelope, exit_request, initialize_envelope};
use crate::text::{is_white_space, lemma_trimmed_white_space, same_text, trim, trimmed};

verus! {

/// A command of the operator, as a value of specifications.
pub enum CommandView {
    Help,
    Definition,
    References,
    Symbols,
    Quit,
    Unknown(Seq<char>),
}

/// A command of the operator.
#[derive(Debug, PartialEq)]
pub enum Command {
    /// `help`: show the commands.
    Help,
    /// `def`: ask where a symbol is defined.
    Definition,
    /// `ref`: ask where a symbol is used.
    References,
    /// `sym`: ask for the symbols of the document.
    Symbols,
    /// `quit`, or nothing at all, which also stands for the end of the input:
    /// close the session.
    Quit,
    /// Any other word; it is carried as it was given.
    Unknown(String),
}

impl View for Command {
    type V = CommandView;

    open spec fn view(&self) -> CommandView {
        match self {
            Command::Help => CommandView::Help,
            Command::Definition => CommandView::Definition,
            Command::References => CommandView::References,
            Command::Symbols => CommandView::Symbols,
            Command::Quit => CommandView::Quit,
            Command::Unknown(word) => CommandView::Unknown(word@),
        }
    }
}

/// The command that a word stands for.
pub open spec fn command_of_word(word: Seq<char>) -> CommandView {
    if word == "help"@ {
        CommandView::Help
    } else if word == "def"@ {
        CommandView::Definition
    } else if word == "ref"@ {
        CommandView::References
    } else if word == "sym"@ {
        CommandView::Symbols
    } else if word == "quit"@ || word.len() == 0 {
        CommandView::Quit
    } else {
        CommandView::Unknown(word)
    }
}

/// The command that a line of the console holds: the line without the white
/// space around it is the command word.
pub open spec fn command_of(line: Seq<char>) -> CommandView {
    command_of_word(trimmed(line))
}

/// Reads a command word.
pub fn command_word(word: &str) -> (command: Command)
    ensures
        command@ == command_of_word(word@),
{
    if same_text(word, "help") {
        Command::Help
    } else if same_text(word, "def") {
        Command::Definition
    } else if same_text(word, "ref") {
        Command::References
    } else if same_text(word, "sym") {
        Command::Symbols
    } else if same_text(word, "quit") || word.is_empty() {
        Command::Quit
    } else {
        Command::Unknown(word.to_owned())
    }
}

/// Reads the command that a line of the console holds.
pub fn parse_command(line: &str) -> (command: Command)
    ensures
        command@ == command_of(line@),
{
    command_word(trim(line))
}

/// What is to be done after a step of the loop, as a value of specifications.
pub enum ActionView {
    Nothing,
    ShowHelp,
    Send(Seq<u8>),
    Close { did_close: Seq<u8>, exit: Seq<u8> },
    ReportUnknown(Seq<char>),
    ReportOutOfIdentifiers,
    ReportWriteFailure,
}

/// What is to be done after a step of the loop.
#[derive(Debug, PartialEq)]
pub enum Action {
    /// Nothing.
    Nothing,
    /// Show the operator the commands; nothing goes to the server.
    ShowHelp,
    /// Write this frame, a request that is now in the table, to the server.
    Send(Vec<u8>),
    /// Write these two frames to the server, `did_close` first, and end the
    /// loop.
    Close { did_close: Vec<u8>, exit: Vec<u8> },
    /// Tell the operator that this command word is not known.
    ReportUnknown(String),
    /// Tell the operator that no request can be issued any more: the
    /// identifiers have run out.
    ReportOutOfIdentifiers,
    /// Tell the operator that writing to the server failed, and end the loop.
    ReportWriteFailure,
}

impl View for Action {
    type V = ActionView;

    open spec fn view(&self) -> ActionView {
        match self {
            Action::Nothing => ActionView::Nothing,
            Action::ShowHelp => ActionView::ShowHelp,
            Action::Send(frame) => ActionView::Send(frame@),
            Action::Close { did_close, exit } => ActionView::Close {
                did_close: did_close@,
                exit: exit@,
            },
            Action::ReportUnknown(word) => ActionView::ReportUnknown(word@),
            Action::ReportOutOfIdentifiers => ActionView::ReportOutOfIdentifiers,
            Action::ReportWriteFailure => ActionView::ReportWriteFailure,
        }
    }
}

/// The frames that close the session for the document `uri`.
pub open spec fn closing(uri: Seq<char>) -> ActionView {
    ActionView::Close {
        did_close: encoding(did_close_envelope(uri)),
        exit: encoding(exit_envelope()),
    }
}

/// What issuing a request leads to: the request is kept in the table and its
/// frame is to be sent, or, once the identifiers have run out, the table
/// stays as it is and the operator is told.
pub open spec fn issue_outcome(c: Outstanding, query: Query, uri: Seq<char>) -> (
    Outstanding,
    ActionView,
) {
    match c.issue(query, uri) {
        Some((id, next)) => (next, ActionView::Send(encoding(next.table[id]))),
        None => (c, ActionView::ReportOutOfIdentifiers),
    }
}

/// What a command leads to: the table afterwards, and what is to be done.
/// Requests about a position ask about `at`.
pub open spec fn dispatch_outcome(c: Outstanding, command: CommandView, uri: Seq<char>, at: Position) -> (
    Outstanding,
    ActionView,
) {
    match command {
        CommandView::Help => (c, ActionView::ShowHelp),
        CommandView::Definition => issue_outcome(c, Query::Definition(at), uri),
        CommandView::References => issue_outcome(c, Query::References(at), uri),
        CommandView::Symbols => issue_outcome(c, Query::DocumentSymbol, uri),
        CommandView::Quit => (c, closing(uri)),
        CommandView::Unknown(word) => (c, ActionView::ReportUnknown(word)),
    }
}

/// What a line of the console leads to.
pub open spec fn command_outcome(c: Outstanding, line: Seq<char>, uri: Seq<char>, at: Position) -> (
    Outstanding,
    ActionView,
) {
    dispatch_outcome(c, command_of(line), uri, at)
}

/// Issues a request and says what to do with it.
fn issue_action(correlator: &mut Correlator, query: Query, file_uri: &str) -> (action: Action)
    ensures
        (final(correlator)@, action@) == issue_outcome(old(correlator)@, query, file_uri@),
{
    match correlator.issue(query, file_uri) {
        Some((_, frame)) => Action::Send(frame),
        None => Action::ReportOutOfIdentifiers,
    }
}

/// Carries out a command. `help` shows the commands. `def`, `ref` and `sym`
/// issue the request under a fresh identifier, keep it in the table and hand
/// back its frame. `quit` closes the session with two notifications. An
/// unknown word is reported and changes nothing.
pub fn dispatch(correlator: &mut Correlator, command: Command, file_uri: &str, at: Position) -> (action:
    Action)
    ensures
        (final(correlator)@, action@) == dispatch_outcome(
            old(correlator)@,
            command@,
            file_uri@,
            at,
        ),
{
    match command {
        Command::Help => Action::ShowHelp,
        Command::Definition => issue_action(correlator, Query::Definition(at), file_uri),
        Command::References => issue_action(correlator, Query::References(at), file_uri),
        Command::Symbols => issue_action(correlator, Query::DocumentSymbol, file_uri),
        Command::Quit => Action::Close {
            did_close: did_close_request(file_uri),
            exit: exit_request(),
        },
        Command::Unknown(word) => Action::ReportUnknown(word),
    }
}

/// Handles one line of the console: reads the command on it and carries it
/// out. A line with nothing on it closes the session, as `quit` does.
pub fn handle_command(correlator: &mut Correlator, line: &str, file_uri: &str, at: Position) -> (action:
    Action)
    ensures
        (final(correlator)@, action@) == command_outcome(old(correlator)@, line@, file_uri@, at),
{
    dispatch(correlator, parse_command(line), file_uri, at)
}

/// Where the loop stands.
#[derive(Clone, Copy, Debug, PartialEq, Eq)]
pub enum LoopState {
    /// Waiting for a line of the console.
    AwaitingCommand,
    /// A request was handed out to be written to the server.
    Dispatching,
    /// The loop has ended.
    Closed,
}

/// What happened outside since the last step, as a value of specifications.
pub enum EventView {
    Line(Seq<char>),
    Written,
    WriteFailed,
}

/// What happened outside since the last step.
#[derive(Clone, Copy, Debug)]
pub enum Event<'a> {
    /// A line was read from the console; an empty one stands for its end.
    Line(&'a str),
    /// The frame handed out was written to the server.
    Written,
    /// Writing the frame handed out failed.
    WriteFailed,
}

impl<'a> View for Event<'a> {
    type V = EventView;

    open spec fn view(&self) -> EventView {
        match self {
            Event::Line(line) => EventView::Line(line@),
            Event::Written => EventView::Written,
            Event::WriteFailed => EventView::WriteFailed,
        }
    }
}

/// The state that follows a line of the console, given what is to be done
/// about it.
pub open spec fn state_after(action: ActionView) -> LoopState {
    match action {
        ActionView::Send(_) => LoopState::Dispatching,
        ActionView::Close { .. } => LoopState::Closed,
        _ => LoopState::AwaitingCommand,
    }
}

/// One step of the loop. While it waits for a command, a line is handled as
/// a command. While a request is being dispatched, the loop goes back to
/// waiting once the frame is written, and ends if writing failed. What does
/// not fit the state changes nothing, and a closed loop stays closed.
pub open spec fn step_spec(
    state: LoopState,
    event: EventView,
    c: Outstanding,
    uri: Seq<char>,
    at: Position,
) -> (LoopState, Outstanding, ActionView) {
    match (state, event) {
        (LoopState::AwaitingCommand, EventView::Line(line)) => {
            let (next, action) = command_outcome(c, line, uri, at);
            (state_after(action), next, action)
        },
        (LoopState::Dispatching, EventView::Written) => (
            LoopState::AwaitingCommand,
            c,
            ActionView::Nothing,
        ),
        (LoopState::Dispatching, EventView::WriteFailed) => (
            LoopState::Closed,
            c,
            ActionView::ReportWriteFailure,
        ),
        _ => (state, c, ActionView::Nothing),
    }
}

/// Takes one step of the loop: from the state and what happened to the next
/// state and what to do.
pub fn step(
    state: LoopState,
    event: Event<'_>,
    correlator: &mut Correlator,
    file_uri: &str,
    at: Position,
) -> (r: (LoopState, Action))
    ensures
        (r.0, final(correlator)@, r.1@) == step_spec(
            state,
            event@,
            old(correlator)@,
            file_uri@,
            at,
        ),
{
    match (state, event) {
        (LoopState::AwaitingCommand, Event::Line(line)) => {
            let action = handle_command(correlator, line, file_uri, at);
            let next = match &action {
                Action::Send(_) => LoopState::Dispatching,
                Action::Close { .. } => LoopState::Closed,
                _ => LoopState::AwaitingCommand,
            };
            (next, action)
        },
        (LoopState::Dispatching, Event::Written) => (LoopState::AwaitingCommand, Action::Nothing),
        (LoopState::Dispatching, Event::WriteFailed) => (
            LoopState::Closed,
            Action::ReportWriteFailure,
        ),
        _ => (state, Action::Nothing),
    }
}

/// A line with nothing on it but white space, and so the empty line that
/// stands for the end of the input, closes the session: the two closing
/// notifications are to be sent, the loop ends, and the table stays as it is.
pub proof fn lemma_blank_line_closes(c: Outstanding, line: Seq<char>, uri: Seq<char>, at: Position)
    requires
        forall|i: int| 0 <= i < line.len() ==> is_white_space(line[i]),
    ensures
        step_spec(LoopState::AwaitingCommand, EventView::Line(line), c, uri, at) == (
            LoopState::Closed,
            c,
            closing(uri),
        ),
{
    lemma_trimmed_white_space(line);
    reveal_strlit("help");
    reveal_strlit("def");
    reveal_strlit("ref");
    reveal_strlit("sym");
}

/// What a session opens with: the table, with the `initialize` request in it,
/// and the two frames to send before the first command.
pub struct Opening {
    pub correlator: Correlator,
    pub initialize: Vec<u8>,
    pub did_open: Vec<u8>,
}

/// Opens a session for the document `file_uri` with the text `source`: the
/// `initialize` request, which gets the identifier 1, and the notification
/// that the document was opened.
pub fn open_session(file_uri: &str, source: &str) -> (opening: Opening)
    ensures
        Outstanding::initial().issue(Query::Initialize, file_uri@) == Some(
            (1int, opening.correlator@),
        ),
        opening.correlator@.wf(),
        opening.initialize@ == encoding(initialize_envelope(1)),
        opening.did_open@ == encoding(did_open_envelope(file_uri@, source@)),
{
    let mut correlator = Correlator::new();
    match correlator.issue(Query::Initialize, file_uri) {
        Some((_, initialize)) => Opening {
            correlator,
            initialize,
            did_open: did_open_request(file_uri, source),
        },
        None => vstd::pervasive::unreached(),
    }
}

/// The line that shows the commands.
pub fn help_line() -> (line: String)
    ensures
        line@ == "Available commands: help, def, ref, sym, quit"@,
{
    "Available commands: help, def, ref, sym, quit".to_owned()
}

/// The line that reports an unknown command word.
pub fn unknown_command_line(word: &str) -> (line: String)
    ensures
        line@ == "Unknown command: "@ + word@,
{
    let mut line = "Unknown command: ".to_owned();
    line.append(word);
    line
}

/// The name of the document to work on: the name given, or `main.c` where
/// none was given.
pub fn filename_or_default(name: &str) -> (chosen: String)
    ensures
        chosen@ == if name@.len() == 0 {
            "main.c"@
        } else {
            name@
        },
{
    if name.is_empty() {
        "main.c".to_owned()
    } else {
        name.to_owned()
    }
}

/// The name of the document that the operator's answer names: the answer
/// without the white space around it, or `main.c` where nothing is left.
pub fn chosen_filename(answer: &str) -> (chosen: String)
    ensures
        chosen@ == if trimmed(answer@).len() == 0 {
            "main.c"@
        } else {
            trimmed(answer@)
        },
{
    filename_or_default(trim(answer))
}

} // verus!
