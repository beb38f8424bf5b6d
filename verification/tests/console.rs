use lsp_client::codec::{decode, Decoded};
use lsp_client::console::{
    chosen_filename, command_word, dispatch, filename_or_default, handle_command, help_line,
    open_session, parse_command, step, unknown_command_line, Action, Command, Event, LoopState,
};
use lsp_client::correlator::{Correlator, Position, Query};
use lsp_client::display::originating_request;
use lsp_client::request::{
    definition_message, definition_request, did_close_request, did_open_request,
    document_symbol_request, exit_request, initialize_message, initialize_request,
    reference_request,
};
use serde_json::Value;

const URI: &str = "file:///tmp/main.c";
const AT: Position = Position { line: 9, character: 4 };

fn value(text: &str) -> Value {
    serde_json::from_str(text).unwrap()
}

#[test]
fn command_words() {
    assert_eq!(command_word("help"), Command::Help);
    assert_eq!(command_word("def"), Command::Definition);
    assert_eq!(command_word("ref"), Command::References);
    assert_eq!(command_word("sym"), Command::Symbols);
    assert_eq!(command_word("quit"), Command::Quit);
    assert_eq!(command_word(""), Command::Quit);
}

#[test]
fn unknown_words_are_carried() {
    assert_eq!(command_word("Help"), Command::Unknown("Help".to_string()));
    assert_eq!(command_word("de"), Command::Unknown("de".to_string()));
    assert_eq!(command_word("def 1 2"), Command::Unknown("def 1 2".to_string()));
    assert_eq!(command_word(" def"), Command::Unknown(" def".to_string()));
    assert_eq!(command_word("d\u{e9}f"), Command::Unknown("d\u{e9}f".to_string()));
}

#[test]
fn white_space_around_a_command_does_not_count() {
    assert_eq!(parse_command("def\n"), Command::Definition);
    assert_eq!(parse_command("  sym \r\n"), Command::Symbols);
    assert_eq!(parse_command("\tquit\u{a0}"), Command::Quit);
    assert_eq!(parse_command("\n"), Command::Quit);
    assert_eq!(parse_command(""), Command::Quit);
    assert_eq!(parse_command(" what now \n"), Command::Unknown("what now".to_string()));
}

#[test]
fn help_shows_the_commands_and_sends_nothing() {
    let mut table = Correlator::new();
    assert_eq!(handle_command(&mut table, "help\n", URI, AT), Action::ShowHelp);
    assert_eq!(table.len(), 0);
    assert_eq!(table.last_id(), 0);
    assert_eq!(help_line(), "Available commands: help, def, ref, sym, quit");
}

#[test]
fn def_issues_a_definition_request() {
    let mut table = Correlator::new();
    let action = handle_command(&mut table, "def\n", URI, AT);
    assert_eq!(action, Action::Send(definition_request(1, URI, 9, 4)));
    assert_eq!(table.resolve(1), Some(&definition_message(1, URI, 9, 4)));
}

#[test]
fn ref_issues_a_references_request() {
    let mut table = Correlator::new();
    let action = handle_command(&mut table, "ref\n", URI, Position { line: 0, character: 7 });
    assert_eq!(action, Action::Send(reference_request(1, URI, 0, 7)));
    assert_eq!(table.len(), 1);
}

#[test]
fn sym_issues_a_document_symbol_request() {
    let mut table = Correlator::new();
    table.issue(Query::Initialize, URI).unwrap();
    let action = handle_command(&mut table, "sym\n", URI, AT);
    assert_eq!(action, Action::Send(document_symbol_request(2, URI)));
    assert_eq!(table.last_id(), 2);
}

#[test]
fn quit_closes_with_two_notifications() {
    let mut table = Correlator::new();
    let action = handle_command(&mut table, "quit\n", URI, AT);
    assert_eq!(
        action,
        Action::Close { did_close: did_close_request(URI), exit: exit_request() }
    );
    assert_eq!(table.len(), 0);
    assert_eq!(table.last_id(), 0);
}

#[test]
fn unknown_command_is_reported_and_changes_nothing() {
    let mut table = Correlator::new();
    let action = handle_command(&mut table, "  frobnicate \n", URI, AT);
    assert_eq!(action, Action::ReportUnknown("frobnicate".to_string()));
    assert_eq!(table.len(), 0);
    assert_eq!(unknown_command_line("frobnicate"), "Unknown command: frobnicate");
}

#[test]
fn dispatch_of_each_command() {
    let mut table = Correlator::new();
    assert_eq!(dispatch(&mut table, Command::Help, URI, AT), Action::ShowHelp);
    assert_eq!(
        dispatch(&mut table, Command::Definition, URI, AT),
        Action::Send(definition_request(1, URI, 9, 4))
    );
    assert_eq!(
        dispatch(&mut table, Command::References, URI, AT),
        Action::Send(reference_request(2, URI, 9, 4))
    );
    assert_eq!(
        dispatch(&mut table, Command::Symbols, URI, AT),
        Action::Send(document_symbol_request(3, URI))
    );
    assert_eq!(
        dispatch(&mut table, Command::Unknown("x".to_string()), URI, AT),
        Action::ReportUnknown("x".to_string())
    );
    assert_eq!(
        dispatch(&mut table, Command::Quit, URI, AT),
        Action::Close { did_close: did_close_request(URI), exit: exit_request() }
    );
    assert_eq!(table.len(), 3);
}

#[test]
fn session_opens_with_initialize_and_did_open() {
    let opening = open_session(URI, "int main() {}\n");
    assert_eq!(opening.initialize, initialize_request(1));
    assert_eq!(opening.did_open, did_open_request(URI, "int main() {}\n"));
    assert_eq!(opening.correlator.last_id(), 1);
    assert_eq!(opening.correlator.len(), 1);
    assert_eq!(opening.correlator.resolve(1), Some(&initialize_message(1)));
}

#[test]
fn loop_waits_dispatches_and_waits_again() {
    let mut table = open_session(URI, "").correlator;
    let (state, action) = step(LoopState::AwaitingCommand, Event::Line("def\n"), &mut table, URI, AT);
    assert_eq!(state, LoopState::Dispatching);
    assert_eq!(action, Action::Send(definition_request(2, URI, 9, 4)));
    let (state, action) = step(state, Event::Written, &mut table, URI, AT);
    assert_eq!(state, LoopState::AwaitingCommand);
    assert_eq!(action, Action::Nothing);
    let (state, action) = step(state, Event::Line("help\n"), &mut table, URI, AT);
    assert_eq!(state, LoopState::AwaitingCommand);
    assert_eq!(action, Action::ShowHelp);
    let (state, action) = step(state, Event::Line("nope\n"), &mut table, URI, AT);
    assert_eq!(state, LoopState::AwaitingCommand);
    assert_eq!(action, Action::ReportUnknown("nope".to_string()));
    let (state, action) = step(state, Event::Line("quit\n"), &mut table, URI, AT);
    assert_eq!(state, LoopState::Closed);
    assert!(matches!(action, Action::Close { .. }));
}

#[test]
fn failed_write_ends_the_loop() {
    let mut table = Correlator::new();
    let (state, _) = step(LoopState::AwaitingCommand, Event::Line("sym"), &mut table, URI, AT);
    assert_eq!(state, LoopState::Dispatching);
    let (state, action) = step(state, Event::WriteFailed, &mut table, URI, AT);
    assert_eq!(state, LoopState::Closed);
    assert_eq!(action, Action::ReportWriteFailure);
    assert_eq!(table.len(), 1);
}

#[test]
fn closed_loop_stays_closed() {
    let mut table = Correlator::new();
    for event in [Event::Line("def"), Event::Written, Event::WriteFailed, Event::Line("")] {
        let (state, action) = step(LoopState::Closed, event, &mut table, URI, AT);
        assert_eq!(state, LoopState::Closed);
        assert_eq!(action, Action::Nothing);
    }
    assert_eq!(table.len(), 0);
}

#[test]
fn what_does_not_fit_the_state_changes_nothing() {
    let mut table = Correlator::new();
    let (state, action) = step(LoopState::AwaitingCommand, Event::Written, &mut table, URI, AT);
    assert_eq!((state, action), (LoopState::AwaitingCommand, Action::Nothing));
    let (state, action) = step(LoopState::AwaitingCommand, Event::WriteFailed, &mut table, URI, AT);
    assert_eq!((state, action), (LoopState::AwaitingCommand, Action::Nothing));
    let (state, action) = step(LoopState::Dispatching, Event::Line("def"), &mut table, URI, AT);
    assert_eq!((state, action), (LoopState::Dispatching, Action::Nothing));
    assert_eq!(table.len(), 0);
}

#[test]
fn two_definitions_in_a_row_are_paired_with_their_responses_in_any_order() {
    let mut table = open_session(URI, "").correlator;
    let first = handle_command(&mut table, "def\n", URI, Position { line: 1, character: 1 });
    let second = handle_command(&mut table, "def\n", URI, Position { line: 2, character: 2 });
    let (first_id, second_id) = match (&first, &second) {
        (Action::Send(a), Action::Send(b)) => {
            let id = |frame: &Vec<u8>| match decode(frame, 0).0 {
                Ok(Decoded::Message(v)) => v["id"].as_i64().unwrap(),
                other => panic!("unexpected: {:?}", other),
            };
            (id(a), id(b))
        }
        other => panic!("unexpected: {:?}", other),
    };
    assert_eq!((first_id, second_id), (2, 3));
    assert_ne!(first_id, second_id);
    let late = value("{\"jsonrpc\":\"2.0\",\"id\":3,\"result\":[]}");
    let early = value("{\"jsonrpc\":\"2.0\",\"id\":2,\"result\":[]}");
    assert_eq!(originating_request(&table, &late), Some(&definition_message(3, URI, 2, 2)));
    assert_eq!(originating_request(&table, &early), Some(&definition_message(2, URI, 1, 1)));
    assert_eq!(originating_request(&table, &late), Some(&definition_message(3, URI, 2, 2)));
}

#[test]
fn empty_line_at_startup_closes_the_session() {
    let opening = open_session(URI, "int x;\n");
    let mut table = opening.correlator;
    let (state, action) = step(LoopState::AwaitingCommand, Event::Line(""), &mut table, URI, AT);
    assert_eq!(state, LoopState::Closed);
    assert_eq!(
        action,
        Action::Close { did_close: did_close_request(URI), exit: exit_request() }
    );
    assert_eq!(table.len(), 1);
    assert_eq!(table.last_id(), 1);
    let (state, action) = step(LoopState::AwaitingCommand, Event::Line("\n"), &mut table, URI, AT);
    assert_eq!(state, LoopState::Closed);
    assert!(matches!(action, Action::Close { .. }));
}

#[test]
fn filename_given_or_the_default() {
    assert_eq!(filename_or_default(""), "main.c");
    assert_eq!(filename_or_default("a.c"), "a.c");
    assert_eq!(chosen_filename("\n"), "main.c");
    assert_eq!(chosen_filename(""), "main.c");
    assert_eq!(chosen_filename("  src/lib.c \n"), "src/lib.c");
}
