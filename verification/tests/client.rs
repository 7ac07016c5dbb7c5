use reedline_lsp::lsp::protocol::{Envelope, Params, Received};
use reedline_lsp::lsp::session::{Offer, Reads};
use reedline_lsp::lsp::{
    create_diagnostic_fix_menu, IoOutcome, IoRequest, LspConfig, LspDiagnosticsProvider, LspWorker,
    Span,
};
use reedline_lsp::menu::{DiagnosticFixMenu, FixAction, NoHighlighter};
use reedline_lsp::text::LineBuffer;
use serde_json::Value;
use std::collections::VecDeque;
use std::time::{Duration, Instant};

fn config(command: &str, timeout_ms: u64) -> LspConfig {
    LspConfig {
        command: command.to_string(),
        timeout_ms,
        uri_scheme: "repl".to_string(),
    }
}

fn json(text: &str) -> Value {
    serde_json::from_str(text).unwrap()
}

/// The JSON value that parameters stand for.
fn value(params: &Params) -> Value {
    match params {
        Params::Absent => panic!("no parameters"),
        Params::Null => Value::Null,
        Params::EmptyObject => json("{}"),
        Params::Carried(value) => value.clone(),
    }
}

/// The message for an envelope, with what is to be read of it.
fn receive(envelope: Envelope, reads: Reads) -> Received {
    let diagnostics = match (reads, &envelope.params) {
        (Reads::Diagnostics, Params::Carried(params)) => {
            serde_json::from_value::<lsp_types::PublishDiagnosticsParams>(params.clone())
                .ok()
                .map(|params| params.diagnostics)
        }
        _ => None,
    };
    let offers = match (reads, &envelope.result) {
        (Reads::CodeActions, Some(result)) => {
            serde_json::from_value::<Vec<lsp_types::CodeActionOrCommand>>(result.clone())
                .ok()
                .map(|entries| {
                    entries
                        .into_iter()
                        .map(|entry| match entry {
                            lsp_types::CodeActionOrCommand::CodeAction(action) => {
                                Offer::Action(action)
                            }
                            lsp_types::CodeActionOrCommand::Command(command) => Offer::Command {
                                title: command.title,
                                command: command.command,
                                arguments: command.arguments,
                            },
                        })
                        .collect()
                })
        }
        _ => None,
    };
    Received { envelope, diagnostics, offers }
}

fn response(id: i32, result: Option<&str>) -> Envelope {
    Envelope {
        jsonrpc: "2.0".to_string(),
        id: Some(id),
        method: None,
        params: Params::Absent,
        result: result.map(json),
        error: None,
    }
}

fn publication(message: &str) -> Envelope {
    let params = format!(
        "{{\"uri\":\"repl:/session/repl\",\"diagnostics\":[{{\"range\":{{\"start\":{{\"line\":0,\"character\":4}},\"end\":{{\"line\":0,\"character\":5}}}},\"severity\":2,\"message\":\"{}\"}}]}}",
        message
    );
    Envelope {
        jsonrpc: "2.0".to_string(),
        id: None,
        method: Some("textDocument/publishDiagnostics".to_string()),
        params: Params::Carried(json(&params)),
        result: None,
        error: None,
    }
}

const ACTIONS: &str = "[{\"title\":\"Rename to _x\",\"edit\":{\"changes\":{\"repl:/session/repl\":[{\"range\":{\"start\":{\"line\":0,\"character\":4},\"end\":{\"line\":0,\"character\":5}},\"newText\":\"_x\"}]}}},{\"title\":\"Fix all\",\"command\":{\"title\":\"Fix all\",\"command\":\"lint.fixAll\",\"arguments\":[1,\"two\"]}}]";

/// A server that lives in the test: it takes what the worker writes and
/// keeps ready what the worker will read.
struct Server {
    starts: bool,
    answers: bool,
    spawned: Vec<(String, Vec<String>)>,
    written: Vec<Envelope>,
    incoming: VecDeque<Envelope>,
    slept: Vec<u64>,
    closed: usize,
    killed: usize,
}

impl Server {
    fn new() -> Server {
        Server {
            starts: true,
            answers: true,
            spawned: Vec::new(),
            written: Vec::new(),
            incoming: VecDeque::new(),
            slept: Vec::new(),
            closed: 0,
            killed: 0,
        }
    }

    fn take(&mut self, envelope: Envelope) {
        if self.answers {
            let method = envelope.method.clone().unwrap_or_default();
            match (method.as_str(), envelope.id) {
                ("initialize", Some(id)) => {
                    self.incoming.push_back(response(id, Some("{\"capabilities\":{}}")))
                }
                ("textDocument/didChange", None) => {
                    let text = value(&envelope.params)["contentChanges"][0]["text"]
                        .as_str()
                        .unwrap()
                        .to_string();
                    self.incoming.push_back(publication(&format!("about {}", text)));
                }
                ("textDocument/codeAction", Some(id)) => {
                    self.incoming.push_back(response(id, Some(ACTIONS)))
                }
                ("workspace/executeCommand", Some(id)) => {
                    self.incoming.push_back(response(id, Some("true")))
                }
                ("shutdown", Some(id)) => self.incoming.push_back(response(id, None)),
                _ => {}
            }
        }
        self.written.push(envelope);
    }

    fn methods(&self) -> Vec<String> {
        self.written.iter().map(|envelope| envelope.method.clone().unwrap_or_default()).collect()
    }
}

/// Runs the worker against the server until the worker has nothing to do or
/// has left its loop. Says whether it has left.
fn run(worker: &mut LspWorker, server: &mut Server) -> bool {
    let mut outcome = IoOutcome::Resume;
    let mut idle = 0;
    let started = Instant::now();
    loop {
        assert!(started.elapsed() < Duration::from_secs(10), "the worker does not come to rest");
        let request = worker.advance(outcome);
        outcome = match request {
            IoRequest::Continue => {
                idle += 1;
                if idle >= 2 {
                    return false;
                }
                IoOutcome::Resume
            }
            IoRequest::Failed => IoOutcome::Failed,
            IoRequest::Spawn { program, args } => {
                idle = 0;
                server.spawned.push((program, args));
                IoOutcome::Spawned(server.starts)
            }
            IoRequest::Write(envelope) => {
                idle = 0;
                server.take(envelope);
                IoOutcome::Written(true)
            }
            IoRequest::Read { wait_ms, reads } => {
                assert!(wait_ms <= 10);
                IoOutcome::Read(server.incoming.pop_front().map(|envelope| receive(envelope, reads)))
            }
            IoRequest::Close => {
                server.closed += 1;
                IoOutcome::Resume
            }
            IoRequest::Sleep { ms } => {
                server.slept.push(ms);
                IoOutcome::Resume
            }
            IoRequest::Kill => {
                server.killed += 1;
                IoOutcome::Resume
            }
            IoRequest::Exit => return true,
        };
    }
}

fn messages(provider: &mut LspDiagnosticsProvider) -> Vec<String> {
    provider.diagnostics().iter().map(|diagnostic| diagnostic.message.clone()).collect()
}

#[test]
fn the_first_push_starts_the_server_and_brings_diagnostics() {
    let (mut provider, mut worker) = LspDiagnosticsProvider::new(config("nu-lint --lsp", 200));
    worker.set_process_id(4711);
    let mut server = Server::new();
    assert!(messages(&mut provider).is_empty());
    provider.update_content("let x = 1");
    assert!(!run(&mut worker, &mut server));
    assert_eq!(server.spawned, vec![("nu-lint".to_string(), vec!["--lsp".to_string()])]);
    assert_eq!(
        server.methods(),
        vec!["initialize", "initialized", "textDocument/didOpen", "textDocument/didChange"]
    );
    let initialize = &server.written[0];
    assert_eq!(initialize.jsonrpc, "2.0");
    assert_eq!(initialize.id, Some(1));
    assert!(initialize.result.is_none() && initialize.error.is_none());
    let params = value(&initialize.params);
    assert_eq!(params["processId"], json("4711"));
    assert_eq!(params["clientInfo"]["name"], json("\"reedline\""));
    let open = value(&server.written[2].params);
    assert_eq!(open["textDocument"]["uri"], json("\"repl:/session/repl\""));
    assert_eq!(open["textDocument"]["languageId"], json("\"nushell\""));
    assert_eq!(open["textDocument"]["version"], json("0"));
    assert_eq!(open["textDocument"]["text"], json("\"\""));
    let change = &server.written[3];
    assert_eq!(change.id, None);
    let params = value(&change.params);
    assert_eq!(params["textDocument"]["version"], json("1"));
    assert_eq!(params["contentChanges"][0]["text"], json("\"let x = 1\""));
    assert_eq!(messages(&mut provider), vec!["about let x = 1"]);
}

#[test]
fn pushing_the_same_content_twice_forwards_one_command() {
    let (mut provider, mut worker) = LspDiagnosticsProvider::new(config("server", 200));
    let mut server = Server::new();
    provider.update_content("let x = 1");
    provider.update_content("let x = 1");
    assert!(!run(&mut worker, &mut server));
    assert_eq!(server.methods().iter().filter(|m| *m == "textDocument/didChange").count(), 1);
    provider.update_content("let x = 1");
    assert!(!run(&mut worker, &mut server));
    assert_eq!(server.methods().iter().filter(|m| *m == "textDocument/didChange").count(), 1);
    provider.update_content("let x = 2");
    assert!(!run(&mut worker, &mut server));
    assert_eq!(server.methods().iter().filter(|m| *m == "textDocument/didChange").count(), 2);
    // Content that comes back after another is forwarded again.
    provider.update_content("let x = 1");
    assert!(!run(&mut worker, &mut server));
    assert_eq!(server.methods().iter().filter(|m| *m == "textDocument/didChange").count(), 3);
}

#[test]
fn empty_content_clears_the_diagnostics_and_forwards_nothing() {
    let (mut provider, mut worker) = LspDiagnosticsProvider::new(config("server", 200));
    let mut server = Server::new();
    provider.update_content("let x = 1");
    run(&mut worker, &mut server);
    assert_eq!(messages(&mut provider).len(), 1);
    let written = server.written.len();
    assert!(provider.check_wake());
    provider.update_content("");
    assert!(messages(&mut provider).is_empty());
    assert!(!run(&mut worker, &mut server));
    assert_eq!(server.written.len(), written);
    assert!(!provider.check_wake());
    // What was forwarded last is still remembered.
    provider.update_content("let x = 1");
    assert!(!run(&mut worker, &mut server));
    assert_eq!(server.written.len(), written);
}

#[test]
fn two_deliveries_wake_once_and_the_later_one_counts() {
    let (mut provider, mut worker) = LspDiagnosticsProvider::new(config("server", 200));
    let mut server = Server::new();
    assert!(!provider.check_wake());
    provider.update_content("one");
    run(&mut worker, &mut server);
    provider.update_content("two");
    run(&mut worker, &mut server);
    assert!(provider.check_wake());
    assert!(!provider.check_wake());
    assert_eq!(messages(&mut provider), vec!["about two"]);
}

#[test]
fn a_server_that_does_not_start_is_tried_again_with_the_next_push() {
    let (mut provider, mut worker) = LspDiagnosticsProvider::new(config("missing-server", 200));
    let mut server = Server::new();
    server.starts = false;
    provider.update_content("one");
    assert!(!run(&mut worker, &mut server));
    assert_eq!(server.spawned.len(), 1);
    assert!(server.written.is_empty());
    assert!(messages(&mut provider).is_empty());
    assert!(!provider.check_wake());
    server.starts = true;
    provider.update_content("two");
    assert!(!run(&mut worker, &mut server));
    assert_eq!(server.spawned.len(), 2);
    assert_eq!(messages(&mut provider), vec!["about two"]);
}

#[test]
fn an_empty_command_line_starts_nothing() {
    let (mut provider, mut worker) = LspDiagnosticsProvider::new(config("  \t ", 200));
    let mut server = Server::new();
    provider.update_content("one");
    assert!(!run(&mut worker, &mut server));
    assert!(server.spawned.is_empty());
    assert!(server.written.is_empty());
}

#[test]
fn a_handshake_without_answer_is_given_up_and_the_server_let_go() {
    let (mut provider, mut worker) = LspDiagnosticsProvider::new(config("server", 10));
    let mut server = Server::new();
    server.answers = false;
    provider.update_content("one");
    let started = Instant::now();
    assert!(!run(&mut worker, &mut server));
    assert!(started.elapsed() >= Duration::from_millis(50));
    assert_eq!(server.methods(), vec!["initialize"]);
    assert_eq!(server.closed, 1);
    assert_eq!(server.killed, 0);
    assert!(messages(&mut provider).is_empty());
}

#[test]
fn a_scheme_that_makes_no_uri_fails_the_handshake_at_the_document() {
    let mut bad = config("server", 200);
    bad.uri_scheme = "not a scheme".to_string();
    let (mut provider, mut worker) = LspDiagnosticsProvider::new(bad);
    let mut server = Server::new();
    provider.update_content("one");
    assert!(!run(&mut worker, &mut server));
    assert_eq!(server.methods(), vec!["initialize", "initialized"]);
    assert_eq!(server.closed, 1);
    assert!(messages(&mut provider).is_empty());
}

#[test]
fn code_actions_without_a_worker_are_empty_within_the_bound() {
    let (mut provider, _worker) = LspDiagnosticsProvider::new(config("server", 200));
    let started = Instant::now();
    let actions = provider.code_actions("let x = 1", Span::new(4, 5));
    let waited = started.elapsed();
    assert!(actions.is_empty());
    assert!(waited >= Duration::from_millis(100));
    assert!(waited < Duration::from_millis(2000));
}

#[test]
fn a_command_without_a_worker_fails_within_the_bound() {
    let (mut provider, _worker) = LspDiagnosticsProvider::new(config("server", 200));
    let started = Instant::now();
    assert!(!provider.execute_command("lint.fixAll", Vec::new()));
    let waited = started.elapsed();
    assert!(waited >= Duration::from_millis(500));
    assert!(waited < Duration::from_millis(3000));
}

#[test]
fn requests_without_a_connection_are_answered_at_once() {
    let (mut provider, mut worker) = LspDiagnosticsProvider::new(config("server", 200));
    let mut server = Server::new();
    let sender = provider.command_sender();
    sender.execute_command("lint.fixAll".to_string(), Vec::new());
    assert!(!run(&mut worker, &mut server));
    assert!(server.spawned.is_empty());
    assert!(server.written.is_empty());
    // The answer is there before the wait begins.
    assert!(!provider.execute_command("again", Vec::new()));
    assert!(provider.check_wake());
}

#[test]
fn a_command_is_executed_on_a_connection() {
    let (mut provider, mut worker) = LspDiagnosticsProvider::new(config("server", 200));
    let mut server = Server::new();
    provider.update_content("one");
    run(&mut worker, &mut server);
    let sender = provider.command_sender();
    sender.clone().execute_command("lint.fixAll".to_string(), vec![json("[1,2]")]);
    assert!(!run(&mut worker, &mut server));
    let request = server.written.last().unwrap();
    assert_eq!(request.method.as_deref(), Some("workspace/executeCommand"));
    assert_eq!(request.id, Some(2));
    let params = value(&request.params);
    assert_eq!(params["command"], json("\"lint.fixAll\""));
    assert_eq!(params["arguments"], json("[[1,2]]"));
    assert!(provider.execute_command("other", Vec::new()));
    // The diagnostics that came before the answer were taken in on the way.
    assert_eq!(messages(&mut provider), vec!["about one"]);
}

#[test]
fn code_actions_are_asked_for_the_span() {
    let (mut provider, mut worker) = LspDiagnosticsProvider::new(config("server", 200));
    let mut server = Server::new();
    provider.update_content("let x = 1");
    run(&mut worker, &mut server);
    // Nobody serves the request while it is awaited, so it times out; it is
    // served afterwards.
    assert!(provider.code_actions("let x = 1", Span::new(4, 5)).is_empty());
    assert!(!run(&mut worker, &mut server));
    let request = server.written.last().unwrap();
    assert_eq!(request.method.as_deref(), Some("textDocument/codeAction"));
    assert_eq!(request.id, Some(2));
    let params = value(&request.params);
    assert_eq!(params["textDocument"]["uri"], json("\"repl:/session/repl\""));
    assert_eq!(
        params["range"],
        json("{\"start\":{\"line\":0,\"character\":4},\"end\":{\"line\":0,\"character\":5}}")
    );
    // The answer that came too late is what the next wait hears first.
    let actions = provider.code_actions("let x = 1", Span::new(4, 5));
    assert_eq!(actions.len(), 2);
    assert_eq!(actions[0].title, "Rename to _x");
    assert_eq!(actions[1].title, "Fix all");
    assert!(actions[1].command.is_some());
}

#[test]
fn the_fix_menu_is_made_from_the_code_actions_at_the_cursor() {
    let (mut provider, mut worker) = LspDiagnosticsProvider::new(config("server", 200));
    let mut server = Server::new();
    provider.update_content("let x = 1");
    run(&mut worker, &mut server);
    let menu = crossbeam::scope(|scope| {
        let serving = scope.spawn(|_| {
            let started = Instant::now();
            while started.elapsed() < Duration::from_millis(400) {
                run(&mut worker, &mut server);
            }
        });
        let menu = create_diagnostic_fix_menu(&mut provider, 4, "let x = 1");
        serving.join().unwrap();
        menu
    })
    .unwrap()
    .unwrap();
    assert!(menu.is_active());
    assert!(menu.has_fixes());
    assert_eq!(menu.selected_index(), 0);
    let fix = menu.get_selected_fix().unwrap();
    assert_eq!(fix.title, "Rename to _x");
    match &fix.action {
        FixAction::TextEdits(edits) => {
            assert_eq!(edits.len(), 1);
            assert_eq!(edits[0].span, Span::new(4, 5));
            assert_eq!(edits[0].replacement, "_x");
            assert_eq!(edits[0].original, "x");
        }
        other => panic!("unexpected action {:?}", other),
    }
    let text = menu.menu_string_with_highlighter(10, false, Some(&NoHighlighter));
    assert_eq!(text, "> _x (Rename to _x)\u{1b}[0m\r\n  Fix all\u{1b}[0m");
    let mut buffer = LineBuffer::new("let x = 1".to_string(), 4);
    menu.replace_in_buffer(&mut buffer);
    assert_eq!(buffer.get_buffer(), "let _x = 1");
    assert_eq!(buffer.insertion_point(), 6);
    let request = server.written.last().unwrap();
    assert_eq!(request.method.as_deref(), Some("textDocument/codeAction"));
}

#[test]
fn a_chosen_command_reaches_the_server_with_its_arguments() {
    let (mut provider, mut worker) = LspDiagnosticsProvider::new(config("server", 200));
    let mut server = Server::new();
    provider.update_content("let x = 1");
    run(&mut worker, &mut server);
    let actions: Vec<lsp_types::CodeAction> = serde_json::from_str(ACTIONS).unwrap();
    let mut menu = DiagnosticFixMenu::default();
    menu.set_fixes(actions, "let x = 1", 4);
    menu.set_command_sender(provider.command_sender());
    menu.menu_event(reedline_lsp::menu::MenuEvent::NextElement);
    let mut buffer = LineBuffer::new("let x = 1".to_string(), 4);
    menu.replace_in_buffer(&mut buffer);
    assert_eq!(buffer.get_buffer(), "let x = 1");
    assert!(!run(&mut worker, &mut server));
    let request = server.written.last().unwrap();
    assert_eq!(request.method.as_deref(), Some("workspace/executeCommand"));
    let params = value(&request.params);
    assert_eq!(params["command"], json("\"lint.fixAll\""));
    assert_eq!(params["arguments"], json("[1,\"two\"]"));
}

#[test]
fn no_code_actions_make_no_menu() {
    let (mut provider, _worker) = LspDiagnosticsProvider::new(config("server", 200));
    assert!(create_diagnostic_fix_menu(&mut provider, 0, "let x = 1").is_none());
}

#[test]
fn shutdown_ends_the_worker_in_order() {
    let (mut provider, mut worker) = LspDiagnosticsProvider::new(config("server", 200));
    let mut server = Server::new();
    provider.update_content("one");
    run(&mut worker, &mut server);
    provider.shutdown();
    assert!(run(&mut worker, &mut server));
    let methods = server.methods();
    assert_eq!(&methods[methods.len() - 2..], ["shutdown", "exit"]);
    assert_eq!(server.slept, vec![20]);
    assert_eq!(server.killed, 1);
    assert!(matches!(worker.advance(IoOutcome::Resume), IoRequest::Exit));
}

#[test]
fn a_handle_that_goes_away_ends_the_worker_though_the_server_is_silent() {
    let (mut provider, mut worker) = LspDiagnosticsProvider::new(config("server", 200));
    let mut server = Server::new();
    provider.update_content("one");
    run(&mut worker, &mut server);
    server.answers = false;
    drop(provider);
    let started = Instant::now();
    assert!(run(&mut worker, &mut server));
    let waited = started.elapsed();
    assert!(waited >= Duration::from_millis(100));
    assert!(waited < Duration::from_millis(5000));
    let methods = server.methods();
    assert_eq!(&methods[methods.len() - 2..], ["shutdown", "exit"]);
    assert_eq!(server.killed, 1);
}

#[test]
fn a_worker_without_a_connection_leaves_when_the_handle_goes_away() {
    let (provider, mut worker) = LspDiagnosticsProvider::new(config("server", 200));
    let mut server = Server::new();
    drop(provider);
    assert!(run(&mut worker, &mut server));
    assert!(server.written.is_empty());
    assert_eq!(server.killed, 0);
}

#[test]
fn a_flood_of_commands_is_dropped_beyond_the_capacity() {
    let (mut provider, mut worker) = LspDiagnosticsProvider::new(config("server", 200));
    let mut server = Server::new();
    server.starts = false;
    for i in 0..100 {
        provider.update_content(&format!("text {}", i));
    }
    assert!(!run(&mut worker, &mut server));
    assert_eq!(server.spawned.len(), 32);
}

#[test]
fn a_bare_command_becomes_an_action_under_its_title() {
    let given: Vec<lsp_types::CodeAction> = serde_json::from_str(ACTIONS).unwrap();
    let offers = vec![
        Offer::Action(given[0].clone()),
        Offer::Command {
            title: "Fix all".to_string(),
            command: "lint.fixAll".to_string(),
            arguments: Some(vec![json("1"), json("\"two\"")]),
        },
        Offer::Command { title: "Bare".to_string(), command: "bare".to_string(), arguments: None },
    ];
    let actions = LspWorker::actions_for(Some(offers));
    assert_eq!(actions.len(), 3);
    assert_eq!(actions[0], given[0]);
    assert_eq!(actions[1].title, "Fix all");
    assert!(actions[1].edit.is_none());
    let command = actions[1].command.as_ref().unwrap();
    assert_eq!(command.title, "Fix all");
    assert_eq!(command.command, "lint.fixAll");
    assert_eq!(command.arguments, Some(vec![json("1"), json("\"two\"")]));
    assert_eq!(actions[2].title, "Bare");
    assert_eq!(actions[2].command.as_ref().unwrap().arguments, None);
    assert!(LspWorker::actions_for(None).is_empty());
    assert!(LspWorker::actions_for(Some(Vec::new())).is_empty());
    let single = LspWorker::action_for(Offer::Action(given[1].clone()));
    assert_eq!(single, given[1]);
}

#[test]
fn a_bare_command_in_an_answer_reaches_the_foreground_as_an_action() {
    let (mut provider, mut worker) = LspDiagnosticsProvider::new(config("server", 200));
    let mut server = Server::new();
    provider.update_content("let x = 1");
    run(&mut worker, &mut server);
    assert!(provider.code_actions("let x = 1", Span::new(4, 5)).is_empty());
    // The server answers with one bare command.
    server.answers = false;
    server.incoming.push_back(response(
        2,
        Some("[{\"title\":\"Bare\",\"command\":\"bare.run\",\"arguments\":[7]}]"),
    ));
    assert!(!run(&mut worker, &mut server));
    let actions = provider.code_actions("let x = 1", Span::new(4, 5));
    assert_eq!(actions.len(), 1);
    assert_eq!(actions[0].title, "Bare");
    assert_eq!(actions[0].command.as_ref().unwrap().command, "bare.run");
}

#[test]
fn a_command_line_of_white_space_starts_nothing() {
    for line in ["", " ", "\t\n", "\u{a0}\u{2003}\u{3000}"] {
        let (mut provider, mut worker) = LspDiagnosticsProvider::new(config(line, 200));
        let mut server = Server::new();
        provider.update_content("one");
        assert!(!run(&mut worker, &mut server));
        assert!(server.spawned.is_empty());
    }
    let (mut provider, mut worker) =
        LspDiagnosticsProvider::new(config("\u{a0}server\u{2003}--lsp ", 200));
    let mut server = Server::new();
    provider.update_content("one");
    run(&mut worker, &mut server);
    assert_eq!(server.spawned[0], ("server".to_string(), vec!["--lsp".to_string()]));
}
