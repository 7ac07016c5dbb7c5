use reedline_lsp::lsp::{
    CodeAction, IoOutcome, IoRequest, LspConfig, LspDiagnosticsProvider, Range, ServerCommand, Span,
    TextEdit,
};
use reedline_lsp::menu::diagnostic_fix_menu::{fix_for, fixes_for, parts_for, render_fix_line};
use reedline_lsp::menu::{
    ActionParts, DiagnosticFixMenu, FixAction, FixInfo, Highlighter, MenuEvent, NoHighlighter,
    TextEditInfo,
};
use reedline_lsp::text::LineBuffer;

const RESET: &str = "\u{1b}[0m";

fn actions(json: &str) -> Vec<CodeAction> {
    serde_json::from_str(json).unwrap()
}

fn edit_action(title: &str, start: u32, end: u32, new_text: &str) -> String {
    format!(
        "{{\"title\":\"{}\",\"edit\":{{\"changes\":{{\"repl:/session/repl\":[{{\"range\":{{\"start\":{{\"line\":0,\"character\":{}}},\"end\":{{\"line\":0,\"character\":{}}}}},\"newText\":\"{}\"}}]}}}}}}",
        title, start, end, new_text
    )
}

fn command_action(title: &str, command: &str) -> String {
    format!(
        "{{\"title\":\"{}\",\"command\":{{\"title\":\"{}\",\"command\":\"{}\",\"arguments\":[\"a\",2]}}}}",
        title, title, command
    )
}

fn menu_with(json: &str, content: &str) -> DiagnosticFixMenu {
    let mut menu = DiagnosticFixMenu::default();
    menu.set_fixes(actions(json), content, 0);
    menu
}

fn numbered(count: usize) -> DiagnosticFixMenu {
    let list: Vec<String> =
        (0..count).map(|i| command_action(&format!("fix {}", i), "run")).collect();
    menu_with(&format!("[{}]", list.join(",")), "")
}

fn info(span: Span, replacement: &str, original: &str) -> TextEditInfo {
    TextEditInfo { span, replacement: replacement.to_string(), original: original.to_string() }
}

fn edits_fix(title: &str, edits: Vec<TextEditInfo>) -> FixInfo {
    FixInfo { title: title.to_string(), action: FixAction::TextEdits(edits) }
}

struct Shout;

impl Highlighter for Shout {
    fn highlight(&self, line: &str, cursor: usize) -> String {
        format!("<{}:{}>", line.to_uppercase(), cursor)
    }
}

#[test]
fn a_new_menu_is_closed_and_empty() {
    let menu = DiagnosticFixMenu::default();
    assert!(!menu.is_active());
    assert!(!menu.has_fixes());
    assert_eq!(menu.selected_index(), 0);
    assert!(menu.get_selected_fix().is_none());
    assert_eq!(menu.min_rows(), 0);
    assert_eq!(menu.menu_required_lines(80), 0);
    assert_eq!(menu.menu_string(10, true), "No fixes available");
    assert!(menu.can_quick_complete());
}

#[test]
fn actions_become_fixes_in_their_order() {
    let json = format!(
        "[{},{},{{\"title\":\"nothing to do\"}},{}]",
        edit_action("rename", 4, 5, "_x"),
        command_action("fix all", "lint.fixAll"),
        edit_action("drop", 0, 4, "")
    );
    let mut menu = menu_with(&json, "let x = 1");
    assert!(menu.has_fixes());
    assert_eq!(menu.min_rows(), 3);
    let mut titles = Vec::new();
    for _ in 0..3 {
        titles.push(menu.get_selected_fix().unwrap().title.clone());
        menu.menu_event(MenuEvent::NextElement);
    }
    assert_eq!(titles, vec!["rename", "fix all", "drop"]);
}

#[test]
fn edits_are_preferred_to_the_command() {
    let json = "[{\"title\":\"both\",\"command\":{\"title\":\"both\",\"command\":\"run\"},\"edit\":{\"changes\":{\"repl:/session/repl\":[{\"range\":{\"start\":{\"line\":0,\"character\":0},\"end\":{\"line\":0,\"character\":3}},\"newText\":\"mut\"}]}}}]";
    let menu = menu_with(json, "let x = 1");
    match &menu.get_selected_fix().unwrap().action {
        FixAction::TextEdits(edits) => assert_eq!(edits[0].replacement, "mut"),
        other => panic!("unexpected action {:?}", other),
    }
}

#[test]
fn an_action_with_an_empty_list_of_edits_falls_back_to_its_command() {
    let json = "[{\"title\":\"both\",\"command\":{\"title\":\"both\",\"command\":\"run\"},\"edit\":{\"changes\":{\"repl:/session/repl\":[]}}},{\"title\":\"none\",\"edit\":{\"changes\":{\"repl:/session/repl\":[]}}},{\"title\":\"no changes\",\"edit\":{}}]";
    let menu = menu_with(json, "let x = 1");
    assert_eq!(menu.min_rows(), 1);
    match &menu.get_selected_fix().unwrap().action {
        FixAction::Command { command, arguments } => {
            assert_eq!(command, "run");
            assert!(arguments.is_empty());
        }
        other => panic!("unexpected action {:?}", other),
    }
}

#[test]
fn a_command_keeps_its_arguments() {
    let menu = menu_with(&format!("[{}]", command_action("fix all", "lint.fixAll")), "");
    match &menu.get_selected_fix().unwrap().action {
        FixAction::Command { command, arguments } => {
            assert_eq!(command, "lint.fixAll");
            assert_eq!(arguments.len(), 2);
            assert_eq!(arguments[0], serde_json::Value::String("a".to_string()));
        }
        other => panic!("unexpected action {:?}", other),
    }
}

#[test]
fn a_deletion_stays_an_edit_and_keeps_what_it_deletes() {
    let menu = menu_with(&format!("[{}]", edit_action("drop let", 0, 4, "")), "let x = 1");
    let fix = menu.get_selected_fix().unwrap();
    match &fix.action {
        FixAction::TextEdits(edits) => {
            assert_eq!(edits.len(), 1);
            assert_eq!(edits[0].span, Span::new(0, 4));
            assert_eq!(edits[0].replacement, "");
            assert_eq!(edits[0].original, "let ");
        }
        other => panic!("unexpected action {:?}", other),
    }
    assert_eq!(menu.menu_string(10, false), format!("> let  (drop let){}", RESET));
    assert_eq!(
        menu.menu_string(10, true),
        format!("> \u{1b}[9mlet {} \u{1b}[3m(drop let){}", RESET, RESET)
    );
    let mut buffer = LineBuffer::new("let x = 1".to_string(), 9);
    menu.replace_in_buffer(&mut buffer);
    assert_eq!(buffer.get_buffer(), "x = 1");
    assert_eq!(buffer.insertion_point(), 0);
}

#[test]
fn spans_and_originals_are_taken_in_the_content() {
    let menu = menu_with(&format!("[{}]", edit_action("fix", 2, 4, "ab")), "h\u{e9}llo w\u{1d11e}");
    match &menu.get_selected_fix().unwrap().action {
        FixAction::TextEdits(edits) => {
            assert_eq!(edits[0].span, Span::new(3, 5));
            assert_eq!(edits[0].original, "ll");
        }
        other => panic!("unexpected action {:?}", other),
    }
}

#[test]
fn parts_give_the_fix() {
    let edit = TextEdit { range: Range::new(0, 0, 0, 3), new_text: "mut".to_string() };
    let other = TextEdit { range: Range::new(0, 0, 0, 1), new_text: "?".to_string() };
    let parts = ActionParts {
        title: "t".to_string(),
        changes: Some(vec![vec![edit], vec![other]]),
        command: None,
    };
    let fix = fix_for("let x", parts).unwrap();
    assert_eq!(fix.title, "t");
    match &fix.action {
        FixAction::TextEdits(edits) => {
            assert_eq!(edits.len(), 1);
            assert_eq!(edits[0].replacement, "mut");
            assert_eq!(edits[0].original, "let");
        }
        other => panic!("unexpected action {:?}", other),
    }
    let command = ServerCommand { command: "run".to_string(), arguments: Vec::new() };
    let parts = ActionParts { title: "c".to_string(), changes: None, command: Some(command) };
    assert!(matches!(fix_for("let x", parts).unwrap().action, FixAction::Command { .. }));
    let parts = ActionParts { title: "n".to_string(), changes: Some(Vec::new()), command: None };
    assert!(fix_for("let x", parts).is_none());
    let parts =
        ActionParts { title: "n".to_string(), changes: Some(vec![Vec::new()]), command: None };
    assert!(fix_for("let x", parts).is_none());
    let parts = ActionParts { title: "n".to_string(), changes: None, command: None };
    assert!(fix_for("let x", parts).is_none());
    let list = vec![
        ActionParts { title: "a".to_string(), changes: None, command: None },
        ActionParts {
            title: "b".to_string(),
            changes: None,
            command: Some(ServerCommand { command: "x".to_string(), arguments: Vec::new() }),
        },
        ActionParts {
            title: "c".to_string(),
            changes: None,
            command: Some(ServerCommand { command: "y".to_string(), arguments: Vec::new() }),
        },
    ];
    let titles: Vec<String> = fixes_for("", list).into_iter().map(|fix| fix.title).collect();
    assert_eq!(titles, vec!["b", "c"]);
}

#[test]
fn setting_fixes_selects_the_first() {
    let mut menu = numbered(5);
    menu.menu_event(MenuEvent::Activate(false));
    menu.menu_event(MenuEvent::NextElement);
    menu.menu_event(MenuEvent::NextElement);
    assert_eq!(menu.selected_index(), 2);
    menu.set_fixes(actions(&format!("[{}]", command_action("only", "run"))), "", 3);
    assert_eq!(menu.selected_index(), 0);
    assert!(menu.is_active());
    assert_eq!(menu.get_selected_fix().unwrap().title, "only");
}

#[test]
fn the_selection_goes_around() {
    let mut menu = numbered(3);
    menu.menu_event(MenuEvent::PreviousElement);
    assert_eq!(menu.selected_index(), 2);
    menu.menu_event(MenuEvent::MoveDown);
    assert_eq!(menu.selected_index(), 0);
    menu.menu_event(MenuEvent::NextElement);
    assert_eq!(menu.selected_index(), 1);
    menu.menu_event(MenuEvent::MoveUp);
    assert_eq!(menu.selected_index(), 0);
    menu.select_next();
    menu.select_next();
    menu.select_next();
    assert_eq!(menu.selected_index(), 0);
    menu.select_previous();
    assert_eq!(menu.selected_index(), 2);
}

#[test]
fn an_empty_menu_has_nothing_to_select() {
    let mut menu = DiagnosticFixMenu::default();
    menu.select_next();
    assert_eq!(menu.selected_index(), 0);
    menu.select_previous();
    assert_eq!(menu.selected_index(), 0);
    let mut buffer = LineBuffer::new("abc".to_string(), 1);
    menu.replace_in_buffer(&mut buffer);
    assert_eq!(buffer.get_buffer(), "abc");
    assert_eq!(buffer.insertion_point(), 1);
}

#[test]
fn events_open_and_close_the_menu() {
    let mut menu = numbered(3);
    menu.menu_event(MenuEvent::NextElement);
    menu.menu_event(MenuEvent::Activate(true));
    assert!(menu.is_active());
    assert_eq!(menu.selected_index(), 0);
    menu.menu_event(MenuEvent::NextElement);
    menu.menu_event(MenuEvent::Deactivate);
    assert!(!menu.is_active());
    assert_eq!(menu.selected_index(), 1);
    for event in [
        MenuEvent::Edit(true),
        MenuEvent::MoveLeft,
        MenuEvent::MoveRight,
        MenuEvent::PreviousPage,
        MenuEvent::NextPage,
    ] {
        menu.menu_event(event);
        assert!(!menu.is_active());
        assert_eq!(menu.selected_index(), 1);
    }
    assert!(!menu.can_partially_complete(true));
}

#[test]
fn the_lines_scroll_with_the_selection() {
    let mut menu = numbered(14);
    assert_eq!(menu.menu_required_lines(80), 10);
    assert_eq!(menu.min_rows(), 14);
    let first_line = |menu: &DiagnosticFixMenu| -> String {
        menu.menu_string(10, false).split("\r\n").next().unwrap().to_string()
    };
    assert_eq!(first_line(&menu), format!("> fix 0{}", RESET));
    for _ in 0..9 {
        menu.select_next();
    }
    assert_eq!(first_line(&menu), format!("  fix 0{}", RESET));
    menu.select_next();
    assert_eq!(menu.selected_index(), 10);
    assert_eq!(first_line(&menu), format!("  fix 1{}", RESET));
    let text = menu.menu_string(10, false);
    let lines: Vec<&str> = text.split("\r\n").collect();
    assert_eq!(lines.len(), 10);
    assert_eq!(lines[9], format!("> fix 10{}", RESET));
    for _ in 0..3 {
        menu.select_next();
    }
    assert_eq!(first_line(&menu), format!("  fix 4{}", RESET));
    menu.select_next();
    assert_eq!(menu.selected_index(), 0);
    assert_eq!(first_line(&menu), format!("> fix 0{}", RESET));
    // Going back around the start leaves the lines where they are.
    menu.select_previous();
    assert_eq!(menu.selected_index(), 13);
    assert_eq!(first_line(&menu), format!("  fix 0{}", RESET));
    menu.select_next();
    menu.select_next();
    menu.select_next();
    menu.select_previous();
    assert_eq!(menu.selected_index(), 1);
    assert_eq!(first_line(&menu), format!("  fix 0{}", RESET));
}

#[test]
fn the_menu_shows_no_more_lines_than_there_is_room() {
    let menu = numbered(5);
    assert_eq!(menu.menu_string(0, false), "");
    assert_eq!(menu.menu_string(1, false), format!("> fix 0{}", RESET));
    assert_eq!(
        menu.menu_string(2, false),
        format!("> fix 0{}\r\n  fix 1{}", RESET, RESET)
    );
    assert_eq!(menu.menu_string(200, false).split("\r\n").count(), 5);
    assert_eq!(numbered(30).menu_string(200, false).split("\r\n").count(), 10);
}

#[test]
fn lines_are_rendered_by_kind() {
    let replacement = edits_fix("rename", vec![info(Span::new(4, 5), "_x", "x")]);
    let deletion = edits_fix("drop", vec![info(Span::new(0, 4), "", "let ")]);
    let several = edits_fix(
        "fix all",
        vec![info(Span::new(0, 1), "a", "b"), info(Span::new(2, 3), "", "c")],
    );
    let none = edits_fix("empty", Vec::new());
    let command = FixInfo {
        title: "run".to_string(),
        action: FixAction::Command { command: "c".to_string(), arguments: Vec::new() },
    };
    assert_eq!(render_fix_line(true, false, &replacement, "_x"), format!("> _x (rename){}", RESET));
    assert_eq!(
        render_fix_line(false, true, &replacement, "<_X>"),
        format!("  <_X> \u{1b}[3m(rename){}", RESET)
    );
    assert_eq!(render_fix_line(false, false, &deletion, "?"), format!("  let  (drop){}", RESET));
    assert_eq!(
        render_fix_line(true, true, &deletion, "?"),
        format!("> \u{1b}[9mlet {} \u{1b}[3m(drop){}", RESET, RESET)
    );
    assert_eq!(render_fix_line(true, false, &several, "?"), format!("> fix all{}", RESET));
    assert_eq!(
        render_fix_line(false, true, &several, "?"),
        format!("  \u{1b}[3mfix all{}", RESET)
    );
    assert_eq!(render_fix_line(true, false, &none, "?"), format!(">  (empty){}", RESET));
    assert_eq!(render_fix_line(true, false, &command, "?"), format!("> run{}", RESET));
    assert_eq!(render_fix_line(false, true, &command, "?"), format!("  \u{1b}[3mrun{}", RESET));
}

#[test]
fn a_highlighter_colours_replacements_only_with_colouring() {
    let menu = menu_with(
        &format!(
            "[{},{},{}]",
            edit_action("rename", 4, 5, "_x"),
            edit_action("drop", 0, 4, ""),
            command_action("run", "c")
        ),
        "let x = 1",
    );
    let plain = menu.menu_string_with_highlighter(10, false, Some(&Shout));
    assert_eq!(
        plain,
        format!("> _x (rename){}\r\n  let  (drop){}\r\n  run{}", RESET, RESET, RESET)
    );
    let coloured = menu.menu_string_with_highlighter(10, true, Some(&Shout));
    assert_eq!(
        coloured,
        format!(
            "> <_X:2> \u{1b}[3m(rename){}\r\n  \u{1b}[9mlet {} \u{1b}[3m(drop){}\r\n  \u{1b}[3mrun{}",
            RESET, RESET, RESET, RESET
        )
    );
    let none: Option<&NoHighlighter> = None;
    assert_eq!(
        menu.menu_string_with_highlighter(1, true, none),
        format!("> _x \u{1b}[3m(rename){}", RESET)
    );
    let fix = menu.get_selected_fix().unwrap();
    assert_eq!(
        menu.format_fix_line(fix, 1, true, Some(&Shout)),
        format!("  <_X:2> \u{1b}[3m(rename){}", RESET)
    );
    assert_eq!(NoHighlighter.highlight("as it is", 3), "as it is");
}

#[test]
fn the_lines_begin_under_the_text_to_replace() {
    let mut menu = DiagnosticFixMenu::default();
    menu.set_fixes(actions(&format!("[{}]", command_action("run", "c"))), "let x = 1", 4);
    menu.set_cursor_pos((12, 7));
    // The prompt takes 12 - 9 columns; the anchor is 4 columns in, and two
    // columns are kept for the mark.
    menu.update_working_details(&LineBuffer::new("let x = 1".to_string(), 9));
    assert_eq!(menu.menu_string(10, false), format!("     > run{}", RESET));
    // A cursor beyond the text counts as at its end.
    menu.update_working_details(&LineBuffer::new("let x = 1".to_string(), 90));
    assert_eq!(menu.menu_string(10, false), format!("     > run{}", RESET));
    // Wide characters before the cursor take two columns each.
    menu.update_working_details(&LineBuffer::new("\u{4e16}\u{754c}".to_string(), 6));
    assert_eq!(menu.menu_string(10, false), format!("{}> run{}", " ".repeat(10), RESET));
    // No step leaves the range of a column.
    menu.set_cursor_pos((1, 0));
    menu.update_working_details(&LineBuffer::new("let x = 1".to_string(), 9));
    assert_eq!(menu.menu_string(10, false), format!("  > run{}", RESET));
    menu.set_fixes(actions(&format!("[{}]", command_action("run", "c"))), "", 1);
    menu.set_cursor_pos((0, 0));
    menu.update_working_details(&LineBuffer::new(String::new(), 0));
    assert_eq!(menu.menu_string(10, false), format!("> run{}", RESET));
}

#[test]
fn the_selected_edits_are_applied_to_the_buffer() {
    let json = "[{\"title\":\"both ends\",\"edit\":{\"changes\":{\"repl:/session/repl\":[{\"range\":{\"start\":{\"line\":0,\"character\":0},\"end\":{\"line\":0,\"character\":2}},\"newText\":\"X\"},{\"range\":{\"start\":{\"line\":0,\"character\":5},\"end\":{\"line\":0,\"character\":6}},\"newText\":\"Y\"}]}}}]";
    let menu = menu_with(json, "abcdef");
    let mut buffer = LineBuffer::new("abcdef".to_string(), 3);
    menu.replace_in_buffer(&mut buffer);
    assert_eq!(buffer.get_buffer(), "XcdeY");
    assert_eq!(buffer.insertion_point(), 1);
}

#[test]
fn edits_for_a_buffer_that_has_drifted_are_limited_to_it() {
    let menu = menu_with(&format!("[{}]", edit_action("tail", 4, 9, "!")), "let x = 1");
    let mut buffer = LineBuffer::new("let".to_string(), 0);
    menu.replace_in_buffer(&mut buffer);
    assert_eq!(buffer.get_buffer(), "let!");
    assert_eq!(buffer.insertion_point(), 4);
}

#[test]
fn edits_that_cannot_be_applied_leave_the_buffer_alone() {
    let menu = menu_with(&format!("[{}]", edit_action("cut", 0, 1, "e")), "abc");
    let mut buffer = LineBuffer::new("\u{e9}bc".to_string(), 2);
    menu.replace_in_buffer(&mut buffer);
    assert_eq!(buffer.get_buffer(), "\u{e9}bc");
    assert_eq!(buffer.insertion_point(), 2);
}

#[test]
fn a_selected_command_goes_to_the_worker_and_leaves_the_buffer_alone() {
    let config = LspConfig {
        command: "server".to_string(),
        timeout_ms: 100,
        uri_scheme: "repl".to_string(),
    };
    let (mut provider, mut worker) = LspDiagnosticsProvider::new(config);
    let mut menu = menu_with(&format!("[{}]", command_action("fix all", "lint.fixAll")), "");
    let mut buffer = LineBuffer::new("let x = 1".to_string(), 2);
    // Without a sender the command goes nowhere.
    menu.replace_in_buffer(&mut buffer);
    assert!(matches!(worker.advance(IoOutcome::Resume), IoRequest::Continue));
    assert!(!provider.check_wake());
    menu.set_command_sender(provider.command_sender());
    menu.replace_in_buffer(&mut buffer);
    assert_eq!(buffer.get_buffer(), "let x = 1");
    assert_eq!(buffer.insertion_point(), 2);
    // The worker has no connection and answers at once that nothing ran.
    assert!(matches!(worker.advance(IoOutcome::Resume), IoRequest::Continue));
    assert!(provider.check_wake());
}

#[test]
fn the_parts_of_an_action_are_read() {
    let list = actions(&format!(
        "[{},{},{{\"title\":\"bare\",\"command\":{{\"title\":\"bare\",\"command\":\"run\"}}}},{{\"title\":\"nothing\"}}]",
        edit_action("rename", 4, 5, "_x"),
        command_action("fix all", "lint.fixAll")
    ));
    let parts = parts_for(&list[0]);
    assert_eq!(parts.title, "rename");
    assert!(parts.command.is_none());
    let changes = parts.changes.unwrap();
    assert_eq!(changes.len(), 1);
    assert_eq!(changes[0].len(), 1);
    assert_eq!(changes[0][0].range, Range::new(0, 4, 0, 5));
    assert_eq!(changes[0][0].new_text, "_x");
    let parts = parts_for(&list[1]);
    assert_eq!(parts.title, "fix all");
    assert!(parts.changes.is_none());
    let command = parts.command.unwrap();
    assert_eq!(command.command, "lint.fixAll");
    assert_eq!(command.arguments.len(), 2);
    // Arguments that are absent count as none given.
    let parts = parts_for(&list[2]);
    let command = parts.command.unwrap();
    assert_eq!(command.command, "run");
    assert!(command.arguments.is_empty());
    let parts = parts_for(&list[3]);
    assert_eq!(parts.title, "nothing");
    assert!(parts.changes.is_none() && parts.command.is_none());
}

#[test]
fn a_command_is_sent_only_for_a_command_fix_and_through_a_handle() {
    let config = LspConfig {
        command: "server".to_string(),
        timeout_ms: 100,
        uri_scheme: "repl".to_string(),
    };
    let (provider, _worker) = LspDiagnosticsProvider::new(config);
    let json = format!(
        "[{},{}]",
        edit_action("rename", 4, 5, "_x"),
        command_action("fix all", "lint.fixAll")
    );
    let mut menu = menu_with(&json, "let x = 1");
    assert!(menu.command_to_send().is_none());
    menu.select_next();
    // A command fix is selected, but there is no handle yet.
    assert!(menu.command_to_send().is_none());
    menu.set_command_sender(provider.command_sender());
    let command = menu.command_to_send().unwrap();
    assert_eq!(command.command, "lint.fixAll");
    assert_eq!(command.arguments.len(), 2);
    menu.select_previous();
    assert!(menu.command_to_send().is_none());
    let mut empty = DiagnosticFixMenu::default();
    empty.set_command_sender(provider.command_sender());
    assert!(empty.command_to_send().is_none());
}

#[test]
fn fixes_are_copied_with_all_they_hold() {
    let edits = edits_fix("both", vec![info(Span::new(0, 1), "a", "b"), info(Span::new(2, 3), "", "c")]);
    let copy = edits.clone();
    assert_eq!(copy.title, "both");
    match (&copy.action, &edits.action) {
        (FixAction::TextEdits(copied), FixAction::TextEdits(given)) => {
            assert_eq!(copied.len(), 2);
            for (one, other) in copied.iter().zip(given.iter()) {
                assert_eq!(one.span, other.span);
                assert_eq!(one.replacement, other.replacement);
                assert_eq!(one.original, other.original);
            }
        }
        other => panic!("unexpected actions {:?}", other),
    }
    let command = FixInfo {
        title: "run".to_string(),
        action: FixAction::Command {
            command: "c".to_string(),
            arguments: vec![serde_json::Value::Bool(true)],
        },
    };
    match command.clone().action {
        FixAction::Command { command, arguments } => {
            assert_eq!(command, "c");
            assert_eq!(arguments, vec![serde_json::Value::Bool(true)]);
        }
        other => panic!("unexpected action {:?}", other),
    }
}
