//! The JSON side of the protocol.
//!
//! Parameters are built by `lsp_types` and `serde_json`, and the parts of
//! what the server sent are handed out by `lsp_types`. Each function here
//! makes one such call, or hands out one part of a value of theirs. What a
//! call returns for given arguments has a name, by which the contracts of
//! the library speak of it; what the value holds is not looked into.

use super::diagnostic::{Range, TextEdit, TextEditView};
use lsp_types::{CodeAction, Diagnostic, Uri};
use serde_json::Value;
use vstd::multiset::Multiset;
use vstd::prelude::*;

verus! {

/// A JSON value of `serde_json`. The library carries such values and never
/// looks into them.
#[verifier::external_type_specification]
#[verifier::external_body]
pub struct ExValue(Value);

/// A document URI of `lsp_types`, as its parser accepted it.
#[verifier::external_type_specification]
#[verifier::external_body]
pub struct ExUri(Uri);

/// A diagnostic of `lsp_types`, handed on as the server sent it.
#[verifier::external_type_specification]
#[verifier::external_body]
pub struct ExDiagnostic(Diagnostic);

/// A code action of `lsp_types`, handed on as the server sent it.
#[verifier::external_type_specification]
#[verifier::external_body]
pub struct ExCodeAction(CodeAction);

/// `Clone::clone` of `serde_json::Value`, which `serde_json` derives: the
/// copy holds what the value holds.
pub assume_specification[ <Value as Clone>::clone ](value: &Value) -> (copy: Value)
    ensures
        copy == *value,
;

/// The longest text that the URI parser takes.
pub const URI_MAX_LEN: usize = 0x7fff_ffff;

/// The URI that `lsp_types` reads from a text, if it reads one.
pub uninterp spec fn uri_in(text: Seq<char>) -> Option<Uri>;

/// `<lsp_types::Uri as FromStr>::from_str`, which hands the text to
/// `fluent_uri::Uri::parse`. That parser panics on a text of more than
/// `i32::MAX` bytes, which is left out here. Nothing is claimed of which
/// texts it accepts.
#[verifier::external_body]
pub(crate) fn parse_uri(text: &str) -> (uri: Option<Uri>)
    requires
        vstd::utf8::encode_utf8(text@).len() <= URI_MAX_LEN,
    ensures
        uri == uri_in(text@),
{
    text.parse().ok()
}

/// The parameters of `initialize` for a client of this name and version that
/// runs as this process, as JSON.
pub uninterp spec fn initialize_value(
    process_id: Option<u32>,
    name: Seq<char>,
    version: Seq<char>,
) -> Option<Value>;

/// `serde_json::to_value` of an `lsp_types::InitializeParams` that names the
/// client and its process and leaves every other field at its default.
#[verifier::external_body]
pub(crate) fn initialize_params(process_id: Option<u32>, name: &str, version: &str) -> (params:
    Option<Value>)
    ensures
        params == initialize_value(process_id, name@, version@),
{
    let info = lsp_types::ClientInfo { name: name.into(), version: Some(version.into()) };
    let params = lsp_types::InitializeParams {
        process_id,
        client_info: Some(info),
        ..Default::default()
    };
    serde_json::to_value(params).ok()
}

/// The parameters of `textDocument/didOpen` for one document, as JSON.
pub uninterp spec fn did_open_value(
    uri: Uri,
    language_id: Seq<char>,
    version: i32,
    text: Seq<char>,
) -> Option<Value>;

/// `serde_json::to_value` of an `lsp_types::DidOpenTextDocumentParams` for one
/// document.
#[verifier::external_body]
pub(crate) fn did_open_params(uri: &Uri, language_id: &str, version: i32, text: &str) -> (params:
    Option<Value>)
    ensures
        params == did_open_value(*uri, language_id@, version, text@),
{
    let text_document = lsp_types::TextDocumentItem {
        uri: uri.clone(),
        language_id: language_id.into(),
        version,
        text: text.into(),
    };
    serde_json::to_value(lsp_types::DidOpenTextDocumentParams { text_document }).ok()
}

/// The parameters of `textDocument/didChange` for one change to one
/// document, as JSON: the range that the text replaces and its length,
/// where they are given, and the text.
pub uninterp spec fn did_change_value(
    uri: Uri,
    version: i32,
    range: Option<Range>,
    range_length: Option<u32>,
    text: Seq<char>,
) -> Option<Value>;

/// `serde_json::to_value` of an `lsp_types::DidChangeTextDocumentParams` with
/// one change.
#[verifier::external_body]
pub(crate) fn did_change_params(
    uri: &Uri,
    version: i32,
    range: Option<Range>,
    range_length: Option<u32>,
    text: &str,
) -> (params: Option<Value>)
    ensures
        params == did_change_value(*uri, version, range, range_length, text@),
{
    let text_document = lsp_types::VersionedTextDocumentIdentifier { uri: uri.clone(), version };
    let position = |at: super::diagnostic::Position| lsp_types::Position::new(at.line, at.character);
    let range = range.map(|r| lsp_types::Range { start: position(r.start), end: position(r.end) });
    let change = lsp_types::TextDocumentContentChangeEvent { range, range_length, text: text.into() };
    let content_changes = vec![change];
    serde_json::to_value(
        lsp_types::DidChangeTextDocumentParams { text_document, content_changes },
    ).ok()
}

/// The parameters of a request for the code actions of a range of one
/// document, as JSON.
pub uninterp spec fn code_action_value(uri: Uri, range: Range) -> Option<Value>;

/// `serde_json::to_value` of an `lsp_types::CodeActionParams` for `range` of
/// one document, with no diagnostics in its context.
#[verifier::external_body]
pub(crate) fn code_action_params(uri: &Uri, range: Range) -> (params: Option<Value>)
    ensures
        params == code_action_value(*uri, range),
{
    let start = lsp_types::Position::new(range.start.line, range.start.character);
    let end = lsp_types::Position::new(range.end.line, range.end.character);
    let params = lsp_types::CodeActionParams {
        text_document: lsp_types::TextDocumentIdentifier { uri: uri.clone() },
        range: lsp_types::Range { start, end },
        context: Default::default(),
        work_done_progress_params: Default::default(),
        partial_result_params: Default::default(),
    };
    serde_json::to_value(params).ok()
}

/// The parameters of `workspace/executeCommand`, as JSON.
pub uninterp spec fn execute_command_value(command: Seq<char>, arguments: Seq<Value>) -> Option<
    Value,
>;

/// `serde_json::to_value` of an `lsp_types::ExecuteCommandParams`.
#[verifier::external_body]
pub(crate) fn execute_command_params(command: &str, arguments: Vec<Value>) -> (params: Option<
    Value,
>)
    ensures
        params == execute_command_value(command@, arguments@),
{
    serde_json::to_value(
        lsp_types::ExecuteCommandParams {
            command: command.into(),
            arguments,
            work_done_progress_params: Default::default(),
        },
    ).ok()
}

/// The range of a diagnostic.
pub uninterp spec fn range_in(diagnostic: Diagnostic) -> Range;

/// The `range` field of an `lsp_types::Diagnostic`, number by number.
#[verifier::external_body]
pub(crate) fn diagnostic_range(diagnostic: &Diagnostic) -> (range: Range)
    ensures
        range == range_in(*diagnostic),
{
    let (start, end) = (diagnostic.range.start, diagnostic.range.end);
    Range::new(start.line, start.character, end.line, end.character)
}

/// The title of a code action.
pub uninterp spec fn title_in(action: CodeAction) -> Seq<char>;

/// The `title` field of an `lsp_types::CodeAction`.
#[verifier::external_body]
pub(crate) fn action_title(action: &CodeAction) -> (title: String)
    ensures
        title@ == title_in(*action),
{
    action.title.clone()
}

/// The edits of a code action: the lists of edits in its map of changes,
/// each as often as it stands there, in no order; none for an action
/// without a workspace edit or without a map of changes.
pub uninterp spec fn changes_in(action: CodeAction) -> Option<Multiset<Seq<TextEditView>>>;

/// The edits of an `lsp_types::CodeAction`, one list for each document in
/// its map of changes; `None` when the action has no workspace edit or no
/// map of changes. The lists come in the order in which the map hands them
/// out, which is not determined for a map of several documents.
#[verifier::external_body]
pub(crate) fn action_changes(action: &CodeAction) -> (changes: Option<Vec<Vec<TextEdit>>>)
    ensures
        match changes_in(*action) {
            Some(lists) => changes matches Some(got) && got.deep_view().to_multiset() == lists,
            None => changes is None,
        },
{
    let changes = action.edit.as_ref()?.changes.as_ref()?;
    let convert = |edit: &lsp_types::TextEdit| {
        let (start, end) = (edit.range.start, edit.range.end);
        let range = Range::new(start.line, start.character, end.line, end.character);
        TextEdit { range, new_text: edit.new_text.clone() }
    };
    Some(changes.values().map(|edits| edits.iter().map(convert).collect()).collect())
}

/// The command of a code action: its name, and its arguments where it has
/// any; none for an action without a command.
pub uninterp spec fn command_in(action: CodeAction) -> Option<(Seq<char>, Option<Seq<Value>>)>;

/// The `command` field of an `lsp_types::CodeAction`: the command's name and
/// its arguments.
#[verifier::external_body]
pub(crate) fn action_command(action: &CodeAction) -> (command: Option<
    (String, Option<Vec<Value>>),
>)
    ensures
        match command_in(*action) {
            Some((name, arguments)) => command matches Some((got, given)) && got@ == name && (
            match arguments {
                Some(list) => given matches Some(values) && values@ == list,
                None => given is None,
            }),
            None => command is None,
        },
{
    let convert = |command: &lsp_types::Command| {
        (command.command.clone(), command.arguments.clone())
    };
    action.command.as_ref().map(convert)
}

/// An `lsp_types::CodeAction` that carries one command and nothing else,
/// under the title given: every field but title and command is left at its
/// default, so the action has no edits.
#[verifier::external_body]
pub(crate) fn command_action(title: String, command: String, arguments: Option<Vec<Value>>) -> (action:
    CodeAction)
    ensures
        title_in(action) == title@,
        command_in(action) == Some(
            (
                command@,
                match arguments {
                    Some(given) => Some(given@),
                    None => None,
                },
            ),
        ),
        changes_in(action) is None,
{
    let command = lsp_types::Command { title: title.clone(), command, arguments };
    CodeAction { title, command: Some(command), ..Default::default() }
}

} // verus!
