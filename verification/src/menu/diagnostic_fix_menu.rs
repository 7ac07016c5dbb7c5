//! Fixes offered for a diagnostic, and the menu that presents them.
//!
//! A fix is a title with either edits to the buffer or a command for the
//! server. The menu holds the fixes for the diagnostic under the cursor, one
//! of them selected, shows them one to a line, and applies the selected one.

use super::edits::{apply_all, apply_text_edits, cursor_after, descending};
use super::style::{prefix_text, reset, style_prefix, style_suffix, suffix_text, RESET};
use crate::lsp::client::LspCommandSender;
use crate::lsp::diagnostic::{
    range_to_span, span_of, ServerCommand, ServerCommandView, TextEdit, TextEditView,
};
use crate::lsp::json::{
    action_changes, action_command, action_title, changes_in, command_in, title_in,
};
use crate::lsp::Span;
use crate::text::{
    clamp, display_width, join, joined, padding, slice, spaces, splice_ok, width, LineBuffer,
};
use lsp_types::CodeAction;
use serde_json::Value;
use vstd::prelude::*;
use vstd::string::StringExecFns;
use vstd::utf8::*;

verus! {


/// One edit of a fix: the bytes to replace, what replaces them, and what
/// stood there when the fix was computed.
#[derive(Debug)]
pub struct TextEditInfo {
    /// Byte span in the buffer.
    pub span: Span,
    /// Replacement text; empty for a deletion.
    pub replacement: String,
    /// The text that stood at the span, kept for display.
    pub original: String,
}

/// A [`TextEditInfo`] as the contracts see it.
pub struct TextEditInfoView {
    pub span: Span,
    pub replacement: Seq<char>,
    pub original: Seq<char>,
}

impl DeepView for TextEditInfo {
    type V = TextEditInfoView;

    open spec fn deep_view(&self) -> TextEditInfoView {
        TextEditInfoView {
            span: self.span,
            replacement: self.replacement@,
            original: self.original@,
        }
    }
}

impl View for TextEditInfo {
    type V = TextEditInfoView;

    open spec fn view(&self) -> TextEditInfoView {
        self.deep_view()
    }
}

impl Clone for TextEditInfo {
    fn clone(&self) -> (copy: Self)
        ensures
            copy == *self,
    {
        TextEditInfo {
            span: self.span,
            replacement: self.replacement.clone(),
            original: self.original.clone(),
        }
    }
}

/// What a fix does when it is chosen.
#[derive(Debug)]
pub enum FixAction {
    /// Edits to apply to the buffer.
    TextEdits(Vec<TextEditInfo>),
    /// A command for the server to execute.
    Command { command: String, arguments: Vec<Value> },
}

/// A [`FixAction`] as the contracts see it.
pub enum FixActionView {
    TextEdits(Seq<TextEditInfoView>),
    Command { command: Seq<char>, arguments: Seq<Value> },
}

impl DeepView for FixAction {
    type V = FixActionView;

    open spec fn deep_view(&self) -> FixActionView {
        match *self {
            FixAction::TextEdits(edits) => FixActionView::TextEdits(edits.deep_view()),
            FixAction::Command { command, arguments } => FixActionView::Command {
                command: command@,
                arguments: arguments@,
            },
        }
    }
}

impl View for FixAction {
    type V = FixActionView;

    open spec fn view(&self) -> FixActionView {
        self.deep_view()
    }
}

impl Clone for FixAction {
    fn clone(&self) -> (copy: Self)
        ensures
            copy@ == self@,
    {
        match self {
            FixAction::TextEdits(edits) => {
                let mut copies: Vec<TextEditInfo> = Vec::new();
                let mut i: usize = 0;
                while i < edits.len()
                    invariant
                        i <= edits.len(),
                        copies.len() == i,
                        forall|k: int| 0 <= k < i ==> #[trigger] copies@[k] == edits@[k],
                    decreases edits.len() - i,
                {
                    copies.push(edits[i].clone());
                    i = i + 1;
                }
                assert(copies.deep_view() =~= edits.deep_view());
                FixAction::TextEdits(copies)
            },
            FixAction::Command { command, arguments } => FixAction::Command {
                command: command.clone(),
                arguments: arguments.clone(),
            },
        }
    }
}

/// A fix as the menu holds it: its title and what it does, with offsets
/// into the buffer already computed.
#[derive(Debug)]
pub struct FixInfo {
    /// The title, shown in the menu.
    pub title: String,
    /// What the fix does.
    pub action: FixAction,
}

/// A [`FixInfo`] as the contracts see it.
pub struct FixInfoView {
    pub title: Seq<char>,
    pub action: FixActionView,
}

impl DeepView for FixInfo {
    type V = FixInfoView;

    open spec fn deep_view(&self) -> FixInfoView {
        FixInfoView { title: self.title@, action: self.action.deep_view() }
    }
}

impl View for FixInfo {
    type V = FixInfoView;

    open spec fn view(&self) -> FixInfoView {
        self.deep_view()
    }
}

impl Clone for FixInfo {
    fn clone(&self) -> (copy: Self)
        ensures
            copy@ == self@,
    {
        FixInfo { title: self.title.clone(), action: self.action.clone() }
    }
}

/// What the menu reads of a code action: its title, its edits grouped by
/// the document they are for, and its command.
#[derive(Debug)]
pub struct ActionParts {
    /// The title, shown in the menu.
    pub title: String,
    /// The edits, one list for each document, if the action carries edits.
    pub changes: Option<Vec<Vec<TextEdit>>>,
    /// The command, if the action carries one.
    pub command: Option<ServerCommand>,
}

/// [`ActionParts`] as the contracts see them.
pub struct ActionPartsView {
    pub title: Seq<char>,
    pub changes: Option<Seq<Seq<TextEditView>>>,
    pub command: Option<ServerCommandView>,
}

impl ActionPartsView {
    /// The edits that count: those for the first document, since the client
    /// holds one document only. An action without edits has none, and so
    /// has one whose first list is empty.
    pub open spec fn edits(self) -> Seq<TextEditView> {
        if self.changes is Some && self.changes->0.len() > 0 {
            self.changes->0[0]
        } else {
            Seq::empty()
        }
    }
}

impl DeepView for ActionParts {
    type V = ActionPartsView;

    open spec fn deep_view(&self) -> ActionPartsView {
        ActionPartsView {
            title: self.title@,
            changes: self.changes.deep_view(),
            command: self.command.deep_view(),
        }
    }
}

impl View for ActionParts {
    type V = ActionPartsView;

    open spec fn view(&self) -> ActionPartsView {
        self.deep_view()
    }
}

/// Whether `parts` is what the menu reads of `action`: its title; its
/// command, where arguments that are absent count as none given; and its
/// lists of edits, one for each document, each once, in the order in which
/// the action's map of changes hands them out.
pub open spec fn reads(action: CodeAction, parts: ActionPartsView) -> bool {
    &&& parts.title == title_in(action)
    &&& parts.command == match command_in(action) {
        Some((command, arguments)) => Some(
            ServerCommandView {
                command,
                arguments: match arguments {
                    Some(given) => given,
                    None => Seq::empty(),
                },
            },
        ),
        None => None,
    }
    &&& match changes_in(action) {
        Some(lists) => parts.changes matches Some(got) && got.to_multiset() == lists,
        None => parts.changes is None,
    }
}

/// What the menu reads of a code action.
pub fn parts_for(action: &CodeAction) -> (parts: ActionParts)
    ensures
        reads(*action, parts@),
{
    let command = match action_command(action) {
        Some((command, arguments)) => {
            let arguments = match arguments {
                Some(given) => given,
                None => Vec::new(),
            };
            Some(ServerCommand { command, arguments })
        },
        None => None,
    };
    ActionParts { title: action_title(action), changes: action_changes(action), command }
}

/// An edit with its span in `content` and the text that stands there. An
/// empty replacement makes it a deletion, which is an edit like any other.
pub open spec fn edit_info(content: Seq<u8>, edit: TextEditView) -> TextEditInfoView {
    let span = span_of(content, edit.range);
    TextEditInfoView {
        span,
        replacement: edit.new_text,
        original: decode_utf8(content.subrange(span.start as int, span.end as int)),
    }
}

/// The fix for a code action: its edits where it has any, else its command,
/// and none where it has neither.
pub open spec fn fix_of(content: Seq<u8>, parts: ActionPartsView) -> Option<FixInfoView> {
    if parts.edits().len() > 0 {
        Some(
            FixInfoView {
                title: parts.title,
                action: FixActionView::TextEdits(
                    Seq::new(parts.edits().len(), |i: int| edit_info(content, parts.edits()[i])),
                ),
            },
        )
    } else if parts.command is Some {
        Some(
            FixInfoView {
                title: parts.title,
                action: FixActionView::Command {
                    command: parts.command->0.command,
                    arguments: parts.command->0.arguments,
                },
            },
        )
    } else {
        None
    }
}

/// Whether `parts` is what the menu reads of `actions`, one by one.
pub open spec fn read_from(actions: Seq<CodeAction>, parts: Seq<ActionPartsView>) -> bool {
    &&& parts.len() == actions.len()
    &&& forall|i: int| 0 <= i < actions.len() ==> reads(actions[i], #[trigger] parts[i])
}

/// The fixes for a list of code actions, in its order; an action that gives
/// no fix is left out.
pub open spec fn fixes_of(content: Seq<u8>, actions: Seq<ActionPartsView>) -> Seq<FixInfoView> {
    actions.filter_map(|parts: ActionPartsView| fix_of(content, parts))
}

/// There are no more fixes than actions.
pub proof fn lemma_fixes_of_len(content: Seq<u8>, actions: Seq<ActionPartsView>)
    ensures
        fixes_of(content, actions).len() <= actions.len(),
    decreases actions.len(),
{
    if actions.len() > 0 {
        lemma_fixes_of_len(content, actions.drop_last());
        assert(fixes_of(content, actions.drop_last()) == actions.drop_last().filter_map(
            |parts: ActionPartsView| fix_of(content, parts),
        ));
    }
}

/// An action with edits gives a fix with as many edits, each with the
/// replacement it came with and the text that stands at its span: an empty
/// replacement is kept, and with it the text that it deletes.
pub proof fn lemma_edits_are_kept(content: Seq<u8>, parts: ActionPartsView, i: int)
    requires
        valid_utf8(content),
        content.len() <= usize::MAX,
        0 <= i < parts.edits().len(),
    ensures
        fix_of(content, parts) is Some,
        fix_of(content, parts)->0.title == parts.title,
        fix_of(content, parts)->0.action matches FixActionView::TextEdits(edits) && {
            &&& edits.len() == parts.edits().len()
            &&& edits[i].span == span_of(content, parts.edits()[i].range)
            &&& edits[i].replacement == parts.edits()[i].new_text
            &&& encode_utf8(edits[i].original) == content.subrange(
                edits[i].span.start as int,
                edits[i].span.end as int,
            )
        },
{
    let range = parts.edits()[i].range;
    crate::lsp::diagnostic::lemma_span_of(content, range);
    let span = span_of(content, range);
    crate::text::lemma_between_boundaries(content, span.start as int, span.end as int);
    decode_utf8_encode_utf8(content.subrange(span.start as int, span.end as int));
}

/// The info for one edit of a code action.
pub fn edit_info_for(content: &str, edit: &TextEdit) -> (info: TextEditInfo)
    ensures
        info@ == edit_info(encode_utf8(content@), edit@),
{
    let span = range_to_span(content, &edit.range);
    let original = match slice(content, span.start, span.end) {
        Some(text) => {
            proof {
                encode_utf8_decode_utf8(text@);
            }
            text.to_owned()
        },
        None => String::new(),
    };
    TextEditInfo { span, replacement: edit.new_text.clone(), original }
}

/// The fix for a code action with these parts, whose ranges are taken in
/// `content`.
pub fn fix_for(content: &str, parts: ActionParts) -> (fix: Option<FixInfo>)
    ensures
        fix.deep_view() == fix_of(encode_utf8(content@), parts@),
{
    let ActionParts { title, changes, command } = parts;
    match &changes {
        Some(groups) => {
            if groups.len() > 0 && groups[0].len() > 0 {
                let edits = &groups[0];
                proof {
                    assert(changes.deep_view()->0[0] == edits.deep_view());
                }
                let mut infos: Vec<TextEditInfo> = Vec::new();
                let mut i: usize = 0;
                while i < edits.len()
                    invariant
                        i <= edits.len(),
                        infos.len() == i,
                        forall|k: int|
                            0 <= k < i ==> infos@[k]@ == edit_info(
                                encode_utf8(content@),
                                #[trigger] edits@[k]@,
                            ),
                    decreases edits.len() - i,
                {
                    let info = edit_info_for(content, &edits[i]);
                    infos.push(info);
                    i = i + 1;
                }
                proof {
                    let wanted = Seq::new(
                        edits.deep_view().len(),
                        |i: int| edit_info(encode_utf8(content@), edits.deep_view()[i]),
                    );
                    assert forall|k: int| 0 <= k < infos.len() implies infos.deep_view()[k]
                        == wanted[k] by {
                        assert(infos@[k]@ == edit_info(encode_utf8(content@), edits@[k]@));
                        assert(edits.deep_view()[k] == edits@[k]@);
                    }
                    assert(infos.deep_view() =~= wanted);
                }
                return Some(FixInfo { title, action: FixAction::TextEdits(infos) });
            }
            proof {
                if groups.len() > 0 {
                    assert(changes.deep_view()->0[0] == groups@[0].deep_view());
                }
            }
        },
        None => {},
    }
    match command {
        Some(command) => Some(
            FixInfo {
                title,
                action: FixAction::Command {
                    command: command.command,
                    arguments: command.arguments,
                },
            },
        ),
        None => None,
    }
}

/// The fixes for a list of code actions, given by their parts.
pub fn fixes_for(content: &str, actions: Vec<ActionParts>) -> (fixes: Vec<FixInfo>)
    ensures
        fixes.deep_view() == fixes_of(encode_utf8(content@), actions.deep_view()),
{
    let mut fixes: Vec<FixInfo> = Vec::new();
    let mut actions = actions;
    let ghost given = actions.deep_view();
    // The actions are taken from the back, which needs no copy, and the
    // fixes are put in their order afterwards.
    let mut found: Vec<Option<FixInfo>> = Vec::new();
    while actions.len() > 0
        invariant
            actions.len() + found.len() == given.len(),
            actions.deep_view() == given.take(actions.len() as int),
            forall|k: int|
                0 <= k < found.len() ==> (#[trigger] found@[k]).deep_view() == fix_of(
                    encode_utf8(content@),
                    given[given.len() - 1 - k],
                ),
        decreases actions.len(),
    {
        let ghost before = actions.deep_view();
        let parts = actions.pop().unwrap();
        proof {
            assert(parts@ == before.last());
            assert(actions.deep_view() =~= given.take(actions.len() as int));
        }
        let fix = fix_for(content, parts);
        found.push(fix);
    }
    proof {
        assert(given.take(0) =~= Seq::empty());
    }
    while found.len() > 0
        invariant
            found.len() <= given.len(),
            fixes.deep_view() == fixes_of(
                encode_utf8(content@),
                given.take(given.len() - found.len()),
            ),
            forall|k: int|
                0 <= k < found.len() ==> (#[trigger] found@[k]).deep_view() == fix_of(
                    encode_utf8(content@),
                    given[given.len() - 1 - k],
                ),
        decreases found.len(),
    {
        let ghost done = given.take(given.len() - found.len());
        let ghost next = given.take(given.len() - found.len() + 1);
        let ghost held = fixes.deep_view();
        let fix = found.pop().unwrap();
        proof {
            assert(next.drop_last() =~= done);
            assert(next.last() == given[given.len() - 1 - found.len()]);
            assert(fixes_of(encode_utf8(content@), next) == next.filter_map(
                |parts: ActionPartsView| fix_of(encode_utf8(content@), parts),
            ));
            assert(fixes_of(encode_utf8(content@), done) == done.filter_map(
                |parts: ActionPartsView| fix_of(encode_utf8(content@), parts),
            ));
        }
        match fix {
            Some(fix) => {
                fixes.push(fix);
                proof {
                    assert(fixes.deep_view() =~= held + seq![fix@]);
                }
            },
            None => {},
        }
    }
    proof {
        assert(given.take(given.len() as int) =~= given);
    }
    fixes
}

/// Room kept to the left of a line for the mark of the selected fix.
pub const LEFT_PADDING: u16 = 2;

/// How many fixes the menu shows at most.
pub const MAX_HEIGHT: u16 = 10;

/// What the menu says when it has no fix to offer.
pub const NO_FIXES: &'static str = "No fixes available";

/// What stands between two lines of the menu.
pub const LINE_BREAK: &'static str = "\r\n";

/// What the menu is told to do.
#[derive(Debug, Clone, Copy, PartialEq, Eq, Structural)]
pub enum MenuEvent {
    /// Open the menu; the flag says whether to complete at once.
    Activate(bool),
    /// Close the menu.
    Deactivate,
    /// The line was edited; the flag says whether to complete at once.
    Edit(bool),
    /// Select the next fix.
    NextElement,
    /// Select the fix before.
    PreviousElement,
    /// Move up.
    MoveUp,
    /// Move down.
    MoveDown,
    /// Move left.
    MoveLeft,
    /// Move right.
    MoveRight,
    /// Go to the page before.
    PreviousPage,
    /// Go to the next page.
    NextPage,
}

/// What turns text into text that carries its colours.
pub trait Highlighter {
    /// `line`, with the escape sequences that colour it; `cursor` is the
    /// offset of the cursor in it.
    fn highlight(&self, line: &str, cursor: usize) -> String;
}

/// Leaves text as it is.
#[derive(Debug, Clone, Copy)]
pub struct NoHighlighter;

impl Highlighter for NoHighlighter {
    fn highlight(&self, line: &str, cursor: usize) -> (out: String)
        ensures
            out@ == line@,
    {
        line.to_owned()
    }
}

/// The replacement that a line of the menu shows: that of the one edit of a
/// fix with one edit, and none for any other fix.
pub open spec fn shown_replacement(fix: FixInfoView) -> Seq<char> {
    match fix.action {
        FixActionView::TextEdits(edits) => if edits.len() == 1 {
            edits[0].replacement
        } else {
            Seq::empty()
        },
        FixActionView::Command { .. } => Seq::empty(),
    }
}

/// The text that a deletion strikes out: the original of the one edit of a
/// fix with one edit.
pub open spec fn shown_original(fix: FixInfoView) -> Seq<char> {
    match fix.action {
        FixActionView::TextEdits(edits) => if edits.len() == 1 {
            edits[0].original
        } else {
            Seq::empty()
        },
        FixActionView::Command { .. } => Seq::empty(),
    }
}

/// Whether the line of a fix shows a replacement, which may be highlighted.
pub open spec fn shows_replacement(fix: FixInfoView) -> bool {
    shown_replacement(fix).len() > 0
}

/// Whether the line of a fix shows nothing but the title: the fix is a
/// command, or it has several edits.
pub open spec fn shows_title_only(fix: FixInfoView) -> bool {
    match fix.action {
        FixActionView::TextEdits(edits) => edits.len() > 1,
        FixActionView::Command { .. } => true,
    }
}

/// The line of a fix. It begins with the mark of the selected fix or with as
/// much room. A fix that shows only its title follows with the title. A
/// deletion follows with the text it deletes, struck out, and the title in
/// brackets; a replacement with the replacement as `styled` gives it, and
/// the title in brackets. With colouring the title is italic. The line ends
/// with the reset.
pub open spec fn fix_line(selected: bool, coloured: bool, fix: FixInfoView, styled: Seq<char>)
    -> Seq<char> {
    let mark = if selected {
        "> "@
    } else {
        "  "@
    };
    let title = prefix_text(coloured, false);
    if shows_title_only(fix) {
        mark + title + fix.title + RESET@
    } else if shows_replacement(fix) {
        mark + styled + " "@ + title + "("@ + fix.title + ")"@ + RESET@
    } else {
        mark + prefix_text(false, coloured) + shown_original(fix) + suffix_text(false, coloured)
            + " "@ + title + "("@ + fix.title + ")"@ + RESET@
    }
}

/// The line of the fix at `index` of a menu whose selection is at
/// `selected`.
pub open spec fn fix_line_at(
    index: usize,
    selected: usize,
    coloured: bool,
    fix: FixInfoView,
    styled: Seq<char>,
) -> Seq<char> {
    fix_line(index == selected, coloured, fix, styled)
}

/// The line of `fix`, with `styled` for its replacement.
pub fn render_fix_line(selected: bool, coloured: bool, fix: &FixInfo, styled: &str) -> (line:
    String)
    ensures
        line@ == fix_line(selected, coloured, fix@, styled@),
{
    let mut line = if selected {
        "> ".to_owned()
    } else {
        "  ".to_owned()
    };
    let title_style = style_prefix(coloured, false);
    let first: Option<&TextEditInfo> = match &fix.action {
        FixAction::TextEdits(edits) => {
            if edits.len() > 1 {
                line.append(title_style.as_str());
                line.append(fix.title.as_str());
                line.append(reset());
                return line;
            }
            if edits.len() == 1 {
                proof {
                    assert(edits.deep_view()[0] == edits@[0]@);
                }
                Some(&edits[0])
            } else {
                None
            }
        },
        FixAction::Command { .. } => {
            line.append(title_style.as_str());
            line.append(fix.title.as_str());
            line.append(reset());
            return line;
        },
    };
    let (replacement, original) = match first {
        Some(edit) => (edit.replacement.as_str(), edit.original.as_str()),
        None => ("", ""),
    };
    proof {
        reveal_strlit("");
        assert(replacement@ == shown_replacement(fix@));
        assert(original@ == shown_original(fix@));
    }
    if replacement.is_empty() {
        let strike = style_prefix(false, coloured);
        let unstrike = style_suffix(false, coloured);
        line.append(strike.as_str());
        line.append(original);
        line.append(unstrike.as_str());
    } else {
        line.append(styled);
    }
    line.append(" ");
    line.append(title_style.as_str());
    line.append("(");
    line.append(fix.title.as_str());
    line.append(")");
    line.append(reset());
    line
}

/// How many fixes are scrolled out above the first line once the selection
/// has moved on to `selected`: a selection below the last line comes to
/// stand on it, one above the first line on the first, and any other leaves
/// the lines where they are.
pub open spec fn scrolled_forward(selected: usize, skip_values: usize, max_height: u16) -> usize {
    let keep = if max_height >= 1 {
        max_height - 1
    } else {
        0
    };
    if selected >= skip_values + max_height {
        if selected >= keep {
            (selected - keep) as usize
        } else {
            0
        }
    } else if selected < skip_values {
        selected
    } else {
        skip_values
    }
}

/// The menu as the contracts see it.
pub struct MenuView {
    /// Whether the menu is open.
    pub active: bool,
    /// The fixes on offer.
    pub fixes: Seq<FixInfoView>,
    /// The index of the selected fix.
    pub selected: usize,
    /// How many fixes are scrolled out above the first line.
    pub skip_values: usize,
    /// The column at which the lines begin.
    pub space_left: u16,
    /// The column of the cursor, as the painter gave it.
    pub cursor_col: u16,
    /// How many fixes are shown at most.
    pub max_height: u16,
    /// The column in the buffer at which the text to replace begins.
    pub anchor_col: u16,
    /// Whether the menu can have commands executed.
    pub has_sender: bool,
}

impl MenuView {
    /// The selection points at a fix, or at the first place of an empty
    /// list.
    pub open spec fn wf(self) -> bool {
        self.selected == 0 || self.selected < self.fixes.len()
    }

    /// The selected fix, if there is one.
    pub open spec fn selected_fix(self) -> Option<FixInfoView> {
        if self.selected < self.fixes.len() {
            Some(self.fixes[self.selected as int])
        } else {
            None
        }
    }

    /// The command that applying the selected fix sends to the worker: that
    /// of a fix with a command, when the menu has a handle to send it
    /// through, and none else.
    pub open spec fn command_to_send(self) -> Option<ServerCommandView> {
        match self.selected_fix() {
            Some(fix) => match fix.action {
                FixActionView::Command { command, arguments } => if self.has_sender {
                    Some(ServerCommandView { command, arguments })
                } else {
                    None
                },
                FixActionView::TextEdits(_) => None,
            },
            None => None,
        }
    }

    /// The menu after the selection has moved one fix on, around the end,
    /// and the lines have scrolled so that a selection below the last line
    /// comes to stand on it and one above the first line on the first.
    pub open spec fn select_next(self) -> MenuView {
        if self.fixes.len() == 0 {
            self
        } else {
            let selected = ((self.selected + 1) % (self.fixes.len() as int)) as usize;
            let skip_values = scrolled_forward(selected, self.skip_values, self.max_height);
            MenuView { selected, skip_values, ..self }
        }
    }

    /// The menu after the selection has moved one fix back, around the
    /// start, and the lines have scrolled up to a selection above them.
    pub open spec fn select_previous(self) -> MenuView {
        if self.fixes.len() == 0 {
            self
        } else {
            let selected = if self.selected == 0 {
                (self.fixes.len() - 1) as usize
            } else {
                (self.selected - 1) as usize
            };
            let skip_values = if selected < self.skip_values {
                selected
            } else {
                self.skip_values
            };
            MenuView { selected, skip_values, ..self }
        }
    }

    /// The menu after an event.
    pub open spec fn on_event(self, event: MenuEvent) -> MenuView {
        match event {
            MenuEvent::Activate(_) => MenuView {
                active: true,
                selected: 0,
                skip_values: 0,
                ..self
            },
            MenuEvent::Deactivate => MenuView { active: false, ..self },
            MenuEvent::NextElement | MenuEvent::MoveDown => self.select_next(),
            MenuEvent::PreviousElement | MenuEvent::MoveUp => self.select_previous(),
            _ => self,
        }
    }

    /// How many lines the menu shows when it may take `available_lines`.
    pub open spec fn visible_count(self, available_lines: u16) -> int {
        let room = if available_lines < self.max_height {
            available_lines as int
        } else {
            self.max_height as int
        };
        let left = if self.skip_values < self.fixes.len() {
            self.fixes.len() - self.skip_values
        } else {
            0
        };
        if room < left {
            room
        } else {
            left
        }
    }

    /// Whether `lines` are the lines of the menu: one for each fix shown,
    /// each moved right to the column where the lines begin. Where the
    /// lines are `plain`, a replacement is shown as it is; else it is shown
    /// as the highlighter gave it.
    pub open spec fn shows(
        self,
        lines: Seq<Seq<char>>,
        available_lines: u16,
        coloured: bool,
        plain: bool,
    ) -> bool {
        &&& lines.len() == self.visible_count(available_lines)
        &&& forall|k: int|
            0 <= k < lines.len() ==> self.shows_line(#[trigger] lines[k], k, coloured, plain)
    }

    /// Whether `line` is line `k` of the menu.
    pub open spec fn shows_line(self, line: Seq<char>, k: int, coloured: bool, plain: bool)
        -> bool {
        exists|styled: Seq<char>|
            {
                &&& #[trigger] self.line_with(k, coloured, styled) == line
                &&& plain ==> styled == shown_replacement(self.fixes[self.skip_values + k])
            }
    }

    /// Line `k` of the menu, with `styled` for the replacement it shows.
    pub open spec fn line_with(self, k: int, coloured: bool, styled: Seq<char>) -> Seq<char> {
        spaces(self.space_left as nat) + fix_line(
            self.skip_values + k == self.selected,
            coloured,
            self.fixes[self.skip_values + k],
            styled,
        )
    }

    /// The column at which the lines begin: the column of the cursor, less
    /// the width of the text before it, plus the column of the anchor, less
    /// the room for the mark; none of the steps leaves the range of a
    /// column.
    pub open spec fn space_left_for(self, before_cursor: u16) -> u16 {
        let prompt = if self.cursor_col >= before_cursor {
            self.cursor_col - before_cursor
        } else {
            0
        };
        let anchored = if prompt + self.anchor_col <= u16::MAX {
            prompt + self.anchor_col
        } else {
            u16::MAX as int
        };
        if anchored >= LEFT_PADDING {
            (anchored - LEFT_PADDING) as u16
        } else {
            0
        }
    }
}

/// The columns that the text before byte `upto` takes, as a column number:
/// its width, cut to sixteen bits. A text that cannot be cut at `upto`
/// counts as having nothing before it.
pub open spec fn columns_before(text: Seq<char>, upto: int) -> u16 {
    if splice_ok(encode_utf8(text), 0, upto) {
        (display_width(decode_utf8(encode_utf8(text).subrange(0, upto))) % 0x10000) as u16
    } else {
        0
    }
}

/// The columns that the text before byte `upto` of `text` takes.
pub fn columns_before_offset(text: &str, upto: usize) -> (columns: u16)
    ensures
        columns == columns_before(text@, upto as int),
{
    match slice(text, 0, upto) {
        Some(before) => {
            proof {
                encode_utf8_decode_utf8(before@);
            }
            (width(before) % 0x10000) as u16
        },
        None => 0,
    }
}

/// The menu of fixes.
///
/// Fixes are shown one to a line: `> replacement (title)` for the selected
/// one, the others with room in place of the mark.
pub struct DiagnosticFixMenu {
    active: bool,
    fixes: Vec<FixInfo>,
    selected: usize,
    skip_values: usize,
    space_left: u16,
    cursor_col: u16,
    max_height: u16,
    anchor_col: u16,
    command_sender: Option<LspCommandSender>,
}

impl View for DiagnosticFixMenu {
    type V = MenuView;

    closed spec fn view(&self) -> MenuView {
        MenuView {
            active: self.active,
            fixes: self.fixes.deep_view(),
            selected: self.selected,
            skip_values: self.skip_values,
            space_left: self.space_left,
            cursor_col: self.cursor_col,
            max_height: self.max_height,
            anchor_col: self.anchor_col,
            has_sender: self.command_sender is Some,
        }
    }
}

impl Default for DiagnosticFixMenu {
    fn default() -> (menu: Self)
        ensures
            menu@ == (MenuView {
                active: false,
                fixes: Seq::empty(),
                selected: 0,
                skip_values: 0,
                space_left: 0,
                cursor_col: 0,
                max_height: MAX_HEIGHT,
                anchor_col: 0,
                has_sender: false,
            }),
    {
        let menu = DiagnosticFixMenu {
            active: false,
            fixes: Vec::new(),
            selected: 0,
            skip_values: 0,
            space_left: 0,
            cursor_col: 0,
            max_height: MAX_HEIGHT,
            anchor_col: 0,
            command_sender: None,
        };
        assert(menu.fixes.deep_view() =~= Seq::empty());
        menu
    }
}

impl DiagnosticFixMenu {
    #[verifier::type_invariant]
    spec fn selection_in_range(self) -> bool {
        self.selected == 0 || self.selected < self.fixes.len()
    }

    /// The index of the selected fix. It always points at a fix, or at the
    /// first place of an empty list.
    pub fn selected_index(&self) -> (index: usize)
        ensures
            index == self@.selected,
            self@.wf(),
    {
        proof {
            use_type_invariant(self);
        }
        self.selected
    }

    /// Replaces the fixes by those for the code actions given by their
    /// parts, whose ranges are taken in `content`, and selects the first.
    pub fn set_fix_list(&mut self, actions: Vec<ActionParts>, content: &str, anchor_col: u16)
        ensures
            final(self)@ == (MenuView {
                fixes: fixes_of(encode_utf8(content@), actions.deep_view()),
                selected: 0,
                skip_values: 0,
                anchor_col,
                ..old(self)@
            }),
    {
        proof {
            use_type_invariant(&*self);
        }
        let fixes = fixes_for(content, actions);
        self.selected = 0;
        self.skip_values = 0;
        self.anchor_col = anchor_col;
        self.fixes = fixes;
    }

    /// Replaces the fixes by those for `actions`, whose ranges are taken in
    /// `content`, and selects the first.
    ///
    /// Of each action the title, the edits and the command are read. An
    /// action with edits for its first document becomes a fix that applies
    /// them, one without such edits and with a command a fix that has the
    /// command executed, and one with neither is left out.
    pub fn set_fixes(&mut self, actions: Vec<CodeAction>, content: &str, anchor_col: u16)
        ensures
            exists|parts: Seq<ActionPartsView>|
                {
                    &&& read_from(actions@, parts)
                    &&& final(self)@ == (MenuView {
                        fixes: #[trigger] fixes_of(encode_utf8(content@), parts),
                        selected: 0,
                        skip_values: 0,
                        anchor_col,
                        ..old(self)@
                    })
                },
    {
        let mut parts: Vec<ActionParts> = Vec::new();
        let mut i: usize = 0;
        while i < actions.len()
            invariant
                i <= actions.len(),
                parts.len() == i,
                forall|k: int| 0 <= k < i ==> reads(actions@[k], #[trigger] parts@[k]@),
            decreases actions.len() - i,
        {
            parts.push(parts_for(&actions[i]));
            i = i + 1;
        }
        proof {
            assert forall|k: int| 0 <= k < actions@.len() implies reads(
                actions@[k],
                #[trigger] parts.deep_view()[k],
            ) by {
                assert(parts.deep_view()[k] == parts@[k]@);
            }
        }
        self.set_fix_list(parts, content, anchor_col);
    }

    /// Whether there is a fix on offer.
    pub fn has_fixes(&self) -> (yes: bool)
        ensures
            yes == (self@.fixes.len() > 0),
    {
        self.fixes.len() > 0
    }

    /// Gives the menu the handle through which commands are executed.
    pub fn set_command_sender(&mut self, sender: LspCommandSender)
        ensures
            final(self)@ == (MenuView { has_sender: true, ..old(self)@ }),
    {
        proof {
            use_type_invariant(&*self);
        }
        self.command_sender = Some(sender);
    }

    /// The selected fix, if there is one.
    pub fn get_selected_fix(&self) -> (fix: Option<&FixInfo>)
        ensures
            fix.deep_view() == self@.selected_fix(),
    {
        if self.selected < self.fixes.len() {
            proof {
                assert(self.fixes.deep_view()[self.selected as int]
                    == self.fixes@[self.selected as int]@);
            }
            Some(&self.fixes[self.selected])
        } else {
            None
        }
    }

    /// The line of `fix`, which stands at `index`. With colouring and a
    /// highlighter, a replacement is shown as the highlighter gives it.
    pub fn format_fix_line<H: Highlighter>(
        &self,
        fix: &FixInfo,
        index: usize,
        use_ansi_coloring: bool,
        highlighter: Option<&H>,
    ) -> (line: String)
        ensures
            exists|styled: Seq<char>|
                {
                    &&& line@ == #[trigger] fix_line_at(
                        index,
                        self@.selected,
                        use_ansi_coloring,
                        fix@,
                        styled,
                    )
                    &&& (highlighter is None || !use_ansi_coloring) ==> styled
                        == shown_replacement(fix@)
                },
    {
        let replacement: &str = match &fix.action {
            FixAction::TextEdits(edits) => {
                if edits.len() == 1 {
                    proof {
                        assert(edits.deep_view()[0] == edits@[0]@);
                    }
                    edits[0].replacement.as_str()
                } else {
                    ""
                }
            },
            FixAction::Command { .. } => "",
        };
        proof {
            reveal_strlit("");
            assert(replacement@ == shown_replacement(fix@));
        }
        let styled: String = if replacement.is_empty() || !use_ansi_coloring {
            replacement.to_owned()
        } else {
            match highlighter {
                Some(highlighter) => highlighter.highlight(
                    replacement,
                    replacement.as_bytes().len(),
                ),
                None => replacement.to_owned(),
            }
        };
        let line = render_fix_line(
            index == self.selected,
            use_ansi_coloring,
            fix,
            styled.as_str(),
        );
        proof {
            let shown = if shows_replacement(fix@) {
                styled@
            } else {
                shown_replacement(fix@)
            };
            assert(line@ == fix_line_at(index, self@.selected, use_ansi_coloring, fix@, shown));
        }
        line
    }

    /// Moves the selection one fix on, and around the end to the first.
    pub fn select_next(&mut self)
        ensures
            final(self)@ == old(self)@.select_next(),
    {
        proof {
            use_type_invariant(&*self);
        }
        let len = self.fixes.len();
        if len == 0 {
            return ;
        }
        let selected = if self.selected + 1 >= len {
            0
        } else {
            self.selected + 1
        };
        assert(selected == (self.selected + 1) % (len as int)) by {
            if self.selected + 1 >= len {
                vstd::arithmetic::div_mod::lemma_mod_self_0(len as int);
            } else {
                vstd::arithmetic::div_mod::lemma_small_mod((self.selected + 1) as nat, len as nat);
            }
        }
        self.selected = selected;
        self.adjust_scroll_forward();
    }

    /// Moves the selection one fix back, and around the start to the last.
    pub fn select_previous(&mut self)
        ensures
            final(self)@ == old(self)@.select_previous(),
    {
        proof {
            use_type_invariant(&*self);
        }
        let len = self.fixes.len();
        if len == 0 {
            return ;
        }
        self.selected = if self.selected == 0 {
            len - 1
        } else {
            self.selected - 1
        };
        self.adjust_scroll_backward();
    }

    fn adjust_scroll_forward(&mut self)
        ensures
            final(self)@ == (MenuView {
                skip_values: scrolled_forward(
                    old(self)@.selected,
                    old(self)@.skip_values,
                    old(self)@.max_height,
                ),
                ..old(self)@
            }),
    {
        proof {
            use_type_invariant(&*self);
        }
        let visible: usize = self.max_height as usize;
        let below = match self.skip_values.checked_add(visible) {
            Some(end) => self.selected >= end,
            None => false,
        };
        if below {
            let keep: usize = if visible >= 1 {
                visible - 1
            } else {
                0
            };
            self.skip_values = if self.selected >= keep {
                self.selected - keep
            } else {
                0
            };
        } else if self.selected < self.skip_values {
            self.skip_values = self.selected;
        }
    }

    fn adjust_scroll_backward(&mut self)
        ensures
            final(self)@ == (MenuView {
                skip_values: if old(self)@.selected < old(self)@.skip_values {
                    old(self)@.selected
                } else {
                    old(self)@.skip_values
                },
                ..old(self)@
            }),
    {
        proof {
            use_type_invariant(&*self);
        }
        if self.selected < self.skip_values {
            self.skip_values = self.selected;
        }
    }

    /// Whether the menu is open.
    pub fn is_active(&self) -> (active: bool)
        ensures
            active == self@.active,
    {
        self.active
    }

    /// The menu completes at once when it is asked to.
    pub fn can_quick_complete(&self) -> (yes: bool)
        ensures
            yes,
    {
        true
    }

    /// The menu has no common prefix to complete.
    pub fn can_partially_complete(&mut self, values_updated: bool) -> (yes: bool)
        ensures
            !yes,
            final(self)@ == old(self)@,
    {
        false
    }

    /// Opens or closes the menu, or moves the selection.
    pub fn menu_event(&mut self, event: MenuEvent)
        ensures
            final(self)@ == old(self)@.on_event(event),
    {
        proof {
            use_type_invariant(&*self);
        }
        match event {
            MenuEvent::Activate(_) => {
                self.active = true;
                self.selected = 0;
                self.skip_values = 0;
            },
            MenuEvent::Deactivate => {
                self.active = false;
            },
            MenuEvent::NextElement | MenuEvent::MoveDown => self.select_next(),
            MenuEvent::PreviousElement | MenuEvent::MoveUp => self.select_previous(),
            _ => {},
        }
    }

    /// Works out the column at which the lines begin, from the buffer and
    /// the column of the cursor.
    pub fn update_working_details(&mut self, line_buffer: &LineBuffer)
        ensures
            final(self)@ == (MenuView {
                space_left: old(self)@.space_left_for(
                    columns_before(
                        line_buffer.text(),
                        clamp(line_buffer.cursor() as int, line_buffer.bytes().len() as int),
                    ),
                ),
                ..old(self)@
            }),
    {
        proof {
            use_type_invariant(&*self);
        }
        let text = line_buffer.get_buffer();
        let len = text.as_bytes().len();
        let at = if line_buffer.insertion_point() <= len {
            line_buffer.insertion_point()
        } else {
            len
        };
        let before_cursor = columns_before_offset(text, at);
        let prompt: u16 = if self.cursor_col >= before_cursor {
            self.cursor_col - before_cursor
        } else {
            0
        };
        let anchored: u16 = if prompt <= u16::MAX - self.anchor_col {
            prompt + self.anchor_col
        } else {
            u16::MAX
        };
        self.space_left = if anchored >= LEFT_PADDING {
            anchored - LEFT_PADDING
        } else {
            0
        };
    }

    /// The command that applying the selected fix sends to the worker: that
    /// of a fix with a command, when the menu has a handle to send it
    /// through, and none else.
    pub fn command_to_send(&self) -> (command: Option<ServerCommand>)
        ensures
            command.deep_view() == self@.command_to_send(),
    {
        if self.command_sender.is_none() {
            return None;
        }
        match self.get_selected_fix() {
            Some(fix) => match &fix.action {
                FixAction::Command { command, arguments } => Some(
                    ServerCommand { command: command.clone(), arguments: arguments.clone() },
                ),
                FixAction::TextEdits(_) => None,
            },
            None => None,
        }
    }

    /// Applies the selected fix.
    ///
    /// A fix with edits changes the buffer: the edits are applied from the
    /// highest start offset down, and the cursor goes behind the replacement
    /// of the edit that starts lowest. When one of the edits cannot be
    /// applied, the buffer stays as it is. A fix with a command leaves the
    /// buffer alone; what [`DiagnosticFixMenu::command_to_send`] gives is
    /// offered to the worker, once and without waiting. Without a selected
    /// fix nothing happens.
    pub fn replace_in_buffer(&self, editor: &mut LineBuffer)
        ensures
            match self@.selected_fix() {
                Some(fix) => match fix.action {
                    FixActionView::TextEdits(edits) => match apply_all(
                        old(editor).bytes(),
                        descending(edits),
                    ) {
                        Some(bytes) => {
                            &&& final(editor).bytes() == bytes
                            &&& final(editor).cursor() == cursor_after(
                                descending(edits),
                                old(editor).cursor(),
                                bytes.len(),
                            )
                        },
                        None => *final(editor) == *old(editor),
                    },
                    FixActionView::Command { .. } => *final(editor) == *old(editor),
                },
                None => *final(editor) == *old(editor),
            },
    {
        match self.command_to_send() {
            Some(command) => match &self.command_sender {
                Some(sender) => sender.execute_command(command.command, command.arguments),
                None => {},
            },
            None => {},
        }
        let fix = match self.get_selected_fix() {
            Some(fix) => fix,
            None => {
                return ;
            },
        };
        match &fix.action {
            FixAction::TextEdits(edits) => {
                let applied = apply_text_edits(
                    editor.get_buffer(),
                    editor.insertion_point(),
                    edits,
                );
                match applied {
                    Some((text, cursor)) => {
                        editor.set_buffer(text);
                        editor.set_insertion_point(cursor);
                    },
                    None => {},
                }
            },
            FixAction::Command { .. } => {},
        }
    }

    /// How many rows the menu would like: one for each fix, as a row count
    /// of sixteen bits.
    pub fn min_rows(&self) -> (rows: u16)
        ensures
            rows == self@.fixes.len() % 0x10000,
    {
        (self.fixes.len() % 0x10000) as u16
    }

    /// How many rows the menu takes: one for each fix, and no more than its
    /// height.
    pub fn menu_required_lines(&self, terminal_columns: u16) -> (rows: u16)
        ensures
            rows == if self@.fixes.len() % 0x10000 < self@.max_height {
                self@.fixes.len() % 0x10000
            } else {
                self@.max_height as nat
            },
    {
        let rows = self.min_rows();
        if rows < self.max_height {
            rows
        } else {
            self.max_height
        }
    }

    /// The text of the menu without highlighting.
    pub fn menu_string(&self, available_lines: u16, use_ansi_coloring: bool) -> (out: String)
        ensures
            self@.fixes.len() == 0 ==> out@ == NO_FIXES@,
            self@.fixes.len() > 0 ==> exists|lines: Seq<Seq<char>>|
                {
                    &&& out@ == #[trigger] joined(lines, LINE_BREAK@)
                    &&& self@.shows(lines, available_lines, use_ansi_coloring, true)
                },
    {
        let none: Option<&NoHighlighter> = None;
        self.menu_string_with_highlighter(available_lines, use_ansi_coloring, none)
    }

    /// The text of the menu: the lines of the fixes from the first one not
    /// scrolled out, as many as fit into `available_lines` and the height of
    /// the menu, with a line break between each two.
    pub fn menu_string_with_highlighter<H: Highlighter>(
        &self,
        available_lines: u16,
        use_ansi_coloring: bool,
        highlighter: Option<&H>,
    ) -> (out: String)
        ensures
            self@.fixes.len() == 0 ==> out@ == NO_FIXES@,
            self@.fixes.len() > 0 ==> exists|lines: Seq<Seq<char>>|
                {
                    &&& out@ == #[trigger] joined(lines, LINE_BREAK@)
                    &&& self@.shows(
                        lines,
                        available_lines,
                        use_ansi_coloring,
                        highlighter is None || !use_ansi_coloring,
                    )
                },
    {
        if self.fixes.len() == 0 {
            return NO_FIXES.to_owned();
        }
        let room: usize = if available_lines < self.max_height {
            available_lines as usize
        } else {
            self.max_height as usize
        };
        let left: usize = if self.skip_values < self.fixes.len() {
            self.fixes.len() - self.skip_values
        } else {
            0
        };
        let count: usize = if room < left {
            room
        } else {
            left
        };
        let ghost plain = highlighter is None || !use_ansi_coloring;
        let mut lines: Vec<String> = Vec::new();
        let mut k: usize = 0;
        while k < count
            invariant
                k <= count,
                count == self@.visible_count(available_lines),
                count <= 0xffff,
                count == 0 || self.skip_values + count <= self.fixes.len(),
                plain == (highlighter is None || !use_ansi_coloring),
                lines.len() == k,
                forall|j: int|
                    0 <= j < k ==> self@.shows_line(
                        #[trigger] lines.deep_view()[j],
                        j,
                        use_ansi_coloring,
                        plain,
                    ),
            decreases count - k,
        {
            let index = self.skip_values + k;
            let fix = &self.fixes[index];
            let shown = self.format_fix_line(fix, index, use_ansi_coloring, highlighter);
            let mut line = padding(self.space_left as usize);
            line.append(shown.as_str());
            proof {
                assert(self@.fixes[self.skip_values + k] == fix@);
                let styled = choose|styled: Seq<char>|
                    {
                        &&& shown@ == #[trigger] fix_line_at(
                            index,
                            self@.selected,
                            use_ansi_coloring,
                            fix@,
                            styled,
                        )
                        &&& (highlighter is None || !use_ansi_coloring) ==> styled
                            == shown_replacement(fix@)
                    };
                assert(self@.line_with(k as int, use_ansi_coloring, styled) == line@);
                assert(self@.shows_line(line@, k as int, use_ansi_coloring, plain));
            }
            let ghost before = lines.deep_view();
            lines.push(line);
            proof {
                assert(lines.deep_view() =~= before.push(line@));
            }
            k = k + 1;
        }
        proof {
            reveal_strlit("\r\n");
            is_ascii_chars_encode_utf8(LINE_BREAK@);
            assert(self@.shows(lines.deep_view(), available_lines, use_ansi_coloring, plain));
        }
        join(&lines, LINE_BREAK)
    }

    /// Takes the position of the cursor from the painter; the column is
    /// kept.
    pub fn set_cursor_pos(&mut self, pos: (u16, u16))
        ensures
            final(self)@ == (MenuView { cursor_col: pos.0, ..old(self)@ }),
    {
        proof {
            use_type_invariant(&*self);
        }
        self.cursor_col = pos.0;
    }
}

} // verus!
