//! What the line editor asks of the client: the fix menu for the place of the
//! cursor, and the width that a prompt takes on the screen.

use super::client::{
    answers_code_actions, LspCommandView, LspDiagnosticsProvider, LspResponse, ProviderModel,
};
use super::diagnostic::{range_to_span, span_of, Range, Span};
use super::json::{diagnostic_range, range_in};
use crate::menu::diagnostic_fix_menu::{
    columns_before, columns_before_offset, fixes_of, read_from, ActionPartsView,
    DiagnosticFixMenu, MenuEvent, MenuView, MAX_HEIGHT,
};
use crate::text::{display_width, strip_ansi, visible, width};
use lsp_types::CodeAction;
use vstd::prelude::*;
use vstd::utf8::*;

verus! {

/// The span for which code actions are asked when the cursor stands at
/// `cursor`: that of the first range from `from` on whose span holds the
/// cursor, its end counted in, and the empty span at the cursor when there
/// is no such range.
pub open spec fn span_for_cursor(content: Seq<u8>, ranges: Seq<Range>, cursor: usize, from: int)
    -> Span
    decreases ranges.len() - from,
{
    if from < 0 || from >= ranges.len() {
        Span { start: cursor, end: cursor }
    } else if span_of(content, ranges[from]).start <= cursor <= span_of(
        content,
        ranges[from],
    ).end {
        span_of(content, ranges[from])
    } else {
        span_for_cursor(content, ranges, cursor, from + 1)
    }
}

/// The span for which code actions are asked when the cursor stands at
/// `cursor_pos` and the diagnostics have these ranges.
pub fn span_at_cursor(content: &str, ranges: &Vec<Range>, cursor_pos: usize) -> (span: Span)
    ensures
        span == span_for_cursor(encode_utf8(content@), ranges@, cursor_pos, 0),
{
    let mut i: usize = 0;
    while i < ranges.len()
        invariant
            i <= ranges.len(),
            span_for_cursor(encode_utf8(content@), ranges@, cursor_pos, 0) == span_for_cursor(
                encode_utf8(content@),
                ranges@,
                cursor_pos,
                i as int,
            ),
        decreases ranges.len() - i,
    {
        let span = range_to_span(content, &ranges[i]);
        if span.start <= cursor_pos && cursor_pos <= span.end {
            return span;
        }
        i = i + 1;
    }
    Span::new(cursor_pos, cursor_pos)
}

/// The width that a prompt takes on the screen: that of the last line of
/// its left part and that of its indicator, each without its escape
/// sequences, which take no room. The sum stops at the largest number.
pub fn prompt_width(last_prompt_line: &str, prompt_indicator: &str) -> (columns: usize)
    ensures
        columns == if display_width(visible(last_prompt_line@)) + display_width(
            visible(prompt_indicator@),
        ) <= usize::MAX {
            display_width(visible(last_prompt_line@)) + display_width(visible(prompt_indicator@))
        } else {
            usize::MAX as nat
        },
{
    let left = width(strip_ansi(last_prompt_line).as_str());
    let indicator = width(strip_ansi(prompt_indicator).as_str());
    if left <= usize::MAX - indicator {
        left + indicator
    } else {
        usize::MAX
    }
}

/// Whether `menu` is what a request for the fix menu comes to, when `news`
/// is taken in first, `ranges` are the ranges of the diagnostics held after
/// that, the responses `more` come in while the code actions are awaited,
/// `actions` are the answer and `parts` is what the menu reads of them.
///
/// The request is for the span of the first diagnostic that holds the
/// cursor, or for the place of the cursor itself. No code actions give no
/// menu. Else the menu is open, holds the fixes for the actions with the
/// first one selected, is anchored at the column where the span starts, and
/// can have commands executed.
pub open spec fn menu_opened(
    before: ProviderModel,
    after: ProviderModel,
    cursor: usize,
    content: Seq<char>,
    menu: Option<DiagnosticFixMenu>,
    ranges: Seq<Range>,
    news: Seq<LspResponse>,
    more: Seq<LspResponse>,
    actions: Vec<CodeAction>,
    parts: Seq<ActionPartsView>,
) -> bool {
    let span = span_for_cursor(encode_utf8(content), ranges, cursor, 0);
    &&& ranges.len() == before.hear(news).diagnostics.len()
    &&& forall|i: int|
        0 <= i < ranges.len() ==> #[trigger] ranges[i] == range_in(
            before.hear(news).diagnostics[i],
        )
    &&& after == before.hear(news).offer(LspCommandView::RequestCodeActions { content, span }).hear(
        more,
    )
    &&& answers_code_actions(more, actions)
    &&& read_from(actions@, parts)
    &&& match menu {
        None => actions@.len() == 0,
        Some(menu) => actions@.len() > 0 && menu@ == (MenuView {
            active: true,
            fixes: fixes_of(encode_utf8(content), parts),
            selected: 0,
            skip_values: 0,
            space_left: 0,
            cursor_col: 0,
            max_height: MAX_HEIGHT,
            anchor_col: columns_before(content, span.start as int),
            has_sender: true,
        }),
    }
}

/// The fix menu for the place of the cursor.
///
/// The responses that are waiting are taken in first. Code actions are then
/// asked for the diagnostic under the cursor, or for the place of the cursor
/// when no diagnostic is under it, and awaited for a short time. When there
/// are none, there is no menu.
pub fn create_diagnostic_fix_menu(
    provider: &mut LspDiagnosticsProvider,
    cursor_pos: usize,
    content: &str,
) -> (menu: Option<DiagnosticFixMenu>)
    ensures
        exists|
            ranges: Seq<Range>,
            news: Seq<LspResponse>,
            more: Seq<LspResponse>,
            actions: Vec<CodeAction>,
            parts: Seq<ActionPartsView>,
        |
            menu_opened(
                old(provider).model(),
                final(provider).model(),
                cursor_pos,
                content@,
                menu,
                ranges,
                news,
                more,
                actions,
                parts,
            ),
{
    let mut ranges: Vec<Range> = Vec::new();
    let diagnostics = provider.diagnostics();
    let mut i: usize = 0;
    while i < diagnostics.len()
        invariant
            i <= diagnostics.len(),
            ranges.len() == i,
            forall|k: int| 0 <= k < i ==> #[trigger] ranges@[k] == range_in(diagnostics@[k]),
        decreases diagnostics.len() - i,
    {
        ranges.push(diagnostic_range(&diagnostics[i]));
        i = i + 1;
    }
    let ghost polled = provider.model();
    let ghost news = choose|news: Seq<LspResponse>| polled == old(provider).model().hear(news);
    let span = span_at_cursor(content, &ranges, cursor_pos);
    let actions = provider.code_actions(content, span);
    let ghost more = choose|more: Seq<LspResponse>|
        {
            &&& provider.model() == polled.offer(
                LspCommandView::RequestCodeActions { content: content@, span },
            ).hear(more)
            &&& #[trigger] answers_code_actions(more, actions)
        };
    if actions.len() == 0 {
        proof {
            assert(menu_opened(
                old(provider).model(),
                provider.model(),
                cursor_pos,
                content@,
                None,
                ranges@,
                news,
                more,
                actions,
                Seq::empty(),
            ));
        }
        return None;
    }
    let anchor_col = columns_before_offset(content, span.start);
    let mut fix_menu = DiagnosticFixMenu::default();
    let ghost fresh = fix_menu@;
    let ghost given = actions;
    fix_menu.set_fixes(actions, content, anchor_col);
    let ghost parts = choose|parts: Seq<ActionPartsView>|
        {
            &&& read_from(given@, parts)
            &&& fix_menu@ == (MenuView {
                fixes: #[trigger] fixes_of(encode_utf8(content@), parts),
                selected: 0,
                skip_values: 0,
                anchor_col,
                ..fresh
            })
        };
    fix_menu.set_command_sender(provider.command_sender());
    fix_menu.menu_event(MenuEvent::Activate(false));
    proof {
        assert(menu_opened(
            old(provider).model(),
            provider.model(),
            cursor_pos,
            content@,
            Some(fix_menu),
            ranges@,
            news,
            more,
            given,
            parts,
        ));
    }
    Some(fix_menu)
}

} // verus!
