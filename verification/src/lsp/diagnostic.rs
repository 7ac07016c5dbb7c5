//! Protocol coordinates and byte spans.

use serde_json::Value;
use vstd::prelude::*;
use vstd::utf8::*;

verus! {

/// A half-open range of byte offsets into one snapshot of a document.
#[derive(Debug, Clone, Copy, PartialEq, Eq, Structural)]
pub struct Span {
    /// Offset of the first byte of the range.
    pub start: usize,
    /// Offset one past the last byte of the range.
    pub end: usize,
}

impl Span {
    /// Whether the span lies inside a snapshot of `len` bytes.
    pub open spec fn within(self, len: nat) -> bool {
        self.start <= self.end <= len
    }

    /// Builds the span from `start` to `end`.
    pub fn new(start: usize, end: usize) -> (span: Span)
        ensures
            span.start == start,
            span.end == end,
    {
        Span { start, end }
    }

    /// Whether `offset` lies in the span, its end included.
    pub fn touches(&self, offset: usize) -> (hit: bool)
        ensures
            hit == (self.start <= offset <= self.end),
    {
        self.start <= offset && offset <= self.end
    }
}

/// A position in protocol coordinates: a line, and a column counted in
/// UTF-16 code units from the start of that line.
#[derive(Debug, Clone, Copy, PartialEq, Eq, Structural)]
pub struct Position {
    /// Zero-based line.
    pub line: u32,
    /// Zero-based column in UTF-16 code units.
    pub character: u32,
}

/// A range in protocol coordinates, from `start` up to `end`.
#[derive(Debug, Clone, Copy, PartialEq, Eq, Structural)]
pub struct Range {
    /// Where the range begins.
    pub start: Position,
    /// Where the range ends.
    pub end: Position,
}

impl Range {
    /// The range from one line and column to another.
    pub fn new(start_line: u32, start_character: u32, end_line: u32, end_character: u32) -> (range:
        Range)
        ensures
            range.start == (Position { line: start_line, character: start_character }),
            range.end == (Position { line: end_line, character: end_character }),
    {
        Range {
            start: Position { line: start_line, character: start_character },
            end: Position { line: end_line, character: end_character },
        }
    }
}

/// One replacement in a document, in protocol coordinates.
#[derive(Debug)]
pub struct TextEdit {
    /// The stretch to replace; empty to insert.
    pub range: Range,
    /// What to put there; empty to delete.
    pub new_text: String,
}

/// A [`TextEdit`] as the contracts see it.
pub struct TextEditView {
    pub range: Range,
    pub new_text: Seq<char>,
}

impl DeepView for TextEdit {
    type V = TextEditView;

    open spec fn deep_view(&self) -> TextEditView {
        TextEditView { range: self.range, new_text: self.new_text@ }
    }
}

impl View for TextEdit {
    type V = TextEditView;

    open spec fn view(&self) -> TextEditView {
        self.deep_view()
    }
}

/// A command that the server runs on request: its name, and arguments that
/// the client hands back unread.
#[derive(Debug)]
pub struct ServerCommand {
    /// The name under which the server knows the command.
    pub command: String,
    /// The arguments, as the server gave them.
    pub arguments: Vec<Value>,
}

/// A [`ServerCommand`] as the contracts see it.
pub struct ServerCommandView {
    pub command: Seq<char>,
    pub arguments: Seq<Value>,
}

impl DeepView for ServerCommand {
    type V = ServerCommandView;

    open spec fn deep_view(&self) -> ServerCommandView {
        ServerCommandView { command: self.command@, arguments: self.arguments@ }
    }
}

impl View for ServerCommand {
    type V = ServerCommandView;

    open spec fn view(&self) -> ServerCommandView {
        self.deep_view()
    }
}

/// Line feed, which ends a line.
pub const LINE_FEED: u8 = 10;

/// The UTF-16 code units of a character, told by the first byte of its
/// UTF-8 encoding: two for a character outside the basic plane, else one.
pub open spec fn utf16_units(lead: u8) -> nat {
    if lead >= 0xf0 {
        2
    } else {
        1
    }
}

/// The offset at which the line `lines` below the one that holds `from`
/// begins, or the length of `text` when it has no such line.
pub open spec fn line_start(text: Seq<u8>, from: int, lines: nat) -> int
    decreases text.len() - from,
{
    if from >= text.len() {
        text.len() as int
    } else if lines == 0 {
        from
    } else if text[from] == LINE_FEED {
        line_start(text, from + 1, (lines - 1) as nat)
    } else {
        line_start(text, from + 1, lines)
    }
}

/// The offset reached from `from` by going right over whole characters, for
/// as long as they fit into `units` UTF-16 code units and the line lasts.
pub open spec fn column_offset(text: Seq<u8>, from: int, units: nat) -> int
    decreases text.len() - from,
{
    if from >= text.len() {
        text.len() as int
    } else if text[from] == LINE_FEED {
        from
    } else if is_continuation_byte(text[from]) {
        column_offset(text, from + 1, units)
    } else if utf16_units(text[from]) > units {
        from
    } else {
        column_offset(text, from + 1, (units - utf16_units(text[from])) as nat)
    }
}

/// The byte offset of a position: the start of its line, then its column to
/// the right. A line that the text does not have gives the end of the text,
/// and a column beyond the end of the line gives the end of the line.
pub open spec fn offset_of(text: Seq<u8>, position: Position) -> int {
    column_offset(text, line_start(text, 0, position.line as nat), position.character as nat)
}

/// The span of a range: from the offset of its start to the offset of its
/// end, and empty at the start when the end lies before it.
pub open spec fn span_of(text: Seq<u8>, range: Range) -> Span {
    let start = offset_of(text, range.start);
    let end = offset_of(text, range.end);
    Span { start: start as usize, end: if end < start { start as usize } else { end as usize } }
}

/// Both searches stay inside the text.
pub proof fn lemma_offsets_in_text(text: Seq<u8>, from: int, count: nat)
    requires
        0 <= from <= text.len(),
    ensures
        from <= line_start(text, from, count) <= text.len(),
        from <= column_offset(text, from, count) <= text.len(),
    decreases text.len() - from,
{
    if from < text.len() {
        lemma_offsets_in_text(text, from + 1, count);
        if count > 0 {
            lemma_offsets_in_text(text, from + 1, (count - 1) as nat);
        }
        if utf16_units(text[from]) <= count {
            lemma_offsets_in_text(text, from + 1, (count - utf16_units(text[from])) as nat);
        }
    }
}

/// A column search that starts between characters ends between characters.
pub proof fn lemma_column_offset_boundary(text: Seq<u8>, from: int, units: nat)
    requires
        valid_utf8(text),
        0 <= from <= text.len(),
    ensures
        is_char_boundary(text, column_offset(text, from, units)),
    decreases text.len() - from,
{
    is_char_boundary_start_end_of_seq(text);
    if from < text.len() {
        is_char_boundary_iff_not_is_continuation_byte(text, from);
        if text[from] == LINE_FEED {
        } else if is_continuation_byte(text[from]) {
            lemma_column_offset_boundary(text, from + 1, units);
        } else if utf16_units(text[from]) > units {
        } else {
            lemma_column_offset_boundary(
                text,
                from + 1,
                (units - utf16_units(text[from])) as nat,
            );
        }
    }
}

/// The span of a range lies inside the text, does not end before it starts,
/// and cuts no character of a text that is valid UTF-8.
pub proof fn lemma_span_of(text: Seq<u8>, range: Range)
    requires
        text.len() <= usize::MAX,
    ensures
        span_of(text, range).within(text.len()),
        valid_utf8(text) ==> is_char_boundary(text, span_of(text, range).start as int)
            && is_char_boundary(text, span_of(text, range).end as int),
{
    lemma_offsets_in_text(text, 0, range.start.line as nat);
    lemma_offsets_in_text(text, 0, range.end.line as nat);
    let a = line_start(text, 0, range.start.line as nat);
    let b = line_start(text, 0, range.end.line as nat);
    lemma_offsets_in_text(text, a, range.start.character as nat);
    lemma_offsets_in_text(text, b, range.end.character as nat);
    if valid_utf8(text) {
        lemma_column_offset_boundary(text, a, range.start.character as nat);
        lemma_column_offset_boundary(text, b, range.end.character as nat);
    }
}

/// The byte offset of `position` in `content`.
pub fn position_to_offset(content: &str, position: &Position) -> (offset: usize)
    ensures
        offset == offset_of(encode_utf8(content@), *position),
        offset <= encode_utf8(content@).len(),
        is_char_boundary(encode_utf8(content@), offset as int),
{
    let bytes = content.as_bytes();
    let ghost text = encode_utf8(content@);
    let mut at: usize = 0;
    let mut lines: u32 = position.line;
    while at < bytes.len() && lines > 0
        invariant
            bytes@ == text,
            at <= bytes.len(),
            line_start(text, 0, position.line as nat) == line_start(text, at as int, lines as nat),
        decreases bytes.len() - at,
    {
        if bytes[at] == LINE_FEED {
            lines = lines - 1;
        }
        at = at + 1;
    }
    let mut units: u32 = position.character;
    let ghost begin = at;
    loop
        invariant
            bytes@ == text,
            at <= bytes.len(),
            column_offset(text, begin as int, position.character as nat) == column_offset(
                text,
                at as int,
                units as nat,
            ),
        ensures
            at <= bytes.len(),
            at == column_offset(text, begin as int, position.character as nat),
        decreases bytes.len() - at,
    {
        if at >= bytes.len() {
            break ;
        }
        let byte = bytes[at];
        if byte == LINE_FEED {
            break ;
        }
        if 0x80 <= byte && byte <= 0xbf {
            at = at + 1;
        } else {
            let width: u32 = if byte >= 0xf0 {
                2
            } else {
                1
            };
            if width > units {
                break ;
            }
            units = units - width;
            at = at + 1;
        }
    }
    proof {
        encode_utf8_valid_utf8(content@);
        lemma_offsets_in_text(text, 0, position.line as nat);
        lemma_column_offset_boundary(text, begin as int, position.character as nat);
    }
    at
}

/// The line feeds among the first `upto` bytes of `text`.
pub open spec fn line_feeds(text: Seq<u8>, upto: int) -> nat
    decreases upto,
{
    if upto <= 0 {
        0
    } else if text[upto - 1] == LINE_FEED {
        line_feeds(text, upto - 1) + 1
    } else {
        line_feeds(text, upto - 1)
    }
}

/// The offset at which the line that holds `offset` begins.
pub open spec fn line_begin(text: Seq<u8>, offset: int) -> int
    decreases offset,
{
    if offset <= 0 {
        0
    } else if text[offset - 1] == LINE_FEED {
        offset
    } else {
        line_begin(text, offset - 1)
    }
}

/// The UTF-16 code units of the characters that begin from `from` up to `to`.
pub open spec fn units_between(text: Seq<u8>, from: int, to: int) -> nat
    decreases to - from,
{
    if to <= from {
        0
    } else if is_continuation_byte(text[to - 1]) {
        units_between(text, from, to - 1)
    } else {
        units_between(text, from, to - 1) + utf16_units(text[to - 1])
    }
}

/// `n` as a coordinate, which is the largest coordinate when `n` is beyond it.
pub open spec fn saturated(n: nat) -> u32 {
    if n <= u32::MAX {
        n as u32
    } else {
        u32::MAX
    }
}

/// The position of a byte offset: the line feeds before it give the line,
/// the characters between the start of that line and the offset the column.
/// An offset beyond the text counts as its end.
pub open spec fn position_of(text: Seq<u8>, offset: int) -> Position {
    let at = if offset <= text.len() {
        offset
    } else {
        text.len() as int
    };
    Position {
        line: saturated(line_feeds(text, at)),
        character: saturated(units_between(text, line_begin(text, at), at)),
    }
}

/// The range of a span: the positions of its two ends.
pub open spec fn range_of(text: Seq<u8>, span: Span) -> Range {
    Range {
        start: position_of(text, span.start as int),
        end: position_of(text, span.end as int),
    }
}

/// The line feeds from `from` up to `to`.
spec fn feeds_between(text: Seq<u8>, from: int, to: int) -> nat
    decreases to - from,
{
    if to <= from {
        0
    } else if text[to - 1] == LINE_FEED {
        feeds_between(text, from, to - 1) + 1
    } else {
        feeds_between(text, from, to - 1)
    }
}

proof fn lemma_feeds_from_start(text: Seq<u8>, to: int)
    ensures
        feeds_between(text, 0, to) == line_feeds(text, to),
    decreases to,
{
    if to > 0 {
        lemma_feeds_from_start(text, to - 1);
    }
}

proof fn lemma_feeds_front(text: Seq<u8>, from: int, to: int)
    requires
        from < to,
    ensures
        feeds_between(text, from, to) == feeds_between(text, from + 1, to) + if text[from]
            == LINE_FEED {
            1nat
        } else {
            0nat
        },
    decreases to - from,
{
    if from + 1 < to {
        lemma_feeds_front(text, from, to - 1);
    } else {
        assert(feeds_between(text, from, to - 1) == 0);
        assert(feeds_between(text, from + 1, to) == 0);
    }
}

proof fn lemma_units_front(text: Seq<u8>, from: int, to: int)
    requires
        from < to,
    ensures
        units_between(text, from, to) == units_between(text, from + 1, to) + if is_continuation_byte(
            text[from],
        ) {
            0nat
        } else {
            utf16_units(text[from])
        },
    decreases to - from,
{
    if from + 1 < to {
        lemma_units_front(text, from, to - 1);
    } else {
        assert(units_between(text, from, to - 1) == 0);
        assert(units_between(text, from + 1, to) == 0);
    }
}

/// No line feed stands between the start of a line and an offset in it, and
/// one stands right before the start unless the line is the first.
proof fn lemma_line_begin(text: Seq<u8>, offset: int)
    requires
        0 <= offset <= text.len(),
    ensures
        0 <= line_begin(text, offset) <= offset,
        forall|i: int| line_begin(text, offset) <= i < offset ==> text[i] != LINE_FEED,
        line_begin(text, offset) > 0 ==> text[line_begin(text, offset) - 1] == LINE_FEED,
    decreases offset,
{
    if offset > 0 && text[offset - 1] != LINE_FEED {
        lemma_line_begin(text, offset - 1);
    }
}

proof fn lemma_no_feeds(text: Seq<u8>, from: int, to: int)
    requires
        forall|i: int| from <= i < to ==> text[i] != LINE_FEED,
    ensures
        feeds_between(text, from, to) == 0,
    decreases to - from,
{
    if from < to {
        lemma_no_feeds(text, from, to - 1);
    }
}

proof fn lemma_some_feed(text: Seq<u8>, from: int, feed: int, to: int)
    requires
        from <= feed < to,
        text[feed] == LINE_FEED,
    ensures
        feeds_between(text, from, to) > 0,
    decreases to - from,
{
    if feed < to - 1 {
        lemma_some_feed(text, from, feed, to - 1);
    }
}

/// Going down as many lines as there are line feeds before an offset leads
/// to the start of its line.
proof fn lemma_line_start_finds_line(text: Seq<u8>, from: int, offset: int)
    requires
        0 <= from <= line_begin(text, offset),
        0 <= offset <= text.len(),
    ensures
        line_start(text, from, feeds_between(text, from, offset)) == line_begin(text, offset),
    decreases text.len() - from,
{
    let begin = line_begin(text, offset);
    lemma_line_begin(text, offset);
    if from == begin {
        lemma_no_feeds(text, begin, offset);
    } else {
        lemma_feeds_front(text, from, offset);
        lemma_some_feed(text, from, begin - 1, offset);
        lemma_line_start_finds_line(text, from + 1, offset);
    }
}

/// Going right over as many code units as the characters up to an offset
/// have leads to that offset.
proof fn lemma_column_offset_finds_offset(text: Seq<u8>, from: int, offset: int)
    requires
        0 <= from <= offset <= text.len(),
        forall|i: int| from <= i < offset ==> text[i] != LINE_FEED,
        offset == text.len() || !is_continuation_byte(text[offset]),
    ensures
        column_offset(text, from, units_between(text, from, offset)) == offset,
    decreases offset - from,
{
    if from < offset {
        lemma_units_front(text, from, offset);
        lemma_column_offset_finds_offset(text, from + 1, offset);
    }
}

/// An offset at which a character begins, or at which the text ends, is the
/// offset of its own position, as far as line and column can be counted.
pub proof fn lemma_offset_of_position_of(text: Seq<u8>, offset: int)
    requires
        0 <= offset <= text.len(),
        offset == text.len() || !is_continuation_byte(text[offset]),
        line_feeds(text, offset) <= u32::MAX,
        units_between(text, line_begin(text, offset), offset) <= u32::MAX,
    ensures
        offset_of(text, position_of(text, offset)) == offset,
{
    lemma_line_begin(text, offset);
    lemma_feeds_from_start(text, offset);
    lemma_line_start_finds_line(text, 0, offset);
    lemma_column_offset_finds_offset(text, line_begin(text, offset), offset);
}

/// A span that cuts no character and does not end before it starts is the
/// span of its own range, as far as lines and columns can be counted.
pub proof fn lemma_span_of_range_of(text: Seq<u8>, span: Span)
    requires
        valid_utf8(text),
        span.start <= span.end <= text.len(),
        is_char_boundary(text, span.start as int),
        is_char_boundary(text, span.end as int),
        line_feeds(text, span.end as int) <= u32::MAX,
        units_between(text, line_begin(text, span.start as int), span.start as int) <= u32::MAX,
        units_between(text, line_begin(text, span.end as int), span.end as int) <= u32::MAX,
    ensures
        span_of(text, range_of(text, span)) == span,
{
    if span.start < text.len() {
        is_char_boundary_iff_not_is_continuation_byte(text, span.start as int);
    }
    if span.end < text.len() {
        is_char_boundary_iff_not_is_continuation_byte(text, span.end as int);
    }
    lemma_line_feeds_grow(text, span.start as int, span.end as int);
    lemma_offset_of_position_of(text, span.start as int);
    lemma_offset_of_position_of(text, span.end as int);
}

/// There are no fewer line feeds before a later offset.
proof fn lemma_line_feeds_grow(text: Seq<u8>, earlier: int, later: int)
    requires
        earlier <= later,
    ensures
        line_feeds(text, earlier) <= line_feeds(text, later),
    decreases later - earlier,
{
    if earlier < later {
        lemma_line_feeds_grow(text, earlier, later - 1);
    }
}

/// The position of the byte offset `offset` in `content`.
pub fn offset_to_position(content: &str, offset: usize) -> (position: Position)
    ensures
        position == position_of(encode_utf8(content@), offset as int),
{
    let bytes = content.as_bytes();
    let ghost text = encode_utf8(content@);
    let at = if offset <= bytes.len() {
        offset
    } else {
        bytes.len()
    };
    let mut line: u32 = 0;
    let mut character: u32 = 0;
    let mut i: usize = 0;
    while i < at
        invariant
            bytes@ == text,
            i <= at <= bytes.len(),
            line == saturated(line_feeds(text, i as int)),
            character == saturated(units_between(text, line_begin(text, i as int), i as int)),
        decreases at - i,
    {
        let byte = bytes[i];
        proof {
            lemma_line_begin(text, i as int);
        }
        if byte == LINE_FEED {
            if line < u32::MAX {
                line = line + 1;
            }
            character = 0;
        } else if 0x80 <= byte && byte <= 0xbf {
            assert(line_begin(text, i + 1) == line_begin(text, i as int));
        } else {
            assert(line_begin(text, i + 1) == line_begin(text, i as int));
            let width: u32 = if byte >= 0xf0 {
                2
            } else {
                1
            };
            if character <= u32::MAX - width {
                character = character + width;
            } else {
                character = u32::MAX;
            }
        }
        i = i + 1;
    }
    Position { line, character }
}

/// The range in protocol coordinates of a byte span of `content`.
pub fn span_to_range(content: &str, span: Span) -> (range: Range)
    ensures
        range == range_of(encode_utf8(content@), span),
{
    Range {
        start: offset_to_position(content, span.start),
        end: offset_to_position(content, span.end),
    }
}

/// The byte span in `content` of a range in protocol coordinates.
///
/// Columns count UTF-16 code units and are turned into byte offsets by going
/// over the characters of the line. A position outside the text is taken to
/// the nearest offset inside it.
pub fn range_to_span(content: &str, range: &Range) -> (span: Span)
    ensures
        span == span_of(encode_utf8(content@), *range),
        span.within(encode_utf8(content@).len()),
        is_char_boundary(encode_utf8(content@), span.start as int),
        is_char_boundary(encode_utf8(content@), span.end as int),
{
    let start = position_to_offset(content, &range.start);
    let end = position_to_offset(content, &range.end);
    if end < start {
        Span { start, end: start }
    } else {
        Span { start, end }
    }
}

} // verus!
