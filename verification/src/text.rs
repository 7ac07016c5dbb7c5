//! Byte-offset operations on UTF-8 text.
//!
//! A string is modelled by its UTF-8 bytes: offsets into a buffer are byte
//! offsets, and a range may only be cut where both ends fall between
//! characters.

use vstd::prelude::*;
use vstd::string::StringExecFns;
use vstd::utf8::*;

verus! {

/// `x` limited to `n`.
pub open spec fn clamp(x: int, n: int) -> int {
    if x <= n {
        x
    } else {
        n
    }
}

/// Whether the bytes from `start` to `end` can be cut out of `buf`: the range
/// is ordered, lies inside the buffer, and both ends fall between characters.
pub open spec fn splice_ok(buf: Seq<u8>, start: int, end: int) -> bool {
    &&& 0 <= start <= end <= buf.len()
    &&& is_char_boundary(buf, start)
    &&& is_char_boundary(buf, end)
}

/// `buf` with the bytes from `start` to `end` replaced by `replacement`.
pub open spec fn spliced(buf: Seq<u8>, start: int, end: int, replacement: Seq<u8>) -> Seq<u8> {
    buf.subrange(0, start) + replacement + buf.subrange(end, buf.len() as int)
}

/// The encoding of a concatenation is the concatenation of the encodings.
pub proof fn lemma_encode_utf8_concat(a: Seq<char>, b: Seq<char>)
    ensures
        encode_utf8(a + b) == encode_utf8(a) + encode_utf8(b),
    decreases a.len(),
{
    if a.len() == 0 {
        assert(a + b =~= b);
        assert(encode_utf8(a) + encode_utf8(b) =~= encode_utf8(b));
    } else {
        assert((a + b).drop_first() =~= a.drop_first() + b);
        lemma_encode_utf8_concat(a.drop_first(), b);
        assert(encode_utf8(a + b) =~= encode_utf8(a) + encode_utf8(b));
    }
}

/// Replaces the bytes from `start` to `end` of `buf` by `replacement`.
///
/// Returns `None`, and builds nothing, when the range cannot be cut.
pub fn replace_range(buf: &str, start: usize, end: usize, replacement: &str) -> (out: Option<
    String,
>)
    ensures
        out is Some <==> splice_ok(encode_utf8(buf@), start as int, end as int),
        out matches Some(s) ==> encode_utf8(s@) == spliced(
            encode_utf8(buf@),
            start as int,
            end as int,
            encode_utf8(replacement@),
        ),
{
    let len = buf.as_bytes().len();
    if start > end || end > len {
        return None;
    }
    if !buf.is_char_boundary(start) || !buf.is_char_boundary(end) {
        return None;
    }
    let (head, _) = buf.split_at(start);
    let (_, tail) = buf.split_at(end);
    let mut out = head.to_owned();
    out.append(replacement);
    out.append(tail);
    proof {
        lemma_encode_utf8_concat(head@, replacement@);
        lemma_encode_utf8_concat(head@ + replacement@, tail@);
    }
    Some(out)
}

/// A boundary of a text is a boundary of each prefix that reaches it.
pub proof fn lemma_boundary_in_prefix(buf: Seq<u8>, start: int, end: int)
    requires
        valid_utf8(buf),
        0 <= start <= end <= buf.len(),
        is_char_boundary(buf, start),
        is_char_boundary(buf, end),
    ensures
        valid_utf8(buf.subrange(0, end)),
        is_char_boundary(buf.subrange(0, end), start),
{
    let prefix = buf.subrange(0, end);
    valid_utf8_split(buf, end);
    if start == end {
        is_char_boundary_start_end_of_seq(prefix);
    } else {
        is_char_boundary_iff_not_is_continuation_byte(buf, start);
        is_char_boundary_iff_not_is_continuation_byte(prefix, start);
    }
}

/// What lies between two boundaries of a text is a text.
pub proof fn lemma_between_boundaries(buf: Seq<u8>, start: int, end: int)
    requires
        valid_utf8(buf),
        0 <= start <= end <= buf.len(),
        is_char_boundary(buf, start),
        is_char_boundary(buf, end),
    ensures
        valid_utf8(buf.subrange(start, end)),
{
    lemma_boundary_in_prefix(buf, start, end);
    let prefix = buf.subrange(0, end);
    valid_utf8_split(prefix, start);
    assert(prefix.subrange(start, prefix.len() as int) =~= buf.subrange(start, end));
}

/// A boundary of a text is a boundary of the text with another behind it.
pub proof fn lemma_boundary_in_concat(head: Seq<u8>, tail: Seq<u8>, at: int)
    requires
        valid_utf8(head),
        valid_utf8(tail),
        0 <= at <= head.len(),
        is_char_boundary(head, at),
    ensures
        valid_utf8(head + tail),
        is_char_boundary(head + tail, at),
{
    let whole = head + tail;
    valid_utf8_concat(head, tail);
    if at == whole.len() {
        is_char_boundary_start_end_of_seq(whole);
    } else {
        is_char_boundary_iff_not_is_continuation_byte(whole, at);
        if at < head.len() {
            is_char_boundary_iff_not_is_continuation_byte(head, at);
        } else {
            is_char_boundary_start_end_of_seq(tail);
            is_char_boundary_iff_not_is_continuation_byte(tail, 0);
        }
    }
}

/// The part of `text` from byte `start` to byte `end`, where that range can
/// be cut, and nothing where it cannot.
pub fn slice(text: &str, start: usize, end: usize) -> (part: Option<&str>)
    ensures
        part is Some <==> splice_ok(encode_utf8(text@), start as int, end as int),
        part matches Some(cut) ==> encode_utf8(cut@) == encode_utf8(text@).subrange(
            start as int,
            end as int,
        ),
{
    let len = text.as_bytes().len();
    if start > end || end > len {
        return None;
    }
    if !text.is_char_boundary(start) || !text.is_char_boundary(end) {
        return None;
    }
    proof {
        encode_utf8_valid_utf8(text@);
        lemma_boundary_in_prefix(encode_utf8(text@), start as int, end as int);
    }
    let (head, _) = text.split_at(end);
    let (_, cut) = head.split_at(start);
    assert(encode_utf8(cut@) =~= encode_utf8(text@).subrange(start as int, end as int));
    Some(cut)
}

/// Whether a character is white space, as Unicode has it: tab to carriage
/// return, space, next line, no-break space, the ogham space mark, en quad
/// to hair space, line and paragraph separator, narrow no-break space,
/// medium mathematical space and ideographic space.
pub open spec fn is_white_space(c: char) -> bool {
    ||| '\u{9}' <= c <= '\u{d}'
    ||| c == ' '
    ||| c == '\u{85}'
    ||| c == '\u{a0}'
    ||| c == '\u{1680}'
    ||| '\u{2000}' <= c <= '\u{200a}'
    ||| c == '\u{2028}'
    ||| c == '\u{2029}'
    ||| c == '\u{202f}'
    ||| c == '\u{205f}'
    ||| c == '\u{3000}'
}

/// Whether a character is white space.
pub fn is_white_space_char(c: char) -> (yes: bool)
    ensures
        yes == is_white_space(c),
{
    ('\u{9}' <= c && c <= '\u{d}') || c == ' ' || c == '\u{85}' || c == '\u{a0}' || c
        == '\u{1680}' || ('\u{2000}' <= c && c <= '\u{200a}') || c == '\u{2028}' || c
        == '\u{2029}' || c == '\u{202f}' || c == '\u{205f}' || c == '\u{3000}'
}

/// Whether a text holds nothing but white space.
pub open spec fn is_blank(text: Seq<char>) -> bool {
    forall|i: int| 0 <= i < text.len() ==> is_white_space(#[trigger] text[i])
}

/// `count` spaces.
pub open spec fn spaces(count: nat) -> Seq<char> {
    Seq::new(count, |i: int| ' ')
}

/// A string of `count` spaces.
pub fn padding(count: usize) -> (out: String)
    ensures
        out@ == spaces(count as nat),
{
    let mut out = String::new();
    let mut i: usize = 0;
    assert(out@ =~= spaces(0));
    while i < count
        invariant
            i <= count,
            out@ == spaces(i as nat),
        decreases count - i,
    {
        proof {
            reveal_strlit(" ");
        }
        out.append(" ");
        i = i + 1;
        assert(out@ =~= spaces(i as nat));
    }
    out
}

/// The items one after the other, with `separator` between each two.
pub open spec fn joined(items: Seq<Seq<char>>, separator: Seq<char>) -> Seq<char>
    decreases items.len(),
{
    if items.len() == 0 {
        Seq::empty()
    } else if items.len() == 1 {
        items[0]
    } else {
        joined(items.drop_last(), separator) + separator + items.last()
    }
}

/// `itertools::Itertools::join` on the items of a list: each item as it is,
/// with `separator` between each two, and the empty string for no item. The
/// call asks for room by the product of the separator's length and the
/// number of items, which has to be a size that a string can have.
#[verifier::external_body]
pub(crate) fn join(items: &Vec<String>, separator: &str) -> (out: String)
    requires
        encode_utf8(separator@).len() * items.len() <= isize::MAX,
    ensures
        out@ == joined(items.deep_view(), separator@),
{
    itertools::Itertools::join(&mut items.iter(), separator)
}

/// The columns that a text takes on a terminal, as `unicode_width` counts
/// them.
pub uninterp spec fn display_width(text: Seq<char>) -> nat;

/// `unicode_width::UnicodeWidthStr::width`: the displayed width of `text` in
/// columns.
#[verifier::external_body]
pub(crate) fn width(text: &str) -> (columns: usize)
    ensures
        columns == display_width(text@),
{
    unicode_width::UnicodeWidthStr::width(text)
}

/// What is left of a stream of bytes when `strip_ansi_escapes` has taken the
/// escape sequences out.
pub uninterp spec fn without_escapes(data: Seq<u8>) -> Seq<u8>;

/// `strip_ansi_escapes::strip`: the bytes of `data` that belong to no escape
/// sequence.
#[verifier::external_body]
pub(crate) fn strip(data: &[u8]) -> (rest: Vec<u8>)
    ensures
        rest@ == without_escapes(data@),
{
    strip_ansi_escapes::strip(data)
}

/// `String::from_utf8`: the string whose UTF-8 encoding the bytes are, and
/// nothing when they are not valid UTF-8.
#[verifier::external_body]
pub(crate) fn string_from_utf8(bytes: Vec<u8>) -> (text: Option<String>)
    ensures
        text is Some <==> valid_utf8(bytes@),
        text matches Some(built) ==> encode_utf8(built@) == bytes@,
{
    String::from_utf8(bytes).ok()
}

/// What `text` shows once its escape sequences are taken out; `text` itself
/// where what is left is not valid UTF-8.
pub open spec fn visible(text: Seq<char>) -> Seq<char> {
    if valid_utf8(without_escapes(encode_utf8(text))) {
        decode_utf8(without_escapes(encode_utf8(text)))
    } else {
        text
    }
}

/// `s` without ANSI escape sequences, which take no room on the screen.
pub fn strip_ansi(s: &str) -> (shown: String)
    ensures
        shown@ == visible(s@),
{
    let rest = strip(s.as_bytes());
    match string_from_utf8(rest) {
        Some(text) => {
            proof {
                encode_utf8_decode_utf8(text@);
            }
            text
        },
        None => s.to_owned(),
    }
}

/// Whether two strings hold the same text.
pub fn str_eq(a: &str, b: &str) -> (same: bool)
    ensures
        same == (a@ == b@),
{
    let left = a.as_bytes();
    let right = b.as_bytes();
    proof {
        encode_utf8_decode_utf8(a@);
        encode_utf8_decode_utf8(b@);
    }
    if left.len() != right.len() {
        return false;
    }
    let mut i: usize = 0;
    while i < left.len()
        invariant
            i <= left.len(),
            left.len() == right.len(),
            left@ == encode_utf8(a@),
            right@ == encode_utf8(b@),
            forall|k: int| 0 <= k < i ==> left@[k] == right@[k],
        decreases left.len() - i,
    {
        if left[i] != right[i] {
            return false;
        }
        i = i + 1;
    }
    assert(left@ =~= right@);
    true
}

/// A line of text under edit, with the byte offset of its cursor.
#[derive(Debug)]
pub struct LineBuffer {
    lines: String,
    insertion_point: usize,
}

impl LineBuffer {
    /// The text held, as characters.
    pub closed spec fn text(&self) -> Seq<char> {
        self.lines@
    }

    /// The text held, as its UTF-8 bytes.
    pub open spec fn bytes(&self) -> Seq<u8> {
        encode_utf8(self.text())
    }

    /// The byte offset of the cursor.
    pub closed spec fn cursor(&self) -> usize {
        self.insertion_point
    }

    /// A buffer that holds `text`, with the cursor at `insertion_point`.
    pub fn new(text: String, insertion_point: usize) -> (buffer: LineBuffer)
        ensures
            buffer.text() == text@,
            buffer.cursor() == insertion_point,
    {
        LineBuffer { lines: text, insertion_point }
    }

    /// The text held.
    pub fn get_buffer(&self) -> (text: &str)
        ensures
            text@ == self.text(),
    {
        self.lines.as_str()
    }

    /// The byte offset of the cursor.
    pub fn insertion_point(&self) -> (offset: usize)
        ensures
            offset == self.cursor(),
    {
        self.insertion_point
    }

    /// Replaces the text and moves the cursor to its end.
    pub fn set_buffer(&mut self, text: String)
        ensures
            final(self).text() == text@,
            final(self).cursor() == encode_utf8(text@).len(),
    {
        let len = text.as_str().as_bytes().len();
        self.lines = text;
        self.insertion_point = len;
    }

    /// Moves the cursor to `offset`; the text stays.
    pub fn set_insertion_point(&mut self, offset: usize)
        ensures
            final(self).text() == old(self).text(),
            final(self).cursor() == offset,
    {
        self.insertion_point = offset;
    }
}

} // verus!
