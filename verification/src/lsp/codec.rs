//! The framing of messages on the wire.
//!
//! A message travels as a header line that gives the length of its body in
//! bytes, a blank line, and the body:
//!
//! ```text
//! Content-Length: 17\r\n
//! \r\n
//! {"jsonrpc":"2.0"}
//! ```
//!
//! [`encode_frame`] writes that form. [`decode_frame`] reads it back from the
//! bytes that have come in, line by line as [`parse_header_line`] tells it.

use vstd::prelude::*;

verus! {

/// Line feed, which ends a line.
pub const LF: u8 = 10;

/// Carriage return, which stands before the line feed on the wire.
pub const CR: u8 = 13;

/// The bytes of `Content-Length:`, with which the header line begins.
pub open spec fn header_name() -> Seq<u8> {
    seq![67u8, 111u8, 110u8, 116u8, 101u8, 110u8, 116u8, 45u8, 76u8, 101u8, 110u8, 103u8, 116u8,
        104u8, 58u8]
}

/// The white space that takes one byte: space, tab, line feed, vertical
/// tab, form feed and carriage return.
pub open spec fn is_space(byte: u8) -> bool {
    byte == 32 || (9 <= byte <= 13)
}

/// The white space that takes two bytes: next line and no-break space.
pub open spec fn is_space_of_two(first: u8, second: u8) -> bool {
    first == 0xc2 && (second == 0x85 || second == 0xa0)
}

/// The white space that takes three bytes: the ogham space mark, the spaces
/// of fixed width from en quad to hair space, the line and paragraph
/// separators, the narrow no-break space, the medium mathematical space and
/// the ideographic space.
pub open spec fn is_space_of_three(first: u8, second: u8, third: u8) -> bool {
    ||| first == 0xe1 && second == 0x9a && third == 0x80
    ||| first == 0xe2 && second == 0x80 && (0x80 <= third <= 0x8a || third == 0xa8 || third
        == 0xa9 || third == 0xaf)
    ||| first == 0xe2 && second == 0x81 && third == 0x9f
    ||| first == 0xe3 && second == 0x80 && third == 0x80
}

/// How many bytes the white-space character takes that begins at `at` and
/// ends no later than `to`; 0 when there is none.
pub open spec fn space_at(text: Seq<u8>, at: int, to: int) -> int {
    if at < 0 || at >= to || to > text.len() {
        0
    } else if is_space(text[at]) {
        1
    } else if at + 2 <= to && is_space_of_two(text[at], text[at + 1]) {
        2
    } else if at + 3 <= to && is_space_of_three(text[at], text[at + 1], text[at + 2]) {
        3
    } else {
        0
    }
}

/// How many bytes the white-space character takes that ends at `to` and
/// begins no earlier than `from`; 0 when there is none.
pub open spec fn space_before(text: Seq<u8>, from: int, to: int) -> int {
    if from < 0 || to <= from || to > text.len() {
        0
    } else if is_space(text[to - 1]) {
        1
    } else if to - 2 >= from && is_space_of_two(text[to - 2], text[to - 1]) {
        2
    } else if to - 3 >= from && is_space_of_three(text[to - 3], text[to - 2], text[to - 1]) {
        3
    } else {
        0
    }
}

/// Whether a byte is a decimal digit.
pub open spec fn is_digit(byte: u8) -> bool {
    48 <= byte <= 57
}

/// Whether `text` is a decimal number: one digit or more, and nothing else.
pub open spec fn is_number(text: Seq<u8>) -> bool {
    &&& text.len() > 0
    &&& forall|i: int| 0 <= i < text.len() ==> is_digit(#[trigger] text[i])
}

/// The number that a run of digits stands for.
pub open spec fn number_value(digits: Seq<u8>) -> nat
    decreases digits.len(),
{
    if digits.len() == 0 {
        0
    } else {
        number_value(digits.drop_last()) * 10 + (digits.last() - 48) as nat
    }
}

/// The digits of a number, without leading zeros.
pub open spec fn decimal(n: nat) -> Seq<u8>
    decreases n,
{
    if n < 10 {
        seq![(48 + n) as u8]
    } else {
        decimal(n / 10).push((48 + n % 10) as u8)
    }
}

/// The offset of the first character from `from` on that is no white
/// space, and `to` when there is none before `to`.
pub open spec fn skip_spaces(text: Seq<u8>, from: int, to: int) -> int
    decreases to - from,
{
    if from >= to {
        to
    } else if space_at(text, from, to) > 0 {
        skip_spaces(text, from + space_at(text, from, to), to)
    } else {
        from
    }
}

/// The offset behind the last character before `to` that is no white space,
/// and `from` when there is none from `from` on.
pub open spec fn skip_spaces_back(text: Seq<u8>, from: int, to: int) -> int
    decreases to - from,
{
    if to <= from {
        from
    } else if space_before(text, from, to) > 0 {
        skip_spaces_back(text, from, to - space_before(text, from, to))
    } else {
        to
    }
}

/// `text` without the white space at its two ends.
pub open spec fn trimmed(text: Seq<u8>) -> Seq<u8> {
    let start = skip_spaces(text, 0, text.len() as int);
    let end = skip_spaces_back(text, start, text.len() as int);
    text.subrange(start, end)
}

/// The digits of a length as the header gives it: a decimal number, which
/// may have a plus sign before it.
pub open spec fn unsigned(text: Seq<u8>) -> Seq<u8> {
    if text.len() > 0 && text[0] == 43 {
        text.drop_first()
    } else {
        text
    }
}

/// What a line of the header says.
#[derive(Debug, Clone, Copy, PartialEq, Eq, Structural)]
pub enum HeaderLine {
    /// The line gives the length of the body.
    Length(usize),
    /// The line begins like the length line and gives no length that can be
    /// read.
    Malformed,
    /// Any other line, which is passed over.
    Other,
}

/// What a line of the header says: a line that begins with `Content-Length:`
/// gives the length, which is the number behind the colon, white space
/// around it set aside; a number that is none, or that no `usize` holds,
/// makes the line malformed. White space is what Unicode calls so, in its
/// UTF-8 encoding.
pub open spec fn header_line(line: Seq<u8>) -> HeaderLine {
    if line.len() >= header_name().len() && line.subrange(0, header_name().len() as int)
        == header_name() {
        let number = unsigned(trimmed(line.subrange(header_name().len() as int, line.len() as int)));
        if is_number(number) && number_value(number) <= usize::MAX {
            HeaderLine::Length(number_value(number) as usize)
        } else {
            HeaderLine::Malformed
        }
    } else {
        HeaderLine::Other
    }
}

/// The offset behind the line that begins at `from`: behind its line feed,
/// or the end of the input when no line feed follows.
pub open spec fn line_end(input: Seq<u8>, from: int) -> int
    decreases input.len() - from,
{
    if from >= input.len() {
        input.len() as int
    } else if input[from] == LF {
        from + 1
    } else {
        line_end(input, from + 1)
    }
}

/// A message as it was read from the wire.
#[derive(Debug)]
pub struct Frame {
    /// The body of the message.
    pub body: Vec<u8>,
    /// How many bytes of the input the message took, header included.
    pub consumed: usize,
}

/// A [`Frame`] as the contracts see it.
pub struct FrameView {
    pub body: Seq<u8>,
    pub consumed: nat,
}

impl View for Frame {
    type V = FrameView;

    open spec fn view(&self) -> FrameView {
        FrameView { body: self.body@, consumed: self.consumed as nat }
    }
}

/// The frame for a body: the header line with the body's length, the blank
/// line, and the body.
pub open spec fn framed(body: Seq<u8>) -> Seq<u8> {
    header_name() + seq![32u8] + decimal(body.len()) + seq![CR, LF, CR, LF] + body
}

/// The message whose body of `length` bytes begins at `at`, when the input
/// holds it whole.
pub open spec fn body_at(input: Seq<u8>, at: int, length: usize) -> Option<FrameView> {
    if 0 <= at && at + length <= input.len() {
        Some(FrameView { body: input.subrange(at, at + length), consumed: (at + length) as nat })
    } else {
        None
    }
}

/// The first message in `input` from `from` on. Lines are passed over until
/// one gives the length; the line behind it is the separator, and the body
/// is as many bytes behind the separator as the length says. There is no
/// message when the input ends before the body does, or when the length
/// cannot be read.
pub open spec fn first_frame(input: Seq<u8>, from: int) -> Option<FrameView>
    decreases input.len() - from,
    via first_frame_decreases
{
    if from < 0 || from >= input.len() {
        None
    } else {
        match header_line(input.subrange(from, line_end(input, from))) {
            HeaderLine::Other => first_frame(input, line_end(input, from)),
            HeaderLine::Malformed => None,
            HeaderLine::Length(length) => body_at(
                input,
                line_end(input, line_end(input, from)),
                length,
            ),
        }
    }
}

#[via_fn]
proof fn first_frame_decreases(input: Seq<u8>, from: int) {
    if 0 <= from < input.len() {
        lemma_line_end(input, from);
    }
}

/// A line ends behind where it begins, and inside the input.
pub proof fn lemma_line_end(input: Seq<u8>, from: int)
    requires
        0 <= from <= input.len(),
    ensures
        from <= line_end(input, from) <= input.len(),
        from < input.len() ==> from < line_end(input, from),
        forall|i: int| from <= i < line_end(input, from) - 1 ==> input[i] != LF,
    decreases input.len() - from,
{
    if from < input.len() && input[from] != LF {
        lemma_line_end(input, from + 1);
    }
}

/// The offset behind the line that begins at `from`.
pub fn find_line_end(input: &[u8], from: usize) -> (end: usize)
    requires
        from <= input.len(),
    ensures
        end == line_end(input@, from as int),
        from <= end <= input.len(),
{
    let mut at = from;
    proof {
        lemma_line_end(input@, from as int);
    }
    while at < input.len()
        invariant
            from <= at <= input.len(),
            line_end(input@, from as int) == line_end(input@, at as int),
        decreases input.len() - at,
    {
        if input[at] == LF {
            return at + 1;
        }
        at = at + 1;
    }
    at
}

/// The value of a number grows with each digit.
pub proof fn lemma_number_value_grows(digits: Seq<u8>, shorter: int)
    requires
        0 <= shorter <= digits.len(),
        forall|i: int| 0 <= i < digits.len() ==> is_digit(#[trigger] digits[i]),
    ensures
        number_value(digits.take(shorter)) <= number_value(digits),
    decreases digits.len() - shorter,
{
    if shorter < digits.len() {
        lemma_number_value_grows(digits, shorter + 1);
        assert(digits.take(shorter + 1).drop_last() =~= digits.take(shorter));
    } else {
        assert(digits.take(shorter) =~= digits);
    }
}

/// Reads the length that a header line gives behind its name.
fn parse_length(line: &[u8], from: usize) -> (length: Option<usize>)
    requires
        from <= line.len(),
    ensures
        length == ({
            let number = unsigned(trimmed(line@.subrange(from as int, line.len() as int)));
            if is_number(number) && number_value(number) <= usize::MAX {
                Some(number_value(number) as usize)
            } else {
                None
            }
        }),
{
    let ghost rest = line@.subrange(from as int, line.len() as int);
    let mut start = from;
    loop
        invariant
            from <= start <= line.len(),
            rest == line@.subrange(from as int, line.len() as int),
            skip_spaces(rest, 0, rest.len() as int) == skip_spaces(
                rest,
                start - from,
                rest.len() as int,
            ),
        ensures
            from <= start <= line.len(),
            start - from == skip_spaces(rest, 0, rest.len() as int),
        decreases line.len() - start,
    {
        let width = space_width_at(line, start, line.len());
        proof {
            assert(space_at(rest, start - from, rest.len() as int) == space_at(
                line@,
                start as int,
                line.len() as int,
            ));
        }
        if width == 0 {
            break ;
        }
        start = start + width;
    }
    let mut end = line.len();
    loop
        invariant
            from <= start <= end <= line.len(),
            rest == line@.subrange(from as int, line.len() as int),
            skip_spaces_back(rest, start - from, rest.len() as int) == skip_spaces_back(
                rest,
                start - from,
                end - from,
            ),
        ensures
            from <= start <= end <= line.len(),
            end - from == skip_spaces_back(rest, start - from, rest.len() as int),
        decreases end - start,
    {
        let width = space_width_before(line, start, end);
        proof {
            assert(space_before(rest, start - from, end - from) == space_before(
                line@,
                start as int,
                end as int,
            ));
        }
        if width == 0 {
            break ;
        }
        end = end - width;
    }
    assert(trimmed(rest) =~= line@.subrange(start as int, end as int));
    if start < end && line[start] == 43 {
        start = start + 1;
    }
    let ghost number = line@.subrange(start as int, end as int);
    assert(number =~= unsigned(trimmed(rest)));
    if start == end {
        return None;
    }
    let mut value: usize = 0;
    let mut i = start;
    while i < end
        invariant
            start <= i <= end <= line.len(),
            from <= line.len(),
            number == line@.subrange(start as int, end as int),
            number == unsigned(trimmed(line@.subrange(from as int, line.len() as int))),
            forall|k: int| 0 <= k < i - start ==> is_digit(#[trigger] number[k]),
            value == number_value(number.take(i - start)),
        decreases end - i,
    {
        let byte = line[i];
        if byte < 48 || byte > 57 {
            assert(!is_digit(number[i - start]));
            return None;
        }
        let digit: usize = (byte - 48) as usize;
        proof {
            assert(number.take(i - start + 1).drop_last() =~= number.take(i - start));
            assert(number.take(i - start + 1).last() == byte);
        }
        if value > (usize::MAX - digit) / 10 {
            proof {
                assert(number_value(number.take(i - start + 1)) > usize::MAX);
                if is_number(number) {
                    lemma_number_value_grows(number, i - start + 1);
                }
            }
            return None;
        }
        value = value * 10 + digit;
        i = i + 1;
    }
    assert(number.take(end - start) =~= number);
    Some(value)
}

/// Whether a byte is white space by itself.
pub fn is_space_byte(byte: u8) -> (yes: bool)
    ensures
        yes == is_space(byte),
{
    byte == 32 || (9 <= byte && byte <= 13)
}

/// Whether three bytes are a white-space character.
fn is_space_triple(first: u8, second: u8, third: u8) -> (yes: bool)
    ensures
        yes == is_space_of_three(first, second, third),
{
    (first == 0xe1 && second == 0x9a && third == 0x80) || (first == 0xe2 && second == 0x80 && ((
    0x80 <= third && third <= 0x8a) || third == 0xa8 || third == 0xa9 || third == 0xaf)) || (first
        == 0xe2 && second == 0x81 && third == 0x9f) || (first == 0xe3 && second == 0x80 && third
        == 0x80)
}

/// How many bytes the white-space character takes that begins at `at` and
/// ends no later than `to`.
pub fn space_width_at(text: &[u8], at: usize, to: usize) -> (width: usize)
    requires
        to <= text.len(),
    ensures
        width == space_at(text@, at as int, to as int),
        at + width <= to || width == 0,
{
    if at >= to {
        0
    } else if is_space_byte(text[at]) {
        1
    } else if to - at >= 2 && text[at] == 0xc2 && (text[at + 1] == 0x85 || text[at + 1] == 0xa0) {
        2
    } else if to - at >= 3 && is_space_triple(text[at], text[at + 1], text[at + 2]) {
        3
    } else {
        0
    }
}

/// How many bytes the white-space character takes that ends at `to` and
/// begins no earlier than `from`.
pub fn space_width_before(text: &[u8], from: usize, to: usize) -> (width: usize)
    requires
        to <= text.len(),
    ensures
        width == space_before(text@, from as int, to as int),
        from + width <= to || width == 0,
{
    if to <= from {
        0
    } else if is_space_byte(text[to - 1]) {
        1
    } else if to - from >= 2 && text[to - 2] == 0xc2 && (text[to - 1] == 0x85 || text[to - 1]
        == 0xa0) {
        2
    } else if to - from >= 3 && is_space_triple(text[to - 3], text[to - 2], text[to - 1]) {
        3
    } else {
        0
    }
}

/// Says what a line of the header says.
pub fn parse_header_line(line: &[u8]) -> (parsed: HeaderLine)
    ensures
        parsed == header_line(line@),
{
    let name: [u8; 15] = [67, 111, 110, 116, 101, 110, 116, 45, 76, 101, 110, 103, 116, 104, 58];
    assert(name@ =~= header_name());
    if line.len() < 15 {
        return HeaderLine::Other;
    }
    let mut i: usize = 0;
    while i < 15
        invariant
            i <= 15 <= line.len(),
            name@ == header_name(),
            forall|k: int| 0 <= k < i ==> line@[k] == header_name()[k],
        decreases 15 - i,
    {
        if line[i] != name[i] {
            assert(line@.subrange(0, 15)[i as int] != header_name()[i as int]);
            return HeaderLine::Other;
        }
        i = i + 1;
    }
    assert(line@.subrange(0, 15) =~= header_name());
    match parse_length(line, 15) {
        Some(length) => HeaderLine::Length(length),
        None => HeaderLine::Malformed,
    }
}

/// Where the reading of a frame stands.
#[derive(Debug, Clone, Copy, PartialEq, Eq, Structural)]
pub enum Reading {
    /// Header lines are read until one gives the length.
    Header,
    /// The length is known; the separator line comes next.
    Separator { length: usize },
    /// The separator is read; the body comes next.
    Body { length: usize },
    /// The frame is read, or there is none to read.
    Finished,
}

/// What is to be read next.
#[derive(Debug, Clone, Copy, PartialEq, Eq, Structural)]
pub enum Want {
    /// One line, up to and with its line feed.
    Line,
    /// Exactly this many bytes.
    Bytes(usize),
    /// Nothing.
    Nothing,
}

impl Reading {
    /// What is to be read next.
    pub open spec fn wants(self) -> Want {
        match self {
            Reading::Header => Want::Line,
            Reading::Separator { .. } => Want::Line,
            Reading::Body { length } => Want::Bytes(length),
            Reading::Finished => Want::Nothing,
        }
    }

    /// Where the reading stands after a line; a line without a byte is the
    /// end of the stream. In the header, the end of the stream and a length
    /// that cannot be read end the reading, a line that gives the length
    /// leads on to the separator, and any other line is passed over. The
    /// line behind the length line is the separator, whatever it holds.
    pub open spec fn after_line(self, line: Seq<u8>) -> Reading {
        match self {
            Reading::Header => if line.len() == 0 {
                Reading::Finished
            } else {
                match header_line(line) {
                    HeaderLine::Length(length) => Reading::Separator { length },
                    HeaderLine::Malformed => Reading::Finished,
                    HeaderLine::Other => Reading::Header,
                }
            },
            Reading::Separator { length } => Reading::Body { length },
            _ => Reading::Finished,
        }
    }

    /// The body of the frame, when `bytes` is what was read for it: the
    /// bytes themselves when they are as many as the length says.
    pub open spec fn body_from(self, bytes: Seq<u8>) -> Option<Seq<u8>> {
        match self {
            Reading::Body { length } => if bytes.len() == length {
                Some(bytes)
            } else {
                None
            },
            _ => None,
        }
    }

    /// The message that the reading comes to when what is left to read is
    /// `input` from `at` on.
    pub open spec fn outcome(self, input: Seq<u8>, at: int) -> Option<FrameView> {
        match self {
            Reading::Header => first_frame(input, at),
            Reading::Separator { length } => body_at(input, line_end(input, at), length),
            Reading::Body { length } => body_at(input, at, length),
            Reading::Finished => None,
        }
    }
}

/// Reads one frame from a stream that is handed to it piece by piece.
///
/// Whoever holds the stream asks what the reader wants, reads that, and
/// hands it over, until the reader wants nothing more.
#[derive(Debug)]
pub struct FrameReader {
    reading: Reading,
}

impl FrameReader {
    /// Where the reading stands.
    pub closed spec fn reading(&self) -> Reading {
        self.reading
    }

    /// A reader at the start of a frame.
    pub fn new() -> (reader: FrameReader)
        ensures
            reader.reading() == Reading::Header,
    {
        FrameReader { reading: Reading::Header }
    }

    /// What is to be read next.
    pub fn wants(&self) -> (want: Want)
        ensures
            want == self.reading().wants(),
    {
        match self.reading {
            Reading::Header => Want::Line,
            Reading::Separator { .. } => Want::Line,
            Reading::Body { length } => Want::Bytes(length),
            Reading::Finished => Want::Nothing,
        }
    }

    /// Whether no frame has been begun, so that the reading can be left for
    /// later without losing a part of one.
    pub fn in_header(&self) -> (yes: bool)
        ensures
            yes == (self.reading() is Header),
    {
        match self.reading {
            Reading::Header => true,
            _ => false,
        }
    }

    /// Whether the reading is to be left for later: the time given to it has
    /// passed, and no frame has been begun, so that none is torn. A frame
    /// once begun is read to its end.
    pub fn leaves(&self, elapsed_ms: u64, timeout_ms: u64) -> (yes: bool)
        ensures
            yes == (self.reading() is Header && elapsed_ms >= timeout_ms),
    {
        self.in_header() && elapsed_ms >= timeout_ms
    }

    /// Takes the line that was read; a line without a byte says that the
    /// stream has ended.
    pub fn take_line(&mut self, line: &[u8])
        ensures
            final(self).reading() == old(self).reading().after_line(line@),
    {
        self.reading = match self.reading {
            Reading::Header => {
                if line.len() == 0 {
                    Reading::Finished
                } else {
                    match parse_header_line(line) {
                        HeaderLine::Length(length) => Reading::Separator { length },
                        HeaderLine::Malformed => Reading::Finished,
                        HeaderLine::Other => Reading::Header,
                    }
                }
            },
            Reading::Separator { length } => Reading::Body { length },
            _ => Reading::Finished,
        };
    }

    /// Takes the bytes that were read for the body, and hands out the body
    /// when they are as many as were wanted. The reading is over either
    /// way.
    pub fn take_body(&mut self, bytes: Vec<u8>) -> (body: Option<Vec<u8>>)
        ensures
            final(self).reading() == Reading::Finished,
            body.is_some() == old(self).reading().body_from(bytes@).is_some(),
            body matches Some(taken) ==> Some(taken@) == old(self).reading().body_from(bytes@),
    {
        let reading = self.reading;
        self.reading = Reading::Finished;
        match reading {
            Reading::Body { length } => {
                if bytes.len() == length {
                    Some(bytes)
                } else {
                    None
                }
            },
            _ => None,
        }
    }

    /// Ends the reading: what was wanted could not be read.
    pub fn give_up(&mut self)
        ensures
            final(self).reading() == Reading::Finished,
    {
        self.reading = Reading::Finished;
    }
}

/// How far a reading is from its end, in steps that read nothing.
spec fn steps_left(reading: Reading) -> nat {
    match reading {
        Reading::Header => 3,
        Reading::Separator { .. } => 2,
        Reading::Body { .. } => 1,
        Reading::Finished => 0,
    }
}

/// The first message in `input`, and how many bytes it took.
///
/// Nothing is returned when the input holds no whole message yet, or when
/// its length line cannot be read; the input is not changed either way.
pub fn decode_frame(input: &[u8]) -> (frame: Option<Frame>)
    ensures
        frame is Some <==> first_frame(input@, 0) is Some,
        frame matches Some(found) ==> Some(found@) == first_frame(input@, 0),
{
    let mut reader = FrameReader::new();
    let mut at: usize = 0;
    loop
        invariant
            at <= input.len(),
            first_frame(input@, 0) == reader.reading().outcome(input@, at as int),
        decreases input.len() - at, steps_left(reader.reading()),
    {
        match reader.wants() {
            Want::Line => {
                let end = find_line_end(input, at);
                proof {
                    lemma_line_end(input@, at as int);
                }
                reader.take_line(vstd::slice::slice_subrange(input, at, end));
                at = end;
            },
            Want::Bytes(length) => {
                if length > input.len() - at {
                    return None;
                }
                let bytes = vstd::slice::slice_to_vec(
                    vstd::slice::slice_subrange(input, at, at + length),
                );
                return match reader.take_body(bytes) {
                    Some(body) => Some(Frame { body, consumed: at + length }),
                    None => None,
                };
            },
            Want::Nothing => {
                return None;
            },
        }
    }
}

/// Appends the digits of `n` to `out`.
fn push_decimal(out: &mut Vec<u8>, n: usize)
    ensures
        final(out)@ == old(out)@ + decimal(n as nat),
    decreases n,
{
    if n >= 10 {
        push_decimal(out, n / 10);
    }
    let digit: u8 = (n % 10) as u8;
    out.push(48 + digit);
    assert(final(out)@ =~= old(out)@ + decimal(n as nat));
}

/// The frame for `body`.
pub fn encode_frame(body: &[u8]) -> (frame: Vec<u8>)
    ensures
        frame@ == framed(body@),
{
    let name: [u8; 15] = [67, 111, 110, 116, 101, 110, 116, 45, 76, 101, 110, 103, 116, 104, 58];
    let mut frame: Vec<u8> = Vec::new();
    let mut i: usize = 0;
    while i < 15
        invariant
            i <= 15,
            name@ =~= header_name(),
            frame@ == header_name().take(i as int),
        decreases 15 - i,
    {
        frame.push(name[i]);
        i = i + 1;
        assert(frame@ =~= header_name().take(i as int));
    }
    assert(frame@ =~= header_name());
    frame.push(32);
    push_decimal(&mut frame, body.len());
    frame.push(CR);
    frame.push(LF);
    frame.push(CR);
    frame.push(LF);
    let ghost head = frame@;
    assert(head =~= header_name() + seq![32u8] + decimal(body.len() as nat) + seq![CR, LF, CR, LF]);
    let mut k: usize = 0;
    while k < body.len()
        invariant
            k <= body.len(),
            frame@ == head + body@.take(k as int),
        decreases body.len() - k,
    {
        frame.push(body[k]);
        k = k + 1;
        assert(frame@ =~= head + body@.take(k as int));
    }
    assert(body@.take(body.len() as int) =~= body@);
    frame
}

/// The digits of a number are a number, and they stand for it.
pub proof fn lemma_decimal(n: nat)
    ensures
        is_number(decimal(n)),
        number_value(decimal(n)) == n,
    decreases n,
{
    if n < 10 {
        assert(decimal(n).drop_last() =~= Seq::<u8>::empty());
        assert(number_value(decimal(n).drop_last()) == 0);
    } else {
        lemma_decimal(n / 10);
        assert(decimal(n).drop_last() =~= decimal(n / 10));
    }
}

/// A line ends behind the first line feed.
pub proof fn lemma_line_ends_at(input: Seq<u8>, from: int, feed: int)
    requires
        0 <= from <= feed < input.len(),
        input[feed] == LF,
        forall|i: int| from <= i < feed ==> input[i] != LF,
    ensures
        line_end(input, from) == feed + 1,
    decreases feed - from,
{
    if from < feed {
        lemma_line_ends_at(input, from + 1, feed);
    }
}

/// White space is passed over up to the first byte that is none.
proof fn lemma_skip_spaces(text: Seq<u8>, from: int, stop: int, to: int)
    requires
        0 <= from <= stop < to <= text.len(),
        forall|i: int| from <= i < stop ==> is_space(text[i]),
        text[stop] < 0x80 && !is_space(text[stop]),
    ensures
        skip_spaces(text, from, to) == stop,
    decreases stop - from,
{
    if from < stop {
        lemma_skip_spaces(text, from + 1, stop, to);
    }
}

/// White space is passed over backwards up to the last byte that is none.
proof fn lemma_skip_spaces_back(text: Seq<u8>, from: int, stop: int, to: int)
    requires
        0 <= from < stop <= to <= text.len(),
        forall|i: int| stop <= i < to ==> is_space(text[i]),
        text[stop - 1] < 0x80 && !is_space(text[stop - 1]),
    ensures
        skip_spaces_back(text, from, to) == stop,
    decreases to - stop,
{
    if stop < to {
        lemma_skip_spaces_back(text, from, stop, to - 1);
    }
}

/// The header line that [`framed`] writes gives the length it was written
/// for.
pub proof fn lemma_header_line_of_length(n: nat)
    requires
        n <= usize::MAX,
    ensures
        header_line(header_name() + seq![32u8] + decimal(n) + seq![CR, LF]) == HeaderLine::Length(
            n as usize,
        ),
{
    let digits = decimal(n);
    lemma_decimal(n);
    let line = header_name() + seq![32u8] + digits + seq![CR, LF];
    let rest = line.subrange(15, line.len() as int);
    assert(line.subrange(0, 15) =~= header_name());
    assert(rest =~= seq![32u8] + digits + seq![CR, LF]);
    assert(is_digit(digits[0]));
    assert(is_digit(digits[digits.len() - 1]));
    assert(rest[1] == digits[0]);
    assert(rest[digits.len() as int] == digits[digits.len() - 1]);
    lemma_skip_spaces(rest, 0, 1, rest.len() as int);
    lemma_skip_spaces_back(rest, 1, 1 + digits.len() as int, rest.len() as int);
    assert(trimmed(rest) =~= digits);
    assert(unsigned(digits) == digits);
}

/// Reading back what was written gives the body that was written, whatever
/// follows it on the wire, and takes exactly the bytes of its frame.
pub proof fn lemma_frame_round_trip(body: Seq<u8>, rest: Seq<u8>)
    requires
        body.len() <= usize::MAX,
    ensures
        first_frame(framed(body) + rest, 0) == Some(
            FrameView { body, consumed: framed(body).len() },
        ),
{
    let digits = decimal(body.len());
    lemma_decimal(body.len());
    let input = framed(body) + rest;
    let first: int = 16 + digits.len() as int;
    assert forall|i: int| 0 <= i < first + 1 implies input[i] != LF by {
        if i < 15 {
            assert(input[i] == header_name()[i]);
        } else if i == 15 {
        } else if i < first {
            assert(input[i] == digits[i - 16]);
            assert(is_digit(digits[i - 16]));
        } else {
            assert(input[i] == CR);
        }
    }
    assert(input[first + 1] == LF);
    lemma_line_ends_at(input, 0, first + 1);
    assert(input.subrange(0, first + 2) =~= header_name() + seq![32u8] + digits + seq![CR, LF]);
    lemma_header_line_of_length(body.len());
    assert(input[first + 2] == CR);
    assert(input[first + 3] == LF);
    lemma_line_ends_at(input, first + 2, first + 3);
    assert(input.subrange(first + 4, first + 4 + body.len()) =~= body);
    assert(framed(body).len() == first + 4 + body.len());
}

} // verus!
