//! This module provides the types of a lexed interchange and the lexer that
//! produces them.
use crate::mig::either::Either;
use crate::text::{
    after_blanks, is_blank, push_char, push_signed, push_text, signed_decimal, views,
};
use vstd::prelude::*;

verus! {

/// The UNA string advice is a service segment, which declares separators and
/// special characters, such as escaping characters, in any EDIFACT message.
/// It is optional and always the first segment in any interchange.
///
/// # Example
///
/// Here is an example: `UNA:+.? '`
#[derive(Clone, Copy, Debug, PartialEq, Eq, Structural)]
pub struct UNA {
    pub component_sep: char,
    pub element_sep: char,
    pub decimal_char: char,
    pub escape: char,
    pub reserved: char,
    pub segment_sep: char,
}

impl UNA {
    /// The service characters that hold where an interchange announces none.
    pub open spec fn standard() -> UNA {
        UNA {
            component_sep: ':',
            element_sep: '+',
            decimal_char: '.',
            escape: '?',
            reserved: ' ',
            segment_sep: '\'',
        }
    }

    /// Whether `c` separates components, elements or segments.
    pub open spec fn separates(&self, c: char) -> bool {
        self.component_sep == c || self.segment_sep == c || self.element_sep == c
    }

    /// Whether `c` is the escape character.
    pub open spec fn escapes(&self, c: char) -> bool {
        self.escape == c
    }

    /// Create a UNA service segment with default separators.
    ///
    /// These are:
    ///
    ///   - `:` as a component separator
    ///   - `+` as an element separator
    ///   - `.` as decimal separator
    ///   - `?` as escaping symbol
    ///   - `'` as segment separator
    ///
    pub fn default() -> (r: UNA)
        ensures
            r == UNA::standard(),
    {
        UNA {
            component_sep: ':',
            element_sep: '+',
            decimal_char: '.',
            escape: '?',
            reserved: ' ',
            segment_sep: '\'',
        }
    }

    /// Create a new UNA service segment with the specified separators.
    pub fn new(
        component_sep: char,
        element_sep: char,
        decimal_char: char,
        escape: char,
        reserved: char,
        segment_sep: char,
    ) -> (r: UNA)
        ensures
            r == (UNA { component_sep, element_sep, decimal_char, escape, reserved, segment_sep }),
    {
        UNA { component_sep, element_sep, decimal_char, escape, reserved, segment_sep }
    }

    /// The service string advice that announces these service characters.
    pub open spec fn advice(&self) -> Seq<char> {
        "UNA"@ + seq![
            self.component_sep,
            self.element_sep,
            self.decimal_char,
            self.escape,
            self.reserved,
            self.segment_sep,
        ]
    }

    /// The service string advice that announces these service characters:
    /// `UNA` and the six characters.
    pub fn to_string(&self) -> (r: String)
        ensures
            r@ == self.advice(),
    {
        let mut r = String::new();
        push_text(&mut r, "UNA");
        push_char(&mut r, self.component_sep);
        push_char(&mut r, self.element_sep);
        push_char(&mut r, self.decimal_char);
        push_char(&mut r, self.escape);
        push_char(&mut r, self.reserved);
        push_char(&mut r, self.segment_sep);
        assert(r@ =~= self.advice());
        r
    }

    /// Check, if the given character is a component, element or segment
    /// separator.
    #[verifier::when_used_as_spec(separates)]
    pub fn is_separator(&self, c: char) -> (r: bool)
        ensures
            r == self.separates(c),
    {
        self.component_sep == c || self.segment_sep == c || self.element_sep == c
    }

    /// Check, if the given character is the escape symbol.
    #[verifier::when_used_as_spec(escapes)]
    pub fn is_escape(&self, c: char) -> (r: bool)
        ensures
            r == self.escapes(c),
    {
        self.escape == c
    }
}

/// A `Position` is a line and a column, both counted from one. It tracks
/// where in the input a data element begins and ends.
#[derive(Clone, Copy, Debug, PartialEq, Eq, Structural)]
pub struct Position {
    pub line: i32,
    pub column: i32,
}

/// A `DataElement` represents a single data element and its start and
/// end position inside a composite element or segment.
#[derive(Debug)]
pub struct DataElement {
    pub start: Position,
    pub end: Position,
    /// The parsed value. Escaped characters will be contained without
    /// the escaping character.
    pub value: String,
}

/// What a `DataElement` holds, as plain values.
pub struct DataElementView {
    pub start: Position,
    pub end: Position,
    pub value: Seq<char>,
}

impl View for DataElement {
    type V = DataElementView;

    open spec fn view(&self) -> DataElementView {
        DataElementView { start: self.start, end: self.end, value: self.value@ }
    }
}

impl Clone for DataElement {
    fn clone(&self) -> (r: Self)
        ensures
            r@ == self@,
    {
        DataElement { start: self.start, end: self.end, value: self.value.clone() }
    }
}

/// A `Composite` represents a composite element as part of
/// a segment. It has to have at least two elements to be
/// categorized as such.
#[derive(Debug, Clone)]
pub struct Composite {
    pub elements: Vec<DataElement>,
}

/// What a `Composite` holds, as plain values.
pub struct CompositeView {
    pub elements: Seq<DataElementView>,
}

impl View for Composite {
    type V = CompositeView;

    open spec fn view(&self) -> CompositeView {
        CompositeView { elements: views(self.elements@) }
    }
}

/// What one element slot of a segment holds, as plain values.
pub type Slot = Either<CompositeView, DataElementView>;

/// A `Segment` represents a segment, which always starts with a
/// data element, called a `tag` and a number of follow-up
/// elements.
#[derive(Debug, Clone)]
pub struct Segment {
    pub tag: DataElement,
    pub elements: Vec<Either<Composite, DataElement>>,
}

/// What a `Segment` holds, as plain values.
pub struct SegmentView {
    pub tag: DataElementView,
    pub elements: Seq<Slot>,
}

impl View for Segment {
    type V = SegmentView;

    open spec fn view(&self) -> SegmentView {
        SegmentView { tag: self.tag@, elements: views(self.elements@) }
    }
}

/// An `Interchange` consists of a list of segments and a starting
/// UNA service segment.
#[derive(Debug, Clone)]
pub struct Interchange {
    pub una: UNA,
    pub segments: Vec<Segment>,
}

/// What an `Interchange` holds, as plain values.
pub struct InterchangeView {
    pub una: UNA,
    pub segments: Seq<SegmentView>,
}

impl View for Interchange {
    type V = InterchangeView;

    open spec fn view(&self) -> InterchangeView {
        InterchangeView { una: self.una, segments: views(self.segments@) }
    }
}

// POSITIONS

/// The line of the offset `i` of the text `s`: one more than the number of
/// line feeds before `i`.
pub open spec fn line_at(s: Seq<char>, i: int) -> int
    decreases i,
{
    if i <= 0 {
        1
    } else if s[i - 1] == '\n' {
        line_at(s, i - 1) + 1
    } else {
        line_at(s, i - 1)
    }
}

/// The column of the offset `i` of the text `s`: one more than the number
/// of characters between the last line feed before `i`, or the start of the
/// text, and `i`.
pub open spec fn column_at(s: Seq<char>, i: int) -> int
    decreases i,
{
    if i <= 0 {
        1
    } else if s[i - 1] == '\n' {
        1
    } else {
        column_at(s, i - 1) + 1
    }
}

/// The position of the offset `i` of the text `s`.
pub open spec fn position_at(s: Seq<char>, i: int) -> Position {
    Position { line: line_at(s, i) as i32, column: column_at(s, i) as i32 }
}

/// Lines and columns start at one and grow by at most one with each
/// character.
pub proof fn lemma_position_bounds(s: Seq<char>, i: int)
    requires
        0 <= i,
    ensures
        1 <= line_at(s, i) <= i + 1,
        1 <= column_at(s, i) <= i + 1,
    decreases i,
{
    if i > 0 {
        lemma_position_bounds(s, i - 1);
    }
}

/// A place in a text: the offset of a character, or the end of the text,
/// with the position that belongs to it.
#[derive(Clone, Copy, Debug, PartialEq, Eq, Structural)]
pub struct Cursor {
    pub offset: usize,
    pub position: Position,
}

impl Cursor {
    /// Whether this is a place in the text `s`.
    pub open spec fn within(&self, s: Seq<char>) -> bool {
        self.offset <= s.len() && self.position == position_at(s, self.offset as int)
    }

    /// The start of any text: the first column of the first line.
    pub fn start() -> (r: Cursor)
        ensures
            r == (Cursor { offset: 0, position: Position { line: 1, column: 1 } }),
            forall|s: Seq<char>| r.within(s),
    {
        Cursor { offset: 0, position: Position { line: 1, column: 1 } }
    }

    /// The place behind the character at this place.
    pub fn step(self, input: &[char]) -> (r: Cursor)
        requires
            self.within(input@),
            self.offset < input@.len(),
            self.offset + 1 < i32::MAX,
        ensures
            r.within(input@),
            r.offset == self.offset + 1,
    {
        proof {
            lemma_position_bounds(input@, self.offset as int);
            lemma_position_bounds(input@, self.offset + 1);
        }
        if input[self.offset] == '\n' {
            Cursor {
                offset: self.offset + 1,
                position: Position { line: self.position.line + 1, column: 1 },
            }
        } else {
            Cursor {
                offset: self.offset + 1,
                position: Position {
                    line: self.position.line,
                    column: self.position.column + 1,
                },
            }
        }
    }
}

// ERRORS

/// What the lexer would have accepted where it had to stop.
#[derive(Clone, Copy, Debug, PartialEq, Eq, Structural)]
pub enum Expected {
    /// Any character, behind the escape character.
    EscapedCharacter,
    /// The component separator, behind the first data element of a
    /// composite.
    ComponentSeparator,
    /// The element separator, behind the tag of a segment.
    ElementSeparator,
    /// A component, element or segment separator, behind a data element of
    /// a segment.
    Separator,
}

/// The one error of the lexer: where it had to stop, what it found there
/// (nothing at the end of the text), and what it would have accepted.
#[derive(Clone, Copy, Debug, PartialEq, Eq, Structural)]
pub struct ParseError {
    pub position: Position,
    pub unexpected: Option<char>,
    pub expected: Expected,
}

impl Expected {
    /// What was expected, in words.
    pub open spec fn words(self) -> Seq<char> {
        match self {
            Expected::EscapedCharacter => "a character behind the escape character"@,
            Expected::ComponentSeparator => "the component separator"@,
            Expected::ElementSeparator => "the element separator"@,
            Expected::Separator => "a separator"@,
        }
    }

    /// What was expected, in words.
    pub fn as_str(&self) -> (r: &'static str)
        ensures
            r@ == self.words(),
    {
        match self {
            Expected::EscapedCharacter => "a character behind the escape character",
            Expected::ComponentSeparator => "the component separator",
            Expected::ElementSeparator => "the element separator",
            Expected::Separator => "a separator",
        }
    }
}

impl ParseError {
    /// This error as text: a line with the position, a line with what was
    /// found, and a line with what was expected.
    pub open spec fn text(self) -> Seq<char> {
        "Parse error at line: "@ + signed_decimal(self.position.line as int) + ", column: "@
            + signed_decimal(self.position.column as int) + "\n"@ + (match self.unexpected {
            Some(c) => "Unexpected `"@ + seq![c] + "`\n"@,
            None => "Unexpected end of input\n"@,
        }) + "Expected "@ + self.expected.words() + "\n"@
    }

    /// This error as text: a line with the position, a line with what was
    /// found, and a line with what was expected.
    pub fn to_string(&self) -> (r: String)
        ensures
            r@ == self.text(),
    {
        let mut r = String::new();
        push_text(&mut r, "Parse error at line: ");
        push_signed(&mut r, self.position.line);
        push_text(&mut r, ", column: ");
        push_signed(&mut r, self.position.column);
        push_text(&mut r, "\n");
        match self.unexpected {
            Some(c) => {
                push_text(&mut r, "Unexpected `");
                push_char(&mut r, c);
                push_text(&mut r, "`\n");
            },
            None => {
                push_text(&mut r, "Unexpected end of input\n");
            },
        }
        push_text(&mut r, "Expected ");
        push_text(&mut r, self.expected.as_str());
        push_text(&mut r, "\n");
        assert(r@ =~= self.text());
        r
    }
}

/// The error of a lexer that had to stop at the offset `i` of the text `s`.
pub open spec fn failure(s: Seq<char>, i: int, expected: Expected) -> ParseError {
    ParseError {
        position: position_at(s, i),
        unexpected: if 0 <= i < s.len() {
            Some(s[i])
        } else {
            None
        },
        expected,
    }
}

/// The error of a lexer that had to stop at `at`.
fn fail(input: &[char], at: Cursor, expected: Expected) -> (r: ParseError)
    requires
        at.within(input@),
    ensures
        r == failure(input@, at.offset as int, expected),
{
    let unexpected = if at.offset < input.len() {
        Some(input[at.offset])
    } else {
        None
    };
    ParseError { position: at.position, unexpected, expected }
}

// THE GRAMMAR

/// Where the value that starts at the offset `i` ends: at the first
/// separator that is not escaped, at the end of the text, or at an escape
/// character that is the last character of the text. The escape character
/// takes the character behind it into the value, whatever it is.
pub open spec fn value_end(una: UNA, s: Seq<char>, i: int) -> int
    decreases s.len() - i,
{
    if i >= s.len() {
        s.len() as int
    } else if una.escapes(s[i]) {
        if i + 1 < s.len() {
            value_end(una, s, i + 2)
        } else {
            i
        }
    } else if una.separates(s[i]) {
        i
    } else {
        value_end(una, s, i + 1)
    }
}

/// The value that starts at the offset `i`: the characters up to where it
/// ends, without the escape characters.
pub open spec fn value_text(una: UNA, s: Seq<char>, i: int) -> Seq<char>
    decreases s.len() - i,
{
    if i >= s.len() {
        Seq::empty()
    } else if una.escapes(s[i]) {
        if i + 1 < s.len() {
            seq![s[i + 1]] + value_text(una, s, i + 2)
        } else {
            Seq::empty()
        }
    } else if una.separates(s[i]) {
        Seq::empty()
    } else {
        seq![s[i]] + value_text(una, s, i + 1)
    }
}

/// Whether an escape character stands at the offset `e`. Where a value
/// ends at such an offset, nothing follows the escape character.
pub open spec fn dangling(una: UNA, s: Seq<char>, e: int) -> bool {
    0 <= e < s.len() && una.escapes(s[e])
}

/// What a lexer yields: what it read, as plain values, and the offset
/// behind it; or the error.
pub type Lexed<T> = Result<(T, int), ParseError>;

/// The data element that starts at the offset `i`, and the offset at which
/// it ends. An escape character at the end of the text is an error.
pub open spec fn value_at(una: UNA, s: Seq<char>, i: int) -> Lexed<DataElementView> {
    let e = value_end(una, s, i);
    if dangling(una, s, e) {
        Err(failure(s, s.len() as int, Expected::EscapedCharacter))
    } else {
        Ok(
            (
                DataElementView {
                    start: position_at(s, i),
                    end: position_at(s, e),
                    value: value_text(una, s, i),
                },
                e,
            ),
        )
    }
}

/// The items `first`, followed by the items that `r` read.
pub open spec fn preceded<T>(first: Seq<T>, r: Lexed<Seq<T>>) -> Lexed<Seq<T>> {
    match r {
        Ok((others, end)) => Ok((first + others, end)),
        Err(e) => Err(e),
    }
}

/// The data elements of the element slot that starts at the offset `i`: a
/// data element, and as long as a component separator follows, another one
/// behind it.
pub open spec fn components_at(una: UNA, s: Seq<char>, i: int) -> Lexed<Seq<DataElementView>>
    decreases s.len() - i,
{
    match value_at(una, s, i) {
        Err(e) => Err(e),
        Ok((first, e)) => {
            if i <= e < s.len() && s[e] == una.component_sep {
                preceded(seq![first], components_at(una, s, e + 1))
            } else {
                Ok((seq![first], e))
            }
        },
    }
}

/// The composite that starts at the offset `i`: the data elements of the
/// slot, which must be more than one.
pub open spec fn composite_at(una: UNA, s: Seq<char>, i: int) -> Lexed<CompositeView> {
    match components_at(una, s, i) {
        Err(e) => Err(e),
        Ok((elements, e)) => {
            if elements.len() > 1 {
                Ok((CompositeView { elements }, e))
            } else {
                Err(failure(s, e, Expected::ComponentSeparator))
            }
        },
    }
}

/// The element slot that starts at the offset `i`: a composite, if the slot
/// holds more than one data element, else the one data element.
pub open spec fn slot_at(una: UNA, s: Seq<char>, i: int) -> Lexed<Slot> {
    match components_at(una, s, i) {
        Err(e) => Err(e),
        Ok((elements, e)) => {
            if elements.len() > 1 {
                Ok((Either::Left(CompositeView { elements }), e))
            } else {
                Ok((Either::Right(elements[0]), e))
            }
        },
    }
}

/// The element slots that start at the offset `i`: a slot, and as long as
/// an element separator follows, another one behind it.
pub open spec fn slots_at(una: UNA, s: Seq<char>, i: int) -> Lexed<Seq<Slot>>
    decreases s.len() - i,
{
    match slot_at(una, s, i) {
        Err(e) => Err(e),
        Ok((first, e)) => {
            if i <= e < s.len() && s[e] == una.element_sep {
                preceded(seq![first], slots_at(una, s, e + 1))
            } else {
                Ok((seq![first], e))
            }
        },
    }
}

/// The segment that starts at the offset `i`: the tag, the element
/// separator, the element slots, the segment separator, and white space up
/// to the offset that the segment is lexed with.
pub open spec fn segment_at(una: UNA, s: Seq<char>, i: int) -> Lexed<SegmentView> {
    match value_at(una, s, i) {
        Err(e) => Err(e),
        Ok((tag, t)) => {
            if !(0 <= t < s.len() && s[t] == una.element_sep) {
                Err(failure(s, t, Expected::ElementSeparator))
            } else {
                match slots_at(una, s, t + 1) {
                    Err(e) => Err(e),
                    Ok((elements, e)) => {
                        if !(0 <= e < s.len() && s[e] == una.segment_sep) {
                            Err(failure(s, e, Expected::Separator))
                        } else {
                            Ok((SegmentView { tag, elements }, after_blanks(s, e + 1)))
                        }
                    },
                }
            }
        },
    }
}

/// The segments from the offset `i` to the end of the text. (A segment
/// always ends behind where it starts; the test makes that plain.)
pub open spec fn segments_at(una: UNA, s: Seq<char>, i: int) -> Result<Seq<SegmentView>, ParseError>
    decreases s.len() - i,
{
    if i >= s.len() {
        Ok(Seq::empty())
    } else {
        match segment_at(una, s, i) {
            Err(e) => Err(e),
            Ok((first, next)) => {
                if i < next <= s.len() {
                    match segments_at(una, s, next) {
                        Ok(others) => Ok(seq![first] + others),
                        Err(e) => Err(e),
                    }
                } else {
                    Ok(seq![first])
                }
            },
        }
    }
}

/// Whether the text `s` starts with a service string advice: `UNA` and six
/// more characters.
pub open spec fn announces(s: Seq<char>) -> bool {
    s.len() >= 9 && s[0] == 'U' && s[1] == 'N' && s[2] == 'A'
}

/// The service characters of the text `s`: those that its service string
/// advice announces, in the order component separator, element separator,
/// decimal mark, escape character, reserved character, segment separator;
/// or the standard ones, if it starts with none.
pub open spec fn una_of(s: Seq<char>) -> UNA {
    if announces(s) {
        UNA {
            component_sep: s[3],
            element_sep: s[4],
            decimal_char: s[5],
            escape: s[6],
            reserved: s[7],
            segment_sep: s[8],
        }
    } else {
        UNA::standard()
    }
}

/// The offset at which the segments of the text `s` start: behind its
/// service string advice, if it starts with one.
pub open spec fn una_len(s: Seq<char>) -> int {
    if announces(s) {
        9
    } else {
        0
    }
}

/// The interchange that the text `s` holds: its service characters, and
/// its segments up to the end of the text.
pub open spec fn lex(s: Seq<char>) -> Result<InterchangeView, ParseError> {
    match segments_at(una_of(s), s, una_len(s)) {
        Ok(segments) => Ok(InterchangeView { una: una_of(s), segments }),
        Err(e) => Err(e),
    }
}

// THE LEXER

/// What an executable lexer yields, as plain values.
pub open spec fn lexed<T: View>(r: Result<(T, Cursor), ParseError>) -> Lexed<T::V> {
    match r {
        Ok((t, next)) => Ok((t@, next.offset as int)),
        Err(e) => Err(e),
    }
}

/// What an executable lexer of several items yields, as plain values.
pub open spec fn lexed_all<T: View>(r: Result<(Vec<T>, Cursor), ParseError>) -> Lexed<Seq<T::V>> {
    match r {
        Ok((t, next)) => Ok((views(t@), next.offset as int)),
        Err(e) => Err(e),
    }
}

/// A value ends at or behind where it starts, and within the text.
pub proof fn lemma_value_end(una: UNA, s: Seq<char>, i: int)
    requires
        0 <= i <= s.len(),
    ensures
        i <= value_end(una, s, i) <= s.len(),
    decreases s.len() - i,
{
    if i < s.len() {
        if una.escapes(s[i]) {
            if i + 1 < s.len() {
                lemma_value_end(una, s, i + 2);
            }
        } else if !una.separates(s[i]) {
            lemma_value_end(una, s, i + 1);
        }
    }
}

/// Items read one after the other are preceded by the first ones joined.
pub proof fn lemma_preceded<T>(a: Seq<T>, b: Seq<T>, r: Lexed<Seq<T>>)
    ensures
        preceded(a, preceded(b, r)) == preceded(a + b, r),
{
    match r {
        Ok((others, end)) => {
            assert(a + (b + others) =~= (a + b) + others);
        },
        Err(_) => {},
    }
}

impl UNA {
    /// Reads the service characters at the start of `input`: those of its
    /// service string advice, with the place behind it, or the standard
    /// ones, with the start of the text.
    pub fn parser(input: &[char]) -> (r: (UNA, Cursor))
        ensures
            r.0 == una_of(input@),
            r.1.offset == una_len(input@),
            r.1.within(input@),
    {
        let start = Cursor::start();
        if input.len() >= 9 && input[0] == 'U' && input[1] == 'N' && input[2] == 'A' {
            let una = UNA::new(input[3], input[4], input[5], input[6], input[7], input[8]);
            let mut at = start;
            while at.offset < 9
                invariant
                    at.within(input@),
                    at.offset <= 9 <= input@.len(),
                decreases 9 - at.offset,
            {
                at = at.step(input);
            }
            (una, at)
        } else {
            (UNA::default(), start)
        }
    }
}

impl DataElement {
    /// Reads the data element that starts at `at`, and returns it with the
    /// place at which it ends.
    pub fn parser(una: UNA, input: &[char], at: Cursor) -> (r: Result<
        (DataElement, Cursor),
        ParseError,
    >)
        requires
            at.within(input@),
            input@.len() < i32::MAX,
        ensures
            lexed(r) == value_at(una, input@, at.offset as int),
            r matches Ok((_, next)) ==> next.within(input@) && at.offset <= next.offset,
    {
        let ghost s = input@;
        let mut value = String::new();
        let mut cur = at;
        assert(value@ + value_text(una, s, at.offset as int) =~= value_text(
            una,
            s,
            at.offset as int,
        ));
        loop
            invariant
                s == input@,
                s.len() < i32::MAX,
                at.within(s),
                cur.within(s),
                at.offset <= cur.offset,
                value_end(una, s, at.offset as int) == value_end(una, s, cur.offset as int),
                value_text(una, s, at.offset as int) == value@ + value_text(
                    una,
                    s,
                    cur.offset as int,
                ),
            decreases s.len() - cur.offset,
        {
            let ghost text = value@;
            if cur.offset >= input.len() {
                assert(text + Seq::<char>::empty() =~= text);
                return Ok((DataElement { start: at.position, end: cur.position, value }, cur));
            }
            let c = input[cur.offset];
            if una.is_escape(c) {
                let escaped = cur.step(input);
                if escaped.offset < input.len() {
                    let literal = input[escaped.offset];
                    push_char(&mut value, literal);
                    assert(text + (seq![literal] + value_text(una, s, cur.offset + 2)) =~= text.push(
                        literal,
                    ) + value_text(una, s, cur.offset + 2));
                    cur = escaped.step(input);
                } else {
                    return Err(fail(input, escaped, Expected::EscapedCharacter));
                }
            } else if una.is_separator(c) {
                assert(text + Seq::<char>::empty() =~= text);
                return Ok((DataElement { start: at.position, end: cur.position, value }, cur));
            } else {
                push_char(&mut value, c);
                assert(text + (seq![c] + value_text(una, s, cur.offset + 1)) =~= text.push(c)
                    + value_text(una, s, cur.offset + 1));
                cur = cur.step(input);
            }
        }
    }
}

/// Reads the data elements of the element slot that starts at `at`.
fn components(una: &UNA, input: &[char], at: Cursor) -> (r: Result<
    (Vec<DataElement>, Cursor),
    ParseError,
>)
    requires
        at.within(input@),
        input@.len() < i32::MAX,
    ensures
        lexed_all(r) == components_at(*una, input@, at.offset as int),
        r matches Ok((elements, next)) ==> next.within(input@) && at.offset <= next.offset
            && elements@.len() > 0,
{
    let ghost s = input@;
    let mut elements: Vec<DataElement> = Vec::new();
    let mut cur = at;
    proof {
        let whole = components_at(*una, s, at.offset as int);
        assert(preceded(views(elements@), whole) == whole) by {
            match whole {
                Ok((others, end)) => {
                    assert(views(elements@) + others =~= others);
                },
                Err(_) => {},
            }
        }
    }
    loop
        invariant
            s == input@,
            s.len() < i32::MAX,
            cur.within(s),
            at.offset <= cur.offset,
            components_at(*una, s, at.offset as int) == preceded(
                views(elements@),
                components_at(*una, s, cur.offset as int),
            ),
        decreases s.len() - cur.offset,
    {
        let ghost before = elements@;
        let (element, next) = match DataElement::parser(*una, input, cur) {
            Ok(read) => read,
            Err(e) => {
                return Err(e);
            },
        };
        elements.push(element);
        proof {
            assert(views(elements@) =~= views(before) + seq![element@]);
            lemma_preceded(
                views(before),
                seq![element@],
                components_at(*una, s, next.offset + 1),
            );
        }
        if next.offset < input.len() && input[next.offset] == una.component_sep {
            cur = next.step(input);
        } else {
            return Ok((elements, next));
        }
    }
}

impl Composite {
    /// Reads the composite that starts at `at`: data elements with a
    /// component separator between them, and at least two of them.
    pub fn parser(una: &UNA, input: &[char], at: Cursor) -> (r: Result<
        (Composite, Cursor),
        ParseError,
    >)
        requires
            at.within(input@),
            input@.len() < i32::MAX,
        ensures
            lexed(r) == composite_at(*una, input@, at.offset as int),
            r matches Ok((_, next)) ==> next.within(input@) && at.offset <= next.offset,
    {
        match components(una, input, at) {
            Ok((elements, next)) => {
                if elements.len() > 1 {
                    Ok((Composite { elements }, next))
                } else {
                    Err(fail(input, next, Expected::ComponentSeparator))
                }
            },
            Err(e) => Err(e),
        }
    }
}

/// Reads the element slot that starts at `at`.
fn slot(una: &UNA, input: &[char], at: Cursor) -> (r: Result<
    (Either<Composite, DataElement>, Cursor),
    ParseError,
>)
    requires
        at.within(input@),
        input@.len() < i32::MAX,
    ensures
        lexed(r) == slot_at(*una, input@, at.offset as int),
        r matches Ok((_, next)) ==> next.within(input@) && at.offset <= next.offset,
{
    match components(una, input, at) {
        Ok((elements, next)) => {
            if elements.len() > 1 {
                Ok((Either::Left(Composite { elements }), next))
            } else {
                let mut elements = elements;
                Ok((Either::Right(elements.remove(0)), next))
            }
        },
        Err(e) => Err(e),
    }
}

/// Reads the element slots that start at `at`.
fn slots(una: &UNA, input: &[char], at: Cursor) -> (r: Result<
    (Vec<Either<Composite, DataElement>>, Cursor),
    ParseError,
>)
    requires
        at.within(input@),
        input@.len() < i32::MAX,
    ensures
        lexed_all(r) == slots_at(*una, input@, at.offset as int),
        r matches Ok((_, next)) ==> next.within(input@) && at.offset <= next.offset,
{
    let ghost s = input@;
    let mut elements: Vec<Either<Composite, DataElement>> = Vec::new();
    let mut cur = at;
    proof {
        let whole = slots_at(*una, s, at.offset as int);
        assert(preceded(views(elements@), whole) == whole) by {
            match whole {
                Ok((others, end)) => {
                    assert(views(elements@) + others =~= others);
                },
                Err(_) => {},
            }
        }
    }
    loop
        invariant
            s == input@,
            s.len() < i32::MAX,
            cur.within(s),
            at.offset <= cur.offset,
            slots_at(*una, s, at.offset as int) == preceded(
                views(elements@),
                slots_at(*una, s, cur.offset as int),
            ),
        decreases s.len() - cur.offset,
    {
        let ghost before = elements@;
        let (element, next) = match slot(una, input, cur) {
            Ok(read) => read,
            Err(e) => {
                return Err(e);
            },
        };
        elements.push(element);
        proof {
            assert(views(elements@) =~= views(before) + seq![element@]);
            lemma_preceded(views(before), seq![element@], slots_at(*una, s, next.offset + 1));
        }
        if next.offset < input.len() && input[next.offset] == una.element_sep {
            cur = next.step(input);
        } else {
            return Ok((elements, next));
        }
    }
}

/// The first place at or behind `at` that holds no white space.
fn skip_blanks(input: &[char], at: Cursor) -> (r: Cursor)
    requires
        at.within(input@),
        input@.len() < i32::MAX,
    ensures
        r.within(input@),
        r.offset == after_blanks(input@, at.offset as int),
        at.offset <= r.offset,
{
    let mut cur = at;
    while cur.offset < input.len() && is_blank(input[cur.offset])
        invariant
            cur.within(input@),
            input@.len() < i32::MAX,
            at.offset <= cur.offset,
            after_blanks(input@, at.offset as int) == after_blanks(input@, cur.offset as int),
        decreases input@.len() - cur.offset,
    {
        cur = cur.step(input);
    }
    cur
}

impl Segment {
    /// Reads the segment that starts at `at`, and returns it with the place
    /// behind the white space that follows it.
    pub fn parser(una: &UNA, input: &[char], at: Cursor) -> (r: Result<
        (Segment, Cursor),
        ParseError,
    >)
        requires
            at.within(input@),
            input@.len() < i32::MAX,
        ensures
            lexed(r) == segment_at(*una, input@, at.offset as int),
            r matches Ok((_, next)) ==> next.within(input@) && at.offset + 2 <= next.offset,
    {
        let (tag, behind_tag) = match DataElement::parser(*una, input, at) {
            Ok(read) => read,
            Err(e) => {
                return Err(e);
            },
        };
        if !(behind_tag.offset < input.len() && input[behind_tag.offset] == una.element_sep) {
            return Err(fail(input, behind_tag, Expected::ElementSeparator));
        }
        let (elements, behind_elements) = match slots(una, input, behind_tag.step(input)) {
            Ok(read) => read,
            Err(e) => {
                return Err(e);
            },
        };
        if !(behind_elements.offset < input.len() && input[behind_elements.offset]
            == una.segment_sep) {
            return Err(fail(input, behind_elements, Expected::Separator));
        }
        let next = skip_blanks(input, behind_elements.step(input));
        Ok((Segment { tag, elements }, next))
    }
}

impl Interchange {
    /// Reads the interchange that `input` holds: its service characters,
    /// and its segments up to the end of the text.
    pub fn parser(input: &[char]) -> (r: Result<Interchange, ParseError>)
        requires
            input@.len() < i32::MAX,
        ensures
            (match r {
                Ok(interchange) => Ok(interchange@),
                Err(e) => Err(e),
            }) == lex(input@),
    {
        let ghost s = input@;
        let (una, start) = UNA::parser(input);
        let mut segments: Vec<Segment> = Vec::new();
        let mut cur = start;
        let ghost whole = segments_at(una, s, start.offset as int);
        proof {
            match whole {
                Ok(others) => {
                    assert(views(segments@) + others =~= others);
                },
                Err(_) => {},
            }
        }
        while cur.offset < input.len()
            invariant
                s == input@,
                s.len() < i32::MAX,
                cur.within(s),
                una == una_of(s),
                start.offset == una_len(s),
                whole == segments_at(una, s, start.offset as int),
                whole == (match segments_at(una, s, cur.offset as int) {
                    Ok(others) => Ok(views(segments@) + others),
                    Err(e) => Err(e),
                }),
            decreases s.len() - cur.offset,
        {
            let ghost before = segments@;
            let (segment, next) = match Segment::parser(&una, input, cur) {
                Ok(read) => read,
                Err(e) => {
                    return Err(e);
                },
            };
            segments.push(segment);
            proof {
                assert(views(segments@) =~= views(before) + seq![segment@]);
                match segments_at(una, s, next.offset as int) {
                    Ok(others) => {
                        assert(views(before) + (seq![segment@] + others) =~= (views(before)
                            + seq![segment@]) + others);
                    },
                    Err(_) => {},
                }
            }
            cur = next;
        }
        proof {
            assert(views(segments@) + Seq::<SegmentView>::empty() =~= views(segments@));
        }
        Ok(Interchange { una, segments })
    }
}

} // verus!
