//! State of a single-line text field: content, selection and composition.
//!
//! Positions are byte offsets into the content. The platform speaks of UTF-16
//! offsets; the conversions live here too. The field's model is [`TextState`],
//! and each operation is a function on that model.

use crate::offsets::{self, Encoding};
use std::ops::Range;
use unicode_segmentation::UnicodeSegmentation;
use vstd::prelude::*;
use vstd::string::*;

verus! {

/// A range of positions in the model.
pub struct Span {
    pub start: nat,
    pub end: nat,
}

impl Span {
    /// Whether the span holds no position between its ends.
    pub open spec fn empty(self) -> bool {
        self.start >= self.end
    }
}

/// The model of a range of offsets.
pub open spec fn span_of(range: Range<usize>) -> Span {
    Span { start: range.start as nat, end: range.end as nat }
}

/// The model of a text field.
pub struct TextState {
    pub text: Seq<char>,
    pub selected: Span,
    pub reversed: bool,
    pub marked: Option<Span>,
    pub selecting: bool,
    pub maximum_bytes: nat,
}

/// The byte offsets at which the extended grapheme clusters of a text start,
/// in ascending order.
pub uninterp spec fn grapheme_starts_of(text: Seq<char>) -> Seq<usize>;

/// `UnicodeSegmentation::grapheme_indices` with extended clusters, reduced to
/// the offset of each cluster. The clusters are non-empty slices of the text
/// that follow one another from its start, so the offsets ascend strictly,
/// begin with zero when there is any, and each stands in front of a character.
#[verifier::external_body]
fn grapheme_starts(text: &str) -> (starts: Vec<usize>)
    ensures
        starts@ == grapheme_starts_of(text@),
        forall|i: int, j: int| 0 <= i < j < starts@.len() ==> starts@[i] < starts@[j],
        forall|i: int|
            0 <= i < starts@.len() ==> offsets::is_position(
                Encoding::Utf8,
                text@,
                #[trigger] starts@[i] as nat,
            ) && starts@[i] < offsets::byte_len(text@),
        text@.len() > 0 ==> starts@.len() > 0 && starts@[0] == 0,
{
    text.grapheme_indices(true).map(|(start, _)| start).collect()
}

/// The last start below `offset`, or the beginning of the text.
pub open spec fn last_below(starts: Seq<usize>, offset: nat) -> nat
    decreases starts.len(),
{
    if starts.len() == 0 {
        0
    } else if starts.last() < offset {
        starts.last() as nat
    } else {
        last_below(starts.drop_last(), offset)
    }
}

/// The first start above `offset`, or `end`.
pub open spec fn first_above(starts: Seq<usize>, offset: nat, end: nat) -> nat
    decreases starts.len(),
{
    if starts.len() == 0 {
        end
    } else if starts[0] > offset {
        starts[0] as nat
    } else {
        first_above(starts.drop_first(), offset, end)
    }
}

/// The last of the cluster starts that stands below `offset`; zero where none does.
pub fn previous_boundary_in(starts: &Vec<usize>, offset: usize) -> (found: usize)
    ensures
        found == last_below(starts@, offset as nat),
        found == 0 || starts@.contains(found) && found < offset,
{
    let mut index: usize = starts.len();
    assert(starts@.take(index as int) =~= starts@);
    while index > 0
        invariant
            index <= starts@.len(),
            last_below(starts@, offset as nat) == last_below(
                starts@.take(index as int),
                offset as nat,
            ),
        decreases index,
    {
        assert(starts@.take(index as int).last() == starts@[index - 1]);
        assert(starts@.take(index as int).drop_last() =~= starts@.take(index - 1));
        index -= 1;
        if starts[index] < offset {
            return starts[index];
        }
    }
    0
}

/// The first of the cluster starts that stands above `offset`; `end` where none does.
pub fn next_boundary_in(starts: &Vec<usize>, offset: usize, end: usize) -> (found: usize)
    ensures
        found == first_above(starts@, offset as nat, end as nat),
        found == end || starts@.contains(found) && found > offset,
{
    let mut index: usize = 0;
    assert(starts@.skip(0) =~= starts@);
    while index < starts.len()
        invariant
            index <= starts@.len(),
            first_above(starts@, offset as nat, end as nat) == first_above(
                starts@.skip(index as int),
                offset as nat,
                end as nat,
            ),
        decreases starts@.len() - index,
    {
        assert(starts@.skip(index as int)[0] == starts@[index as int]);
        assert(starts@.skip(index as int).drop_first() =~= starts@.skip(index + 1));
        if starts[index] > offset {
            return starts[index];
        }
        index += 1;
    }
    end
}

/// The longest prefix of `text` that takes at most `maximum` bytes.
pub open spec fn truncated(text: Seq<char>, maximum: nat) -> Seq<char> {
    text.take(offsets::fitting(Encoding::Utf8, text, maximum) as int)
}

/// The last position of `text` that is not above `offset`.
pub open spec fn floor_position(text: Seq<char>, offset: nat) -> nat {
    offsets::position(Encoding::Utf8, text, offsets::fitting(Encoding::Utf8, text, offset) as int)
}

/// The span with both ends moved down to positions of `text`, the end not before the start.
pub open spec fn normalized(text: Seq<char>, span: Span) -> Span {
    let start = floor_position(text, span.start);
    let end = floor_position(text, span.end);
    Span {
        start,
        end: if end < start {
            start
        } else {
            end
        },
    }
}

/// The byte position that a UTF-16 offset stands for: the last one not beyond it.
pub open spec fn from_utf16(text: Seq<char>, offset: nat) -> nat {
    offsets::position(Encoding::Utf8, text, offsets::fitting(Encoding::Utf16, text, offset) as int)
}

/// The UTF-16 offset of the last position that is not above `offset`.
pub open spec fn to_utf16(text: Seq<char>, offset: nat) -> nat {
    offsets::position(Encoding::Utf16, text, offsets::fitting(Encoding::Utf8, text, offset) as int)
}

/// Both ends of a UTF-16 span as byte positions.
pub open spec fn span_from_utf16(text: Seq<char>, span: Span) -> Span {
    Span { start: from_utf16(text, span.start), end: from_utf16(text, span.end) }
}

/// Both ends of a byte span as UTF-16 offsets.
pub open spec fn span_to_utf16(text: Seq<char>, span: Span) -> Span {
    Span { start: to_utf16(text, span.start), end: to_utf16(text, span.end) }
}

/// The text with every line break character replaced by a space.
pub open spec fn single_line(text: Seq<char>) -> Seq<char> {
    text.map_values(
        |character: char|
            if character == '\n' || character == '\r' {
                ' '
            } else {
                character
            },
    )
}

/// The longest prefix of `value` that takes at most `maximum_bytes` bytes.
pub fn truncate_boundary(value: &str, maximum_bytes: usize) -> (prefix: &str)
    ensures
        prefix@ == truncated(value@, maximum_bytes as nat),
        offsets::byte_len(prefix@) <= maximum_bytes,
        offsets::byte_len(value@) <= maximum_bytes ==> prefix@ == value@,
{
    let count = offsets::fitting_of(Encoding::Utf8, value, maximum_bytes);
    proof {
        offsets::lemma_fitting(Encoding::Utf8, value@, maximum_bytes as nat);
        assert(value@.take(value@.len() as int) =~= value@);
        assert(value@.subrange(0, count as int) =~= value@.take(count as int));
    }
    value.substring_char(0, count)
}

/// The last character boundary that is not above `offset`.
pub fn floor_char_boundary(value: &str, offset: usize) -> (floor: usize)
    ensures
        floor == floor_position(value@, offset as nat),
        floor <= offset,
        floor <= offsets::byte_len(value@),
{
    let count = offsets::fitting_of(Encoding::Utf8, value, offset);
    proof {
        offsets::lemma_fitting(Encoding::Utf8, value@, offset as nat);
        offsets::lemma_positions_increase(Encoding::Utf8, value@, count as int, value@.len() as int);
        assert(value@.take(value@.len() as int) =~= value@);
    }
    offsets::position_of(Encoding::Utf8, value, count)
}

/// Clamps a range to character boundaries of `value`, with the end not before the start.
pub fn normalize_range(value: &str, range: Range<usize>) -> (normal: Range<usize>)
    ensures
        span_of(normal) == normalized(value@, span_of(range)),
        normal.start <= normal.end <= offsets::byte_len(value@),
{
    let start = floor_char_boundary(value, range.start);
    let end = floor_char_boundary(value, range.end);
    if end < start {
        start..start
    } else {
        start..end
    }
}

/// The byte offset of the last position that is not beyond a UTF-16 offset.
pub fn offset_from_utf16(value: &str, offset: usize) -> (bytes: usize)
    ensures
        bytes == from_utf16(value@, offset as nat),
        bytes <= offsets::byte_len(value@),
{
    let count = offsets::fitting_of(Encoding::Utf16, value, offset);
    proof {
        offsets::lemma_fitting(Encoding::Utf16, value@, offset as nat);
        offsets::lemma_positions_increase(Encoding::Utf8, value@, count as int, value@.len() as int);
    }
    offsets::position_of(Encoding::Utf8, value, count)
}

/// The UTF-16 offset of the last position that is not above a byte offset.
pub fn offset_to_utf16(value: &str, offset: usize) -> (units: usize)
    ensures
        units == to_utf16(value@, offset as nat),
{
    let count = offsets::fitting_of(Encoding::Utf8, value, offset);
    proof {
        offsets::lemma_fitting(Encoding::Utf8, value@, offset as nat);
    }
    offsets::position_of(Encoding::Utf16, value, count)
}

/// Turns a selection given in UTF-16 offsets into the inserted text into byte
/// offsets into the whole content.
pub fn marked_selection(
    inserted_start: usize,
    inserted_text: &str,
    selection_utf16: Range<usize>,
) -> (selection: Range<usize>)
    requires
        inserted_start + offsets::byte_len(inserted_text@) <= usize::MAX,
    ensures
        selection.start == inserted_start + from_utf16(
            inserted_text@,
            selection_utf16.start as nat,
        ),
        selection.end == inserted_start + from_utf16(inserted_text@, selection_utf16.end as nat),
{
    let start = offset_from_utf16(inserted_text, selection_utf16.start);
    let end = offset_from_utf16(inserted_text, selection_utf16.end);
    inserted_start + start..inserted_start + end
}

/// Replaces every line break character by a space.
pub fn single_line_text(value: &str) -> (line: String)
    ensures
        line@ == single_line(value@),
{
    let mut line = String::new();
    for character in it: value.chars()
        invariant
            it.seq() == value@,
            line@ == single_line(value@.take(it.index() as int)),
    {
        proof {
            assert(value@.take(it.index() + 1) =~= value@.take(it.index() as int).push(character));
            assert(single_line(value@.take(it.index() + 1)) =~= single_line(
                value@.take(it.index() as int),
            ).push(
                if character == '\n' || character == '\r' {
                    ' '
                } else {
                    character
                },
            ));
        }
        if character == '\n' || character == '\r' {
            line.push(' ');
        } else {
            line.push(character);
        }
    }
    assert(value@.take(value@.len() as int) =~= value@);
    line
}

impl TextState {
    /// An empty field that holds at most so many bytes.
    pub open spec fn blank(maximum_bytes: nat) -> TextState {
        TextState {
            text: Seq::empty(),
            selected: Span { start: 0, end: 0 },
            reversed: false,
            marked: None,
            selecting: false,
            maximum_bytes,
        }
    }

    /// The field with its content replaced by as much of `value` as fits, the
    /// caret behind it.
    pub open spec fn holding(self, value: Seq<char>) -> TextState {
        let text = truncated(value, self.maximum_bytes);
        let end = offsets::byte_len(text);
        TextState { text, selected: Span { start: end, end }, marked: None, ..self }
    }

    /// A valid field: the content respects its limit, and composition marks
    /// lie on positions of the content.
    pub open spec fn wf(self) -> bool {
        &&& offsets::byte_len(self.text) <= self.maximum_bytes
        &&& match self.marked {
            Some(span) => self.holds(span) && span.start < span.end,
            None => true,
        }
    }

    /// Whether both ends of a span are positions of the content.
    pub open spec fn holds(self, span: Span) -> bool {
        &&& offsets::is_position(Encoding::Utf8, self.text, span.start)
        &&& offsets::is_position(Encoding::Utf8, self.text, span.end)
        &&& span.start <= offsets::byte_len(self.text)
        &&& span.end <= offsets::byte_len(self.text)
    }

    /// Where the caret stands.
    pub open spec fn cursor(self) -> nat {
        if self.reversed {
            self.selected.start
        } else {
            self.selected.end
        }
    }

    /// The caret at `offset`, with nothing selected.
    pub open spec fn move_to(self, offset: nat) -> TextState {
        TextState { selected: Span { start: offset, end: offset }, reversed: false, ..self }
    }

    /// The caret end of the selection moved to `offset`.
    pub open spec fn select_to(self, offset: nat) -> TextState {
        let span = if self.reversed {
            Span { start: offset, end: self.selected.end }
        } else {
            Span { start: self.selected.start, end: offset }
        };
        if span.end < span.start {
            TextState {
                selected: Span { start: span.end, end: span.start },
                reversed: !self.reversed,
                ..self
            }
        } else {
            TextState { selected: span, ..self }
        }
    }

    /// The start of the cluster in front of `offset`.
    pub open spec fn previous_boundary(self, starts: Seq<usize>, offset: nat) -> nat {
        last_below(starts, offset)
    }

    /// The end of the cluster behind `offset`.
    pub open spec fn next_boundary(self, starts: Seq<usize>, offset: nat) -> nat {
        first_above(starts, offset, offsets::byte_len(self.text))
    }

    /// How many bytes may be inserted in place of a normalized span.
    pub open spec fn available(self, span: Span) -> nat {
        (self.maximum_bytes - (offsets::byte_len(self.text) - (span.end - span.start))) as nat
    }

    /// What is inserted of `text` in place of a normalized span.
    pub open spec fn inserted(self, span: Span, text: Seq<char>) -> Seq<char> {
        truncated(text, self.available(span))
    }

    /// The content with a normalized span replaced by as much of `text` as fits.
    pub open spec fn replaced_text(self, span: Span, text: Seq<char>) -> Seq<char> {
        self.text.take(offsets::fitting(Encoding::Utf8, self.text, span.start) as int)
            + self.inserted(span, text) + self.text.skip(
            offsets::fitting(Encoding::Utf8, self.text, span.end) as int,
        )
    }

    /// The span that the inserted text takes.
    pub open spec fn inserted_span(self, span: Span, text: Seq<char>) -> Span {
        let normal = normalized(self.text, span);
        Span {
            start: normal.start,
            end: normal.start + offsets::byte_len(self.inserted(normal, text)),
        }
    }

    /// The span replaced by as much of `text` as fits, the caret behind it.
    pub open spec fn replace(self, span: Span, text: Seq<char>) -> TextState {
        let cursor = self.inserted_span(span, text).end;
        TextState {
            text: self.replaced_text(normalized(self.text, span), text),
            selected: Span { start: cursor, end: cursor },
            reversed: false,
            marked: None,
            ..self
        }
    }

    /// The span that a platform edit is about: the given one, else the
    /// composition, else the selection.
    pub open spec fn edit_span(self, range_utf16: Option<Span>) -> Span {
        match (range_utf16, self.marked) {
            (Some(span), _) => span_from_utf16(self.text, span),
            (None, Some(span)) => span,
            (None, None) => self.selected,
        }
    }

    /// A platform edit that leaves no composition.
    pub open spec fn replace_text_in_range(
        self,
        range_utf16: Option<Span>,
        text: Seq<char>,
    ) -> TextState {
        self.replace(self.edit_span(range_utf16), text)
    }

    /// A platform edit whose inserted text stays a composition.
    pub open spec fn replace_and_mark(
        self,
        range_utf16: Option<Span>,
        text: Seq<char>,
        selection_utf16: Option<Span>,
    ) -> TextState {
        let span = self.edit_span(range_utf16);
        let inserted = self.inserted_span(span, text);
        let inserted_text = self.inserted(normalized(self.text, span), text);
        let edited = self.replace(span, text);
        TextState {
            marked: if inserted.empty() {
                None
            } else {
                Some(inserted)
            },
            selected: match selection_utf16 {
                Some(selection) => Span {
                    start: inserted.start + from_utf16(inserted_text, selection.start),
                    end: inserted.start + from_utf16(inserted_text, selection.end),
                },
                None => edited.selected,
            },
            ..edited
        }
    }

    /// The caret moved left, or to the start of the selection.
    pub open spec fn left(self, starts: Seq<usize>) -> TextState {
        if self.selected.empty() {
            self.move_to(self.previous_boundary(starts, self.cursor()))
        } else {
            self.move_to(self.selected.start)
        }
    }

    /// The caret moved right, or to the end of the selection.
    pub open spec fn right(self, starts: Seq<usize>) -> TextState {
        if self.selected.empty() {
            self.move_to(self.next_boundary(starts, self.selected.end))
        } else {
            self.move_to(self.selected.end)
        }
    }

    /// The selection, extended to the left where it is empty, removed.
    pub open spec fn backspace(self, starts: Seq<usize>) -> TextState {
        let chosen = if self.selected.empty() {
            self.select_to(self.previous_boundary(starts, self.cursor()))
        } else {
            self
        };
        chosen.replace_text_in_range(None, Seq::empty())
    }

    /// The selection, extended to the right where it is empty, removed.
    pub open spec fn delete(self, starts: Seq<usize>) -> TextState {
        let chosen = if self.selected.empty() {
            self.select_to(self.next_boundary(starts, self.cursor()))
        } else {
            self
        };
        chosen.replace_text_in_range(None, Seq::empty())
    }

    /// The characters between the ends of a span of positions.
    pub open spec fn slice(self, span: Span) -> Seq<char> {
        self.text.subrange(
            offsets::fitting(Encoding::Utf8, self.text, span.start) as int,
            offsets::fitting(Encoding::Utf8, self.text, span.end) as int,
        )
    }
}

/// Normalizing gives positions of the text, in order.
pub proof fn lemma_normalized(text: Seq<char>, span: Span)
    ensures
        ({
            let normal = normalized(text, span);
            &&& normal.start <= normal.end <= offsets::byte_len(text)
            &&& offsets::is_position(Encoding::Utf8, text, normal.start)
            &&& offsets::is_position(Encoding::Utf8, text, normal.end)
            &&& offsets::fitting(Encoding::Utf8, text, normal.start) <= offsets::fitting(
                Encoding::Utf8,
                text,
                normal.end,
            ) <= text.len()
        }),
{
    lemma_floor_position(text, span.start);
    lemma_floor_position(text, span.end);
    let start = offsets::fitting(Encoding::Utf8, text, span.start) as int;
    let end = offsets::fitting(Encoding::Utf8, text, span.end) as int;
    if end < start {
        offsets::lemma_positions_increase(Encoding::Utf8, text, end, start);
    } else {
        offsets::lemma_positions_increase(Encoding::Utf8, text, start, end);
    }
}

/// Moving down to a position gives a position that is not above the offset.
pub proof fn lemma_floor_position(text: Seq<char>, offset: nat)
    ensures
        floor_position(text, offset) <= offset,
        floor_position(text, offset) <= offsets::byte_len(text),
        offsets::is_position(Encoding::Utf8, text, floor_position(text, offset)),
        offsets::fitting(Encoding::Utf8, text, floor_position(text, offset)) == offsets::fitting(
            Encoding::Utf8,
            text,
            offset,
        ),
        offsets::fitting(Encoding::Utf8, text, offset) <= text.len(),
{
    let count = offsets::fitting(Encoding::Utf8, text, offset) as int;
    offsets::lemma_fitting(Encoding::Utf8, text, offset);
    offsets::lemma_position_is_position(Encoding::Utf8, text, count);
    offsets::lemma_positions_increase(Encoding::Utf8, text, count, text.len() as int);
}

/// The content stays within its limit under every replacement, and the
/// inserted text stands between positions of the new content.
pub proof fn lemma_replace(state: TextState, span: Span, text: Seq<char>)
    requires
        state.wf(),
    ensures
        state.replace(span, text).wf(),
        state.replace(span, text).holds(state.inserted_span(span, text)),
        state.replace(span, text).holds(state.replace(span, text).selected),
        state.replace(span, text).slice(state.inserted_span(span, text)) == state.inserted(
            normalized(state.text, span),
            text,
        ),
{
    let normal = normalized(state.text, span);
    lemma_normalized(state.text, span);
    let before = offsets::fitting(Encoding::Utf8, state.text, normal.start) as int;
    let after = offsets::fitting(Encoding::Utf8, state.text, normal.end) as int;
    let head = state.text.take(before);
    let middle = state.inserted(normal, text);
    let tail = state.text.skip(after);
    let content = state.replaced_text(normal, text);
    offsets::lemma_fitting(Encoding::Utf8, text, state.available(normal));
    offsets::lemma_encoded_len_concat(Encoding::Utf8, head, middle);
    offsets::lemma_encoded_len_concat(Encoding::Utf8, head + middle, tail);
    assert(state.text =~= state.text.take(after) + tail);
    offsets::lemma_encoded_len_concat(Encoding::Utf8, state.text.take(after), tail);
    assert(content.take(before) =~= head);
    assert(content.take(before + middle.len()) =~= head + middle);
    offsets::lemma_position_is_position(Encoding::Utf8, content, before);
    offsets::lemma_position_is_position(Encoding::Utf8, content, before + middle.len());
    assert(content.subrange(before, before + middle.len()) =~= middle);
}

/// The model of an optional range.
pub open spec fn optional_span(range: Option<Range<usize>>) -> Option<Span> {
    match range {
        Some(range) => Some(span_of(range)),
        None => None,
    }
}

/// A stretch of displayed text with one style.
#[derive(Debug, Clone, Copy, PartialEq, Eq, Structural)]
pub struct TextRunSpan {
    pub len: usize,
    pub underlined: bool,
}

/// What a field shows: placeholder or content, caret, selection and styled runs.
pub struct DisplayPlan {
    pub shows_placeholder: bool,
    pub selected: Range<usize>,
    pub cursor: usize,
    pub runs: Vec<TextRunSpan>,
}

/// The runs of a content of `total` bytes with a composition at `marked`.
pub open spec fn marked_runs(total: nat, marked: Span) -> Seq<TextRunSpan> {
    seq![
        TextRunSpan { len: marked.start as usize, underlined: false },
        TextRunSpan { len: (marked.end - marked.start) as usize, underlined: true },
        TextRunSpan { len: (total - marked.end) as usize, underlined: false },
    ].filter(|run: TextRunSpan| run.len > 0)
}

/// A single-line text field.
pub struct TextInput {
    content: String,
    placeholder: String,
    selected_range: Range<usize>,
    selection_reversed: bool,
    marked_range: Option<Range<usize>>,
    is_selecting: bool,
    maximum_bytes: usize,
}

impl View for TextInput {
    type V = TextState;

    closed spec fn view(&self) -> TextState {
        TextState {
            text: self.content@,
            selected: span_of(self.selected_range),
            reversed: self.selection_reversed,
            marked: optional_span(self.marked_range),
            selecting: self.is_selecting,
            maximum_bytes: self.maximum_bytes as nat,
        }
    }
}

impl TextInput {
    /// The text shown while the field is empty.
    pub closed spec fn placeholder_text(&self) -> Seq<char> {
        self.placeholder@
    }

    /// Whether this is the field `before` with its content replaced by `value`.
    pub open spec fn retyped(self, before: TextInput, value: Seq<char>) -> bool {
        &&& self@ == before@.holding(value)
        &&& self.placeholder_text() == before.placeholder_text()
    }

    /// Whether this is a new field into which `value` was put.
    pub open spec fn filled(
        self,
        placeholder: Seq<char>,
        maximum_bytes: nat,
        value: Seq<char>,
    ) -> bool {
        &&& self@ == TextState::blank(maximum_bytes).holding(value)
        &&& self.placeholder_text() == placeholder
    }

    /// An empty field that holds at most `maximum_bytes` bytes.
    pub fn new(placeholder: String, maximum_bytes: usize) -> (input: Self)
        ensures
            input@ == TextState::blank(maximum_bytes as nat),
            input@.wf(),
            input@.holds(input@.selected),
            input.placeholder_text() == placeholder@,
    {
        let input = TextInput {
            content: String::new(),
            placeholder,
            selected_range: 0..0,
            selection_reversed: false,
            marked_range: None,
            is_selecting: false,
            maximum_bytes,
        };
        proof {
            offsets::lemma_position_is_position(Encoding::Utf8, input@.text, 0);
            assert(input@.text.take(0) =~= Seq::empty());
        }
        input
    }

    /// The content.
    pub fn text(&self) -> (text: &str)
        ensures
            text@ == self@.text,
    {
        self.content.as_str()
    }

    /// The text shown while the field is empty.
    pub fn placeholder(&self) -> (text: &str)
        ensures
            text@ == self.placeholder_text(),
    {
        self.placeholder.as_str()
    }

    /// Whether a drag selection is under way.
    pub fn is_selecting(&self) -> (selecting: bool)
        ensures
            selecting == self@.selecting,
    {
        self.is_selecting
    }

    /// Starts or ends a drag selection.
    pub fn set_selecting(&mut self, selecting: bool)
        ensures
            final(self)@ == (TextState { selecting, ..old(self)@ }),
            final(self).placeholder_text() == old(self).placeholder_text(),
    {
        self.is_selecting = selecting;
    }

    /// Replaces the content by as much of `value` as fits, the caret behind it.
    pub fn set_text(&mut self, value: &str)
        ensures
            final(self).retyped(*old(self), value@),
            final(self)@.wf(),
            final(self)@.holds(final(self)@.selected),
    {
        let kept = truncate_boundary(value, self.maximum_bytes);
        let end = offsets::byte_len_of(kept);
        self.content = kept.to_owned();
        self.selected_range = end..end;
        self.marked_range = None;
        proof {
            assert(kept@.take(kept@.len() as int) =~= kept@);
            offsets::lemma_position_is_position(Encoding::Utf8, kept@, kept@.len() as int);
        }
    }

    /// Where the caret stands.
    pub fn cursor_offset(&self) -> (offset: usize)
        ensures
            offset == self@.cursor(),
    {
        if self.selection_reversed {
            self.selected_range.start
        } else {
            self.selected_range.end
        }
    }

    /// Moves the caret and drops the selection.
    pub fn move_to(&mut self, offset: usize)
        ensures
            final(self)@ == old(self)@.move_to(offset as nat),
            final(self).placeholder_text() == old(self).placeholder_text(),
    {
        self.selected_range = offset..offset;
        self.selection_reversed = false;
    }

    /// Moves the caret end of the selection.
    pub fn select_to(&mut self, offset: usize)
        ensures
            final(self)@ == old(self)@.select_to(offset as nat),
            final(self).placeholder_text() == old(self).placeholder_text(),
    {
        if self.selection_reversed {
            self.selected_range = offset..self.selected_range.end;
        } else {
            self.selected_range = self.selected_range.start..offset;
        }
        if self.selected_range.end < self.selected_range.start {
            self.selection_reversed = !self.selection_reversed;
            self.selected_range = self.selected_range.end..self.selected_range.start;
        }
    }

    /// The start of the grapheme cluster in front of `offset`.
    pub fn previous_boundary(&self, offset: usize) -> (found: usize)
        ensures
            found == self@.previous_boundary(grapheme_starts_of(self@.text), offset as nat),
            offsets::is_position(Encoding::Utf8, self@.text, found as nat),
            found <= offsets::byte_len(self@.text),
    {
        let starts = grapheme_starts(self.content.as_str());
        proof {
            offsets::lemma_position_is_position(Encoding::Utf8, self@.text, 0);
            assert(self@.text.take(0) =~= Seq::empty());
        }
        previous_boundary_in(&starts, offset)
    }

    /// The end of the grapheme cluster behind `offset`.
    pub fn next_boundary(&self, offset: usize) -> (found: usize)
        ensures
            found == self@.next_boundary(grapheme_starts_of(self@.text), offset as nat),
            offsets::is_position(Encoding::Utf8, self@.text, found as nat),
            found <= offsets::byte_len(self@.text),
    {
        let starts = grapheme_starts(self.content.as_str());
        let end = offsets::byte_len_of(self.content.as_str());
        proof {
            assert(self@.text.take(self@.text.len() as int) =~= self@.text);
            offsets::lemma_position_is_position(
                Encoding::Utf8,
                self@.text,
                self@.text.len() as int,
            );
        }
        next_boundary_in(&starts, offset, end)
    }

    fn selection_is_empty(&self) -> (empty: bool)
        ensures
            empty == self@.selected.empty(),
    {
        self.selected_range.start >= self.selected_range.end
    }

    /// Moves the caret one cluster to the left, or to the start of the selection.
    pub fn left(&mut self)
        ensures
            final(self)@ == old(self)@.left(grapheme_starts_of(old(self)@.text)),
            old(self)@.holds(old(self)@.selected) ==> final(self)@.holds(final(self)@.selected),
            final(self).placeholder_text() == old(self).placeholder_text(),
    {
        if self.selection_is_empty() {
            let target = self.previous_boundary(self.cursor_offset());
            self.move_to(target);
        } else {
            self.move_to(self.selected_range.start);
        }
    }

    /// Moves the caret one cluster to the right, or to the end of the selection.
    pub fn right(&mut self)
        ensures
            final(self)@ == old(self)@.right(grapheme_starts_of(old(self)@.text)),
            old(self)@.holds(old(self)@.selected) ==> final(self)@.holds(final(self)@.selected),
            final(self).placeholder_text() == old(self).placeholder_text(),
    {
        if self.selection_is_empty() {
            let target = self.next_boundary(self.selected_range.end);
            self.move_to(target);
        } else {
            self.move_to(self.selected_range.end);
        }
    }

    /// Extends the selection one cluster to the left.
    pub fn select_left(&mut self)
        ensures
            final(self)@ == old(self)@.select_to(
                old(self)@.previous_boundary(
                    grapheme_starts_of(old(self)@.text),
                    old(self)@.cursor(),
                ),
            ),
            old(self)@.holds(old(self)@.selected) ==> final(self)@.holds(final(self)@.selected),
            final(self).placeholder_text() == old(self).placeholder_text(),
    {
        let target = self.previous_boundary(self.cursor_offset());
        self.select_to(target);
    }

    /// Extends the selection one cluster to the right.
    pub fn select_right(&mut self)
        ensures
            final(self)@ == old(self)@.select_to(
                old(self)@.next_boundary(grapheme_starts_of(old(self)@.text), old(self)@.cursor()),
            ),
            old(self)@.holds(old(self)@.selected) ==> final(self)@.holds(final(self)@.selected),
            final(self).placeholder_text() == old(self).placeholder_text(),
    {
        let target = self.next_boundary(self.cursor_offset());
        self.select_to(target);
    }

    /// Selects the whole content.
    pub fn select_all(&mut self)
        ensures
            final(self)@ == (TextState {
                selected: Span { start: 0, end: offsets::byte_len(old(self)@.text) },
                reversed: false,
                ..old(self)@
            }),
            final(self)@.holds(final(self)@.selected),
            final(self).placeholder_text() == old(self).placeholder_text(),
    {
        self.move_to(0);
        let end = offsets::byte_len_of(self.content.as_str());
        self.select_to(end);
        proof {
            let text = self@.text;
            assert(text.take(0) =~= Seq::empty());
            assert(text.take(text.len() as int) =~= text);
            offsets::lemma_position_is_position(Encoding::Utf8, text, 0);
            offsets::lemma_position_is_position(Encoding::Utf8, text, text.len() as int);
        }
    }

    /// Moves the caret to the start.
    pub fn home(&mut self)
        ensures
            final(self)@ == old(self)@.move_to(0),
            final(self).placeholder_text() == old(self).placeholder_text(),
    {
        self.move_to(0);
    }

    /// Moves the caret to the end.
    pub fn end(&mut self)
        ensures
            final(self)@ == old(self)@.move_to(offsets::byte_len(old(self)@.text)),
            final(self).placeholder_text() == old(self).placeholder_text(),
    {
        let end = offsets::byte_len_of(self.content.as_str());
        self.move_to(end);
    }

    /// Replaces a range of the content, moved to character boundaries, by as
    /// much of `text` as the limit allows, and returns where the text went.
    pub fn replace(&mut self, range: Range<usize>, text: &str) -> (inserted: Range<usize>)
        requires
            old(self)@.wf(),
        ensures
            final(self)@ == old(self)@.replace(span_of(range), text@),
            span_of(inserted) == old(self)@.inserted_span(span_of(range), text@),
            final(self)@.wf(),
            final(self)@.holds(final(self)@.selected),
            final(self).placeholder_text() == old(self).placeholder_text(),
    {
        let ghost before = self@;
        let ghost span = span_of(range);
        proof {
            lemma_replace(before, span, text@);
            lemma_normalized(before.text, span);
        }
        let normal = normalize_range(self.content.as_str(), range);
        let total = offsets::byte_len_of(self.content.as_str());
        let kept = total - (normal.end - normal.start);
        let available = self.maximum_bytes - kept;
        let text_kept = truncate_boundary(text, available);
        let first = offsets::fitting_of(Encoding::Utf8, self.content.as_str(), normal.start);
        let last = offsets::fitting_of(Encoding::Utf8, self.content.as_str(), normal.end);
        let chars = self.content.as_str().unicode_len();
        let mut content = self.content.as_str().substring_char(0, first).to_owned();
        content.append(text_kept);
        content.append(self.content.as_str().substring_char(last, chars));
        proof {
            assert(before.text.subrange(0, first as int) =~= before.text.take(first as int));
            assert(before.text.subrange(last as int, chars as int) =~= before.text.skip(
                last as int,
            ));
            assert(content@ == before.replaced_text(normalized(before.text, span), text@));
            assert(offsets::byte_len(content@) <= self.maximum_bytes);
        }
        let inserted_len = offsets::byte_len_of(text_kept);
        let cursor = normal.start + inserted_len;
        self.content = content;
        self.selected_range = cursor..cursor;
        self.selection_reversed = false;
        self.marked_range = None;
        normal.start..cursor
    }

    fn edit_range(&self, range_utf16: Option<Range<usize>>) -> (range: Range<usize>)
        ensures
            span_of(range) == self@.edit_span(optional_span(range_utf16)),
    {
        match range_utf16 {
            Some(range) => self.range_from_utf16(range),
            None => match &self.marked_range {
                Some(range) => range.start..range.end,
                None => self.selected_range.start..self.selected_range.end,
            },
        }
    }

    /// A UTF-16 range as byte offsets.
    pub fn range_from_utf16(&self, range: Range<usize>) -> (bytes: Range<usize>)
        ensures
            span_of(bytes) == span_from_utf16(self@.text, span_of(range)),
    {
        let start = offset_from_utf16(self.content.as_str(), range.start);
        let end = offset_from_utf16(self.content.as_str(), range.end);
        start..end
    }

    /// A byte range as UTF-16 offsets.
    pub fn range_to_utf16(&self, range: Range<usize>) -> (units: Range<usize>)
        ensures
            span_of(units) == span_to_utf16(self@.text, span_of(range)),
    {
        let start = offset_to_utf16(self.content.as_str(), range.start);
        let end = offset_to_utf16(self.content.as_str(), range.end);
        start..end
    }

    /// Inserts text on behalf of the platform, ending any composition.
    pub fn replace_text_in_range(&mut self, range_utf16: Option<Range<usize>>, new_text: &str)
        requires
            old(self)@.wf(),
        ensures
            final(self)@ == old(self)@.replace_text_in_range(
                optional_span(range_utf16),
                new_text@,
            ),
            final(self)@.wf(),
            final(self)@.holds(final(self)@.selected),
            final(self).placeholder_text() == old(self).placeholder_text(),
    {
        let range = self.edit_range(range_utf16);
        self.replace(range, new_text);
    }

    /// Inserts text on behalf of the platform and keeps it as a composition.
    pub fn replace_and_mark_text_in_range(
        &mut self,
        range_utf16: Option<Range<usize>>,
        new_text: &str,
        new_selection_utf16: Option<Range<usize>>,
    )
        requires
            old(self)@.wf(),
        ensures
            final(self)@ == old(self)@.replace_and_mark(
                optional_span(range_utf16),
                new_text@,
                optional_span(new_selection_utf16),
            ),
            final(self)@.wf(),
            final(self).placeholder_text() == old(self).placeholder_text(),
    {
        let ghost before = self@;
        let range = self.edit_range(range_utf16);
        let ghost span = span_of(range);
        let inserted = self.replace(range, new_text);
        proof {
            lemma_replace(before, span, new_text@);
            lemma_normalized(before.text, span);
        }
        let ghost edited = self@;
        let start = inserted.start;
        let end = inserted.end;
        if start < end {
            self.marked_range = Some(start..end);
        }
        if let Some(selection) = new_selection_utf16 {
            let first = offsets::fitting_of(Encoding::Utf8, self.content.as_str(), start);
            let last = offsets::fitting_of(Encoding::Utf8, self.content.as_str(), end);
            proof {
                offsets::lemma_fitting(Encoding::Utf8, edited.text, start as nat);
                offsets::lemma_fitting(Encoding::Utf8, edited.text, end as nat);
                if last < first {
                    offsets::lemma_positions_increase(
                        Encoding::Utf8,
                        edited.text,
                        last as int,
                        first as int,
                    );
                }
            }
            let inserted_text = self.content.as_str().substring_char(first, last);
            proof {
                assert(inserted_text@ == edited.slice(span_of(start..end)));
            }
            let chosen = marked_selection(start, inserted_text, selection);
            self.selected_range = chosen;
        }
    }

    /// Ends the composition and keeps the content.
    pub fn unmark_text(&mut self)
        ensures
            final(self)@ == (TextState { marked: None, ..old(self)@ }),
            final(self).placeholder_text() == old(self).placeholder_text(),
    {
        self.marked_range = None;
    }

    /// The composition in UTF-16 offsets.
    pub fn marked_text_range(&self) -> (range: Option<Range<usize>>)
        ensures
            optional_span(range) == (match self@.marked {
                Some(span) => Some(span_to_utf16(self@.text, span)),
                None => None,
            }),
    {
        match &self.marked_range {
            Some(range) => Some(self.range_to_utf16(range.start..range.end)),
            None => None,
        }
    }

    /// The selection in UTF-16 offsets, and whether the caret stands at its start.
    pub fn selected_text_range(&self) -> (selection: (Range<usize>, bool))
        ensures
            span_of(selection.0) == span_to_utf16(self@.text, self@.selected),
            selection.1 == self@.reversed,
    {
        let range = self.range_to_utf16(self.selected_range.start..self.selected_range.end);
        (range, self.selection_reversed)
    }

    /// The text of a UTF-16 range, with the range it was moved to.
    pub fn text_for_range(&self, range_utf16: Range<usize>) -> (found: (String, Range<usize>))
        requires
            offsets::fitting(Encoding::Utf16, self@.text, range_utf16.start as nat)
                <= offsets::fitting(Encoding::Utf16, self@.text, range_utf16.end as nat),
        ensures
            found.0@ == self@.slice(span_from_utf16(self@.text, span_of(range_utf16))),
            span_of(found.1) == span_to_utf16(
                self@.text,
                span_from_utf16(self@.text, span_of(range_utf16)),
            ),
    {
        let first = offsets::fitting_of(
            Encoding::Utf16,
            self.content.as_str(),
            range_utf16.start,
        );
        let last = offsets::fitting_of(Encoding::Utf16, self.content.as_str(), range_utf16.end);
        proof {
            offsets::lemma_fitting(Encoding::Utf16, self@.text, range_utf16.start as nat);
            offsets::lemma_fitting(Encoding::Utf16, self@.text, range_utf16.end as nat);
            offsets::lemma_position_is_position(Encoding::Utf8, self@.text, first as int);
            offsets::lemma_position_is_position(Encoding::Utf8, self@.text, last as int);
        }
        let text = self.content.as_str().substring_char(first, last).to_owned();
        let range = self.range_from_utf16(range_utf16);
        let actual = self.range_to_utf16(range);
        (text, actual)
    }

    /// What to put on the clipboard: the selected text, if any.
    pub fn copy(&self) -> (copied: Option<String>)
        requires
            self@.selected.empty() || self@.holds(self@.selected),
        ensures
            copied is Some <==> !self@.selected.empty(),
            copied is Some ==> copied->0@ == self@.slice(self@.selected),
    {
        if self.selection_is_empty() {
            return None;
        }
        let first = offsets::fitting_of(
            Encoding::Utf8,
            self.content.as_str(),
            self.selected_range.start,
        );
        let last = offsets::fitting_of(
            Encoding::Utf8,
            self.content.as_str(),
            self.selected_range.end,
        );
        proof {
            offsets::lemma_fitting(Encoding::Utf8, self@.text, self@.selected.start);
            offsets::lemma_fitting(Encoding::Utf8, self@.text, self@.selected.end);
            if last < first {
                offsets::lemma_positions_increase(
                    Encoding::Utf8,
                    self@.text,
                    last as int,
                    first as int,
                );
            }
        }
        Some(self.content.as_str().substring_char(first, last).to_owned())
    }

    /// Removes the selection and returns what to put on the clipboard.
    pub fn cut(&mut self) -> (copied: Option<String>)
        requires
            old(self)@.wf(),
            old(self)@.selected.empty() || old(self)@.holds(old(self)@.selected),
        ensures
            copied is Some <==> !old(self)@.selected.empty(),
            copied is Some ==> copied->0@ == old(self)@.slice(old(self)@.selected),
            final(self)@ == (if old(self)@.selected.empty() {
                old(self)@
            } else {
                old(self)@.replace_text_in_range(None, Seq::empty())
            }),
            final(self)@.wf(),
            final(self).placeholder_text() == old(self).placeholder_text(),
    {
        let copied = self.copy();
        if !self.selection_is_empty() {
            self.remove_selection();
        }
        copied
    }

    fn remove_selection(&mut self)
        requires
            old(self)@.wf(),
        ensures
            final(self)@ == old(self)@.replace_text_in_range(None, Seq::empty()),
            final(self)@.wf(),
            final(self)@.holds(final(self)@.selected),
            final(self).placeholder_text() == old(self).placeholder_text(),
    {
        proof {
            reveal_strlit("");
            assert(""@ =~= Seq::<char>::empty());
        }
        self.replace_text_in_range(None, "");
    }

    /// Inserts clipboard text as one line.
    pub fn paste(&mut self, text: &str)
        requires
            old(self)@.wf(),
        ensures
            final(self)@ == old(self)@.replace_text_in_range(None, single_line(text@)),
            final(self)@.wf(),
            final(self)@.holds(final(self)@.selected),
            final(self).placeholder_text() == old(self).placeholder_text(),
    {
        let line = single_line_text(text);
        self.replace_text_in_range(None, line.as_str());
    }

    /// Removes the selection, or the cluster in front of the caret.
    pub fn backspace(&mut self)
        requires
            old(self)@.wf(),
        ensures
            final(self)@ == old(self)@.backspace(grapheme_starts_of(old(self)@.text)),
            final(self)@.wf(),
            final(self)@.holds(final(self)@.selected),
            final(self).placeholder_text() == old(self).placeholder_text(),
    {
        if self.selection_is_empty() {
            let target = self.previous_boundary(self.cursor_offset());
            self.select_to(target);
        }
        self.remove_selection();
    }

    /// Removes the selection, or the cluster behind the caret.
    pub fn delete(&mut self)
        requires
            old(self)@.wf(),
        ensures
            final(self)@ == old(self)@.delete(grapheme_starts_of(old(self)@.text)),
            final(self)@.wf(),
            final(self)@.holds(final(self)@.selected),
            final(self).placeholder_text() == old(self).placeholder_text(),
    {
        if self.selection_is_empty() {
            let target = self.next_boundary(self.cursor_offset());
            self.select_to(target);
        }
        self.remove_selection();
    }

    /// Empties the field; an empty field leaves the key to its surroundings,
    /// which the result says.
    pub fn clear_or_dismiss(&mut self) -> (propagates: bool)
        ensures
            propagates == (old(self)@.text.len() == 0),
            final(self)@ == (if old(self)@.text.len() == 0 {
                old(self)@
            } else {
                TextState {
                    text: Seq::empty(),
                    selected: Span { start: 0, end: 0 },
                    reversed: false,
                    marked: None,
                    ..old(self)@
                }
            }),
            final(self).placeholder_text() == old(self).placeholder_text(),
    {
        if self.content.as_str().is_empty() {
            true
        } else {
            self.content = String::new();
            self.selected_range = 0..0;
            self.selection_reversed = false;
            self.marked_range = None;
            false
        }
    }

    /// What to draw.
    pub fn display_plan(&self) -> (plan: DisplayPlan)
        ensures
            plan.shows_placeholder == (self@.text.len() == 0),
            span_of(plan.selected) == normalized(self@.text, self@.selected),
            plan.cursor == floor_position(self@.text, self@.cursor()),
            plan.runs@ == ({
                let whole = if self@.text.len() == 0 {
                    offsets::byte_len(self.placeholder_text())
                } else {
                    offsets::byte_len(self@.text)
                };
                let plain = seq![TextRunSpan { len: whole as usize, underlined: false }];
                match self@.marked {
                    Some(span) => {
                        let marked = normalized(self@.text, span);
                        if self@.text.len() == 0 || marked.empty() {
                            plain
                        } else {
                            marked_runs(whole, marked)
                        }
                    },
                    None => plain,
                }
            }),
    {
        let selected = normalize_range(
            self.content.as_str(),
            self.selected_range.start..self.selected_range.end,
        );
        let cursor = floor_char_boundary(self.content.as_str(), self.cursor_offset());
        let shows_placeholder = self.content.as_str().is_empty();
        let whole: usize = if shows_placeholder {
            offsets::byte_len_of(self.placeholder.as_str())
        } else {
            offsets::byte_len_of(self.content.as_str())
        };
        let mut runs: Vec<TextRunSpan> = Vec::new();
        if let Some(range) = &self.marked_range {
            let marked = normalize_range(self.content.as_str(), range.start..range.end);
            if !shows_placeholder && marked.start < marked.end {
                let parts = [
                    TextRunSpan { len: marked.start, underlined: false },
                    TextRunSpan { len: marked.end - marked.start, underlined: true },
                    TextRunSpan { len: whole - marked.end, underlined: false },
                ];
                let ghost keep = |run: TextRunSpan| run.len > 0;
                let mut index: usize = 0;
                while index < 3
                    invariant
                        index <= 3,
                        keep == (|run: TextRunSpan| run.len > 0),
                        runs@ == parts@.take(index as int).filter(keep),
                    decreases 3 - index,
                {
                    proof {
                        assert(parts@.take(index + 1).drop_last() =~= parts@.take(index as int));
                        reveal(Seq::filter);
                    }
                    if parts[index].len > 0 {
                        runs.push(parts[index]);
                    }
                    index += 1;
                }
                assert(parts@.take(3) =~= parts@);
                assert(parts@ =~= seq![parts@[0], parts@[1], parts@[2]]);
                return DisplayPlan { shows_placeholder, selected, cursor, runs };
            }
        }
        runs.push(TextRunSpan { len: whole, underlined: false });
        DisplayPlan { shows_placeholder, selected, cursor, runs }
    }
}

/// A byte position survives the way to UTF-16 and back.
pub proof fn utf16_round_trip(text: Seq<char>, offset: nat)
    requires
        offsets::is_position(Encoding::Utf8, text, offset),
    ensures
        from_utf16(text, to_utf16(text, offset)) == offset,
{
    let count = offsets::fitting(Encoding::Utf8, text, offset) as int;
    offsets::lemma_fitting(Encoding::Utf8, text, offset);
    offsets::lemma_position_is_position(Encoding::Utf16, text, count);
}

/// A UTF-16 offset that comes back from bytes is the last one not beyond it.
pub proof fn utf16_floor(text: Seq<char>, offset: nat)
    ensures
        to_utf16(text, from_utf16(text, offset)) <= offset,
        offset >= offsets::encoded_len(Encoding::Utf16, text) ==> from_utf16(text, offset)
            == offsets::byte_len(text),
{
    let count = offsets::fitting(Encoding::Utf16, text, offset) as int;
    offsets::lemma_fitting(Encoding::Utf16, text, offset);
    offsets::lemma_position_is_position(Encoding::Utf8, text, count);
    assert(text.take(text.len() as int) =~= text);
}

/// Truncation gives the longest prefix within the limit.
pub proof fn truncation_is_longest_prefix(text: Seq<char>, maximum: nat)
    ensures
        truncated(text, maximum).is_prefix_of(text),
        offsets::byte_len(truncated(text, maximum)) <= maximum,
        forall|count: int|
            #![trigger text.take(count)]
            truncated(text, maximum).len() < count <= text.len() ==> offsets::byte_len(
                text.take(count),
            ) > maximum,
{
    offsets::lemma_fitting(Encoding::Utf8, text, maximum);
    assert forall|count: int|
        #![trigger text.take(count)]
        truncated(text, maximum).len() < count <= text.len() implies offsets::byte_len(
        text.take(count),
    ) > maximum by {
        assert(offsets::position(Encoding::Utf8, text, count) > maximum);
    }
}

/// A single line holds no line break, and every other character stays in place.
pub proof fn single_line_has_no_breaks(text: Seq<char>)
    ensures
        single_line(text).len() == text.len(),
        !single_line(text).contains('\n'),
        !single_line(text).contains('\r'),
        forall|i: int|
            0 <= i < text.len() && text[i] != '\n' && text[i] != '\r' ==> single_line(text)[i]
                == text[i],
        single_line(single_line(text)) == single_line(text),
{
    assert(single_line(single_line(text)) =~= single_line(text));
}

/// The caret follows the end that a selection is extended to, and the other
/// end stays.
pub proof fn selecting_moves_only_the_caret(state: TextState, anchor: nat, offset: nat)
    ensures
        state.move_to(anchor).select_to(offset).cursor() == offset,
        state.move_to(anchor).select_to(offset).selected == (if anchor <= offset {
            Span { start: anchor, end: offset }
        } else {
            Span { start: offset, end: anchor }
        }),
        state.move_to(anchor).select_to(offset).select_to(anchor).selected.empty(),
{
}

/// Removing the selection and inserting the removed text again restores the content.
pub proof fn reinserting_a_cut_restores(state: TextState)
    requires
        state.wf(),
        state.holds(state.selected),
        state.marked is None,
        state.selected.start <= state.selected.end,
    ensures
        state.replace_text_in_range(None, Seq::empty()).replace_text_in_range(
            None,
            state.slice(state.selected),
        ).text == state.text,
{
    let text = state.text;
    let span = state.selected;
    let removed = state.slice(span);
    let first = offsets::fitting(Encoding::Utf8, text, span.start) as int;
    let last = offsets::fitting(Encoding::Utf8, text, span.end) as int;
    offsets::lemma_fitting(Encoding::Utf8, text, span.start);
    offsets::lemma_fitting(Encoding::Utf8, text, span.end);
    if last < first {
        offsets::lemma_positions_increase(Encoding::Utf8, text, last, first);
    }
    assert(normalized(text, span) == span);
    let nothing = Seq::<char>::empty();
    assert(truncated(nothing, state.available(span)) =~= nothing);
    let cut = state.replace(span, nothing);
    assert(cut.text =~= text.take(first) + text.skip(last));
    assert(cut.text.take(first) =~= text.take(first));
    offsets::lemma_position_is_position(Encoding::Utf8, cut.text, first);
    assert(cut.selected == Span { start: span.start, end: span.start });
    assert(normalized(cut.text, cut.selected) == cut.selected);
    offsets::lemma_encoded_len_concat(Encoding::Utf8, text.take(first), text.skip(last));
    offsets::lemma_encoded_len_concat(Encoding::Utf8, text.take(first), removed);
    assert(text.take(last) =~= text.take(first) + removed);
    offsets::lemma_encoded_len_concat(Encoding::Utf8, text.take(last), text.skip(last));
    assert(text =~= text.take(last) + text.skip(last));
    offsets::lemma_fitting(Encoding::Utf8, removed, cut.available(cut.selected));
    assert(removed.take(removed.len() as int) =~= removed);
    assert(cut.replaced_text(cut.selected, removed) =~= text);
}

/// Replacing everything leaves what fits of the new text, and nothing else.
pub proof fn replacing_everything(state: TextState, text: Seq<char>)
    requires
        state.wf(),
    ensures
        state.replace(Span { start: 0, end: offsets::byte_len(state.text) }, text).text
            == truncated(text, state.maximum_bytes),
{
    let whole = Span { start: 0, end: offsets::byte_len(state.text) };
    let all = state.text;
    assert(all.take(0) =~= Seq::empty());
    assert(all.take(all.len() as int) =~= all);
    offsets::lemma_position_is_position(Encoding::Utf8, all, 0);
    offsets::lemma_position_is_position(Encoding::Utf8, all, all.len() as int);
    assert(normalized(all, whole) == whole);
    assert(state.replaced_text(whole, text) =~= truncated(text, state.maximum_bytes));
}

/// Typing a whole value keeps as much of it as fits, puts the caret at its end
/// and marks nothing.
pub proof fn whole_values_put_the_caret_last(state: TextState, value: Seq<char>)
    ensures
        state.holding(value).text == truncated(value, state.maximum_bytes),
        offsets::byte_len(value) <= state.maximum_bytes ==> state.holding(value).text == value,
        state.holding(value).selected.start == offsets::byte_len(state.holding(value).text),
        state.holding(value).selected.end == offsets::byte_len(state.holding(value).text),
        state.holding(value).marked is None,
        state.holding(value).maximum_bytes == state.maximum_bytes,
        TextState::blank(state.maximum_bytes).text.len() == 0,
        TextState::blank(state.maximum_bytes).selected == (Span { start: 0, end: 0 }),
        TextState::blank(state.maximum_bytes).maximum_bytes == state.maximum_bytes,
{
    offsets::lemma_fitting(Encoding::Utf8, value, state.maximum_bytes);
    assert(value.take(value.len() as int) =~= value);
}

/// The boundary before an offset is the nearest one, and the text's beginning
/// without any; the one after it is the nearest, and the text's end without any.
pub proof fn boundaries_are_the_nearest_ones(starts: Seq<usize>, offset: nat, end: nat)
    requires
        forall|i: int, j: int| 0 <= i < j < starts.len() ==> starts[i] < starts[j],
    ensures
        ({
            let before = last_below(starts, offset);
            &&& before == 0 || before < offset && exists|i: int|
                0 <= i < starts.len() && #[trigger] starts[i] == before
            &&& forall|i: int|
                0 <= i < starts.len() && #[trigger] starts[i] < offset ==> starts[i] <= before
        }),
        ({
            let after = first_above(starts, offset, end);
            &&& after == end && (forall|i: int|
                0 <= i < starts.len() ==> #[trigger] starts[i] <= offset) || after > offset
                && exists|i: int| 0 <= i < starts.len() && #[trigger] starts[i] == after
            &&& forall|i: int|
                0 <= i < starts.len() && #[trigger] starts[i] > offset ==> after <= starts[i]
        }),
    decreases starts.len(),
{
    if starts.len() > 0 {
        let shorter = starts.drop_last();
        let rest = starts.drop_first();
        assert forall|i: int, j: int| 0 <= i < j < shorter.len() implies shorter[i]
            < shorter[j] by {
            assert(starts[i] < starts[j]);
        }
        assert forall|i: int, j: int| 0 <= i < j < rest.len() implies rest[i] < rest[j] by {
            assert(starts[i + 1] < starts[j + 1]);
        }
        boundaries_are_the_nearest_ones(shorter, offset, end);
        boundaries_are_the_nearest_ones(rest, offset, end);
        let before = last_below(starts, offset);
        assert(starts.last() == starts[starts.len() - 1]);
        if starts.last() < offset {
            assert(starts[starts.len() - 1] == before);
        } else {
            if before != 0 {
                let i = choose|i: int| 0 <= i < shorter.len() && #[trigger] shorter[i] == before;
                assert(starts[i] == before);
            }
            assert forall|i: int|
                0 <= i < starts.len() && #[trigger] starts[i] < offset implies starts[i]
                <= before by {
                if i < shorter.len() {
                    assert(shorter[i] == starts[i]);
                }
            }
        }
        let after = first_above(starts, offset, end);
        if starts[0] > offset {
            assert forall|i: int|
                0 <= i < starts.len() && #[trigger] starts[i] > offset implies after
                <= starts[i] by {
                if i > 0 {
                    assert(starts[0] < starts[i]);
                }
            }
        } else {
            assert forall|i: int|
                0 <= i < starts.len() && #[trigger] starts[i] > offset implies after
                <= starts[i] by {
                assert(rest[i - 1] == starts[i]);
            }
            if after > offset && (exists|i: int|
                0 <= i < rest.len() && #[trigger] rest[i] == after) {
                let i = choose|i: int| 0 <= i < rest.len() && #[trigger] rest[i] == after;
                assert(starts[i + 1] == after);
            } else {
                assert forall|i: int| 0 <= i < starts.len() implies #[trigger] starts[i]
                    <= offset by {
                    if i > 0 {
                        assert(rest[i - 1] == starts[i]);
                    }
                }
            }
        }
    }
}

/// A replacement that fits takes the place of the characters between two
/// positions, and the caret comes to stand behind it.
pub proof fn replacements_stand_between_characters(
    state: TextState,
    first: int,
    last: int,
    text: Seq<char>,
)
    requires
        state.wf(),
        0 <= first <= last <= state.text.len(),
        offsets::byte_len(state.text.take(first)) + offsets::byte_len(text) + offsets::byte_len(
            state.text.skip(last),
        ) <= state.maximum_bytes,
    ensures
        ({
            let span = Span {
                start: offsets::byte_len(state.text.take(first)),
                end: offsets::byte_len(state.text.take(last)),
            };
            let after = state.replace(span, text);
            let caret = offsets::byte_len(state.text.take(first)) + offsets::byte_len(text);
            &&& after.text == state.text.take(first) + text + state.text.skip(last)
            &&& after.selected == (Span { start: caret, end: caret })
            &&& !after.reversed
            &&& after.marked is None
            &&& after.maximum_bytes == state.maximum_bytes
        }),
{
    let all = state.text;
    let span = Span {
        start: offsets::byte_len(all.take(first)),
        end: offsets::byte_len(all.take(last)),
    };
    offsets::lemma_position_is_position(Encoding::Utf8, all, first);
    offsets::lemma_position_is_position(Encoding::Utf8, all, last);
    offsets::lemma_positions_increase(Encoding::Utf8, all, first, last);
    assert(offsets::position(Encoding::Utf8, all, first) == span.start);
    assert(offsets::position(Encoding::Utf8, all, last) == span.end);
    assert(normalized(all, span) == span);
    assert(all =~= all.take(last) + all.skip(last));
    offsets::lemma_encoded_len_concat(Encoding::Utf8, all.take(last), all.skip(last));
    offsets::lemma_fitting(Encoding::Utf8, text, state.available(span));
    assert(text.take(text.len() as int) =~= text);
    assert(state.inserted(span, text) == text);
}

/// What is replaced is the given range, then what is marked, then the
/// selection.
pub proof fn edits_go_to_the_range_first(state: TextState, range: Span)
    ensures
        state.edit_span(Some(range)) == (Span {
            start: from_utf16(state.text, range.start),
            end: from_utf16(state.text, range.end),
        }),
        state.marked is Some ==> state.edit_span(None) == state.marked->0,
        state.marked is None ==> state.edit_span(None) == state.selected,
{
}

/// The caret goes to the near end of a selection, and without one to the next
/// boundary; nothing stays selected, and the text stays.
pub proof fn arrows_collapse_the_selection(state: TextState, starts: Seq<usize>)
    ensures
        state.left(starts).text == state.text,
        state.right(starts).text == state.text,
        state.left(starts).selected.empty(),
        state.right(starts).selected.empty(),
        state.selected.start < state.selected.end ==> {
            &&& state.left(starts).cursor() == state.selected.start
            &&& state.right(starts).cursor() == state.selected.end
        },
        state.selected.start == state.selected.end ==> {
            &&& state.left(starts).cursor() == last_below(starts, state.selected.start)
            &&& state.right(starts).cursor() == first_above(
                starts,
                state.selected.end,
                offsets::byte_len(state.text),
            )
        },
        state.reversed ==> state.cursor() == state.selected.start,
        !state.reversed ==> state.cursor() == state.selected.end,
{
}

/// Backspace and delete remove the selection; without one backspace removes
/// what stands before the caret up to the boundary before, and delete what
/// stands behind it up to the boundary after.
pub proof fn deletions_reach_to_the_next_boundary(state: TextState, starts: Seq<usize>)
    requires
        state.marked is None,
        !state.reversed,
    ensures
        state.selected.start < state.selected.end ==> {
            &&& state.backspace(starts) == state.replace(state.selected, Seq::empty())
            &&& state.delete(starts) == state.replace(state.selected, Seq::empty())
        },
        state.selected.start == state.selected.end ==> {
            let caret = state.selected.end;
            &&& last_below(starts, caret) <= caret ==> state.backspace(starts).text
                == state.replace(
                Span { start: last_below(starts, caret), end: caret },
                Seq::empty(),
            ).text
            &&& caret <= first_above(starts, caret, offsets::byte_len(state.text)) ==> state.delete(
                starts,
            ).text == state.replace(
                Span {
                    start: caret,
                    end: first_above(starts, caret, offsets::byte_len(state.text)),
                },
                Seq::empty(),
            ).text
        },
{
}

/// Text that is being composed is marked while there is any, and the selection
/// within it is counted from its beginning.
pub proof fn composed_text_is_marked(
    state: TextState,
    range: Option<Span>,
    text: Seq<char>,
    selection: Span,
)
    ensures
        ({
            let span = state.edit_span(range);
            let inserted = state.inserted_span(span, text);
            let after = state.replace_and_mark(range, text, None);
            let chosen = state.replace_and_mark(range, text, Some(selection));
            &&& after.text == state.replace(span, text).text
            &&& chosen.text == after.text
            &&& inserted.start < inserted.end ==> after.marked == Some(inserted)
            &&& inserted.start >= inserted.end ==> after.marked is None
            &&& chosen.marked == after.marked
            &&& after.selected == (Span { start: inserted.end, end: inserted.end })
            &&& chosen.selected.start == inserted.start + from_utf16(
                state.inserted(normalized(state.text, span), text),
                selection.start,
            )
            &&& chosen.selected.end == inserted.start + from_utf16(
                state.inserted(normalized(state.text, span), text),
                selection.end,
            )
            &&& inserted.start == normalized(state.text, span).start
        }),
{
}

/// A slice holds the characters between its positions.
pub proof fn slices_hold_what_lies_between(state: TextState, first: int, last: int)
    requires
        0 <= first <= last <= state.text.len(),
    ensures
        state.slice(
            Span {
                start: offsets::byte_len(state.text.take(first)),
                end: offsets::byte_len(state.text.take(last)),
            },
        ) == state.text.subrange(first, last),
{
    offsets::lemma_position_is_position(Encoding::Utf8, state.text, first);
    offsets::lemma_position_is_position(Encoding::Utf8, state.text, last);
}

/// A marked text is underlined between what stands before and behind it, and
/// pieces without any text are left out.
pub proof fn marked_text_is_underlined(total: nat, marked: Span)
    requires
        marked.start < marked.end <= total <= usize::MAX,
    ensures
        ({
            let runs = marked_runs(total, marked);
            let before = TextRunSpan { len: marked.start as usize, underlined: false };
            let within = TextRunSpan {
                len: (marked.end - marked.start) as usize,
                underlined: true,
            };
            let behind = TextRunSpan { len: (total - marked.end) as usize, underlined: false };
            &&& marked.start > 0 && marked.end < total ==> runs == seq![before, within, behind]
            &&& marked.start == 0 && marked.end < total ==> runs == seq![within, behind]
            &&& marked.start > 0 && marked.end == total ==> runs == seq![before, within]
            &&& marked.start == 0 && marked.end == total ==> runs == seq![within]
        }),
{
    reveal(Seq::filter);
    let before = TextRunSpan { len: marked.start as usize, underlined: false };
    let within = TextRunSpan { len: (marked.end - marked.start) as usize, underlined: true };
    let behind = TextRunSpan { len: (total - marked.end) as usize, underlined: false };
    let keep = |run: TextRunSpan| run.len > 0;
    let all = seq![before, within, behind];
    assert(all.drop_last() =~= seq![before, within]);
    assert(seq![before, within].drop_last() =~= seq![before]);
    assert(seq![before].drop_last() =~= Seq::empty());
    assert(Seq::<TextRunSpan>::empty().filter(keep) =~= Seq::empty());
    assert(seq![before].filter(keep) == if keep(before) {
        Seq::<TextRunSpan>::empty().push(before)
    } else {
        Seq::empty()
    });
    assert(seq![before, within].filter(keep) == seq![before].filter(keep).push(within));
    assert(all.filter(keep) == if keep(behind) {
        seq![before, within].filter(keep).push(behind)
    } else {
        seq![before, within].filter(keep)
    });
}

/// A span is converted end by end, and a retyped field keeps its placeholder
/// and limit.
pub proof fn spans_are_converted_end_by_end(
    text: Seq<char>,
    span: Span,
    before: TextInput,
    after: TextInput,
    value: Seq<char>,
)
    ensures
        span_from_utf16(text, span).start == from_utf16(text, span.start),
        span_from_utf16(text, span).end == from_utf16(text, span.end),
        span_to_utf16(text, span).start == to_utf16(text, span.start),
        span_to_utf16(text, span).end == to_utf16(text, span.end),
        after.retyped(before, value) ==> {
            &&& after@.maximum_bytes == before@.maximum_bytes
            &&& after.placeholder_text() == before.placeholder_text()
            &&& after@.marked is None
            &&& offsets::byte_len(value) <= before@.maximum_bytes ==> after@.text == value
        },
{
    whole_values_put_the_caret_last(before@, value);
}

} // verus!
