//! Positions inside a text, counted in UTF-8 bytes or in UTF-16 code units.
//!
//! A position is valid when it stands in front of a character or at the end.
//! Every valid position is the encoded length of a prefix of the text, so all
//! position arithmetic goes through the number of characters in front of it.

use crate::text::chars_of;
use vstd::prelude::*;
use vstd::string::*;
use vstd::utf8::*;

verus! {

/// The two encodings in which positions are counted.
#[derive(Debug, Clone, Copy, PartialEq, Eq, Structural)]
pub enum Encoding {
    Utf8,
    Utf16,
}

/// How many units a character takes in an encoding.
pub open spec fn width(encoding: Encoding, character: char) -> nat {
    match encoding {
        Encoding::Utf8 => if character as u32 <= 0x7f {
            1
        } else if character as u32 <= 0x7ff {
            2
        } else if character as u32 <= 0xffff {
            3
        } else {
            4
        },
        Encoding::Utf16 => if character as u32 <= 0xffff {
            1
        } else {
            2
        },
    }
}

/// How many units a sequence of characters takes in an encoding.
pub open spec fn encoded_len(encoding: Encoding, chars: Seq<char>) -> nat
    decreases chars.len(),
{
    if chars.len() == 0 {
        0
    } else {
        encoded_len(encoding, chars.drop_last()) + width(encoding, chars.last())
    }
}

/// The length of a sequence of characters in bytes.
pub open spec fn byte_len(chars: Seq<char>) -> nat {
    encoded_len(Encoding::Utf8, chars)
}

/// The position behind the first `count` characters.
pub open spec fn position(encoding: Encoding, chars: Seq<char>, count: int) -> nat {
    encoded_len(encoding, chars.take(count))
}

/// The largest number of leading characters that take at most `limit` units.
pub open spec fn fitting(encoding: Encoding, chars: Seq<char>, limit: nat) -> nat
    decreases chars.len(),
{
    if encoded_len(encoding, chars) <= limit {
        chars.len()
    } else {
        fitting(encoding, chars.drop_last(), limit)
    }
}

/// Whether `offset` is a position of the text.
pub open spec fn is_position(encoding: Encoding, chars: Seq<char>, offset: nat) -> bool {
    position(encoding, chars, fitting(encoding, chars, offset) as int) == offset
}

/// The position of a longer prefix adds the units of the characters between.
pub proof fn lemma_position_step(encoding: Encoding, chars: Seq<char>, count: int)
    requires
        0 <= count < chars.len(),
    ensures
        position(encoding, chars, count + 1) == position(encoding, chars, count) + width(
            encoding,
            chars[count],
        ),
{
    assert(chars.take(count + 1).drop_last() =~= chars.take(count));
}

/// Positions grow strictly with the number of characters in front of them.
pub proof fn lemma_positions_increase(encoding: Encoding, chars: Seq<char>, low: int, high: int)
    requires
        0 <= low <= high <= chars.len(),
    ensures
        position(encoding, chars, low) + (high - low) <= position(encoding, chars, high),
        position(encoding, chars, high) <= encoded_len(encoding, chars),
    decreases chars.len() - low,
{
    assert(chars.take(chars.len() as int) =~= chars);
    if low < chars.len() {
        if low < high {
            lemma_position_step(encoding, chars, low);
            lemma_positions_increase(encoding, chars, low + 1, high);
        } else {
            lemma_position_step(encoding, chars, low);
            lemma_positions_increase(encoding, chars, low + 1, high + 1);
        }
    }
}

/// The units of two sequences add up.
pub proof fn lemma_encoded_len_concat(encoding: Encoding, left: Seq<char>, right: Seq<char>)
    ensures
        encoded_len(encoding, left + right) == encoded_len(encoding, left) + encoded_len(
            encoding,
            right,
        ),
    decreases right.len(),
{
    if right.len() == 0 {
        assert(left + right =~= left);
    } else {
        assert((left + right).drop_last() =~= left + right.drop_last());
        lemma_encoded_len_concat(encoding, left, right.drop_last());
    }
}

/// What `fitting` counts: the prefix fits, and no longer one does.
pub proof fn lemma_fitting(encoding: Encoding, chars: Seq<char>, limit: nat)
    ensures
        fitting(encoding, chars, limit) <= chars.len(),
        position(encoding, chars, fitting(encoding, chars, limit) as int) <= limit,
        forall|count: int|
            fitting(encoding, chars, limit) < count <= chars.len() ==> #[trigger] position(
                encoding,
                chars,
                count,
            ) > limit,
        encoded_len(encoding, chars) <= limit ==> fitting(encoding, chars, limit) == chars.len(),
    decreases chars.len(),
{
    assert(chars.take(chars.len() as int) =~= chars);
    if encoded_len(encoding, chars) > limit {
        let shorter = chars.drop_last();
        lemma_fitting(encoding, shorter, limit);
        let found = fitting(encoding, shorter, limit) as int;
        assert(chars.take(found) =~= shorter.take(found));
        assert forall|count: int| found < count <= chars.len() implies #[trigger] position(
            encoding,
            chars,
            count,
        ) > limit by {
            if count < chars.len() {
                assert(chars.take(count) =~= shorter.take(count));
                assert(position(encoding, shorter, count) > limit);
            }
        }
    }
}

/// A prefix that fits and cannot be extended is the one `fitting` counts.
pub proof fn lemma_fitting_unique(encoding: Encoding, chars: Seq<char>, limit: nat, count: int)
    requires
        0 <= count <= chars.len(),
        position(encoding, chars, count) <= limit,
        count == chars.len() || position(encoding, chars, count + 1) > limit,
    ensures
        fitting(encoding, chars, limit) == count,
{
    lemma_fitting(encoding, chars, limit);
    let found = fitting(encoding, chars, limit) as int;
    if found < count {
        assert(position(encoding, chars, count) > limit);
    } else if count < found {
        lemma_positions_increase(encoding, chars, count + 1, found);
    }
}

/// The position behind `count` characters is found again from its value.
pub proof fn lemma_position_is_position(encoding: Encoding, chars: Seq<char>, count: int)
    requires
        0 <= count <= chars.len(),
    ensures
        fitting(encoding, chars, position(encoding, chars, count)) == count,
        is_position(encoding, chars, position(encoding, chars, count)),
{
    if count < chars.len() {
        lemma_position_step(encoding, chars, count);
    }
    lemma_fitting_unique(encoding, chars, position(encoding, chars, count), count);
}

/// The byte length defined here is the length of the UTF-8 encoding.
pub proof fn lemma_byte_len_is_utf8_len(chars: Seq<char>)
    ensures
        byte_len(chars) == encode_utf8(chars).len(),
    decreases chars.len(),
{
    if chars.len() > 0 {
        let head = seq![chars[0]];
        let tail = chars.drop_first();
        assert(chars =~= head + tail);
        lemma_encoded_len_concat(Encoding::Utf8, head, tail);
        lemma_byte_len_is_utf8_len(tail);
        char_is_scalar(chars[0]);
        reveal_with_fuel(encoded_len, 2);
        assert(head.drop_last() =~= Seq::<char>::empty());
        assert(encoded_len(Encoding::Utf8, head) == width(Encoding::Utf8, chars[0]));
    }
}

/// A text takes no more UTF-16 units than UTF-8 bytes.
pub proof fn lemma_utf16_len_bound(chars: Seq<char>)
    ensures
        encoded_len(Encoding::Utf16, chars) <= encoded_len(Encoding::Utf8, chars),
    decreases chars.len(),
{
    if chars.len() > 0 {
        lemma_utf16_len_bound(chars.drop_last());
    }
}

/// How many units a character takes in an encoding.
pub fn char_width(encoding: Encoding, character: char) -> (units: usize)
    ensures
        units == width(encoding, character),
{
    let code: u32 = character as u32;
    match encoding {
        Encoding::Utf8 => if code <= 0x7f {
            1
        } else if code <= 0x7ff {
            2
        } else if code <= 0xffff {
            3
        } else {
            4
        },
        Encoding::Utf16 => if code <= 0xffff {
            1
        } else {
            2
        },
    }
}

/// The length of a text in bytes.
pub fn byte_len_of(text: &str) -> (len: usize)
    ensures
        len == byte_len(text@),
{
    proof {
        lemma_byte_len_is_utf8_len(text@);
    }
    text.as_bytes().len()
}

/// The number of leading characters that take at most `limit` units.
pub fn fitting_of(encoding: Encoding, text: &str, limit: usize) -> (count: usize)
    ensures
        count == fitting(encoding, text@, limit as nat),
{
    let chars = chars_of(text);
    let bytes = byte_len_of(text);
    let mut used: usize = 0;
    let mut count: usize = 0;
    proof {
        lemma_utf16_len_bound(text@);
    }
    while count < chars.len()
        invariant
            count <= chars@.len(),
            chars@ == text@,
            bytes == byte_len(text@),
            encoded_len(encoding, text@) <= bytes,
            used == position(encoding, text@, count as int),
            used <= limit,
        decreases chars@.len() - count,
    {
        proof {
            lemma_position_step(encoding, text@, count as int);
            lemma_positions_increase(encoding, text@, count as int + 1, text@.len() as int);
        }
        let next = used + char_width(encoding, chars[count]);
        if next > limit {
            proof {
                lemma_fitting_unique(encoding, text@, limit as nat, count as int);
            }
            return count;
        }
        used = next;
        count += 1;
    }
    proof {
        lemma_fitting_unique(encoding, text@, limit as nat, count as int);
    }
    count
}

/// The position behind the first `count` characters.
pub fn position_of(encoding: Encoding, text: &str, count: usize) -> (offset: usize)
    requires
        count <= text@.len(),
    ensures
        offset == position(encoding, text@, count as int),
{
    let prefix = text.substring_char(0, count);
    let bytes = byte_len_of(prefix);
    proof {
        lemma_utf16_len_bound(prefix@);
        assert(prefix@ =~= text@.take(count as int));
    }
    let mut offset: usize = 0;
    let mut done: usize = 0;
    let chars = chars_of(prefix);
    while done < chars.len()
        invariant
            done <= chars@.len(),
            chars@ == prefix@,
            prefix@ == text@.take(count as int),
            bytes == byte_len(prefix@),
            encoded_len(encoding, prefix@) <= bytes,
            offset == position(encoding, prefix@, done as int),
        decreases chars@.len() - done,
    {
        proof {
            lemma_position_step(encoding, prefix@, done as int);
            lemma_positions_increase(encoding, prefix@, done as int + 1, prefix@.len() as int);
        }
        offset += char_width(encoding, chars[done]);
        done += 1;
    }
    assert(prefix@.take(done as int) =~= prefix@);
    offset
}

/// The text up to an offset in bytes, or all of it where it is shorter or does
/// not divide there.
pub open spec fn leading_bytes(text: Seq<char>, limit: nat) -> Seq<char> {
    if byte_len(text) <= limit || !is_position(Encoding::Utf8, text, limit) {
        text
    } else {
        text.take(fitting(Encoding::Utf8, text, limit) as int)
    }
}

/// The text up to an offset in bytes, or all of it where it is shorter or does
/// not divide there.
pub fn leading_bytes_of<'a>(text: &'a str, limit: usize) -> (head: &'a str)
    ensures
        head@ == leading_bytes(text@, limit as nat),
{
    if byte_len_of(text) <= limit {
        return text;
    }
    let count = fitting_of(Encoding::Utf8, text, limit);
    proof {
        lemma_fitting(Encoding::Utf8, text@, limit as nat);
    }
    if position_of(Encoding::Utf8, text, count) != limit {
        return text;
    }
    text.substring_char(0, count)
}

/// What is kept is the start of the text, and fits where the text divides.
pub proof fn leading_bytes_fit(text: Seq<char>, limit: nat)
    ensures
        leading_bytes(text, limit).is_prefix_of(text),
        is_position(Encoding::Utf8, text, limit) ==> byte_len(leading_bytes(text, limit)) <= limit,
{
    lemma_fitting(Encoding::Utf8, text, limit);
}

/// A text that is too long is cut right after the limit's last byte, where a
/// character ends there; otherwise it stays whole.
pub proof fn texts_are_cut_between_characters(text: Seq<char>, limit: nat)
    ensures
        byte_len(text) <= limit ==> leading_bytes(text, limit) == text,
        forall|count: int|
            0 <= count <= text.len() && #[trigger] byte_len(text.take(count)) == limit
                ==> leading_bytes(text, limit) == text.take(count),
        (forall|count: int|
            0 <= count <= text.len() ==> #[trigger] byte_len(text.take(count)) != limit)
            ==> leading_bytes(text, limit) == text,
{
    lemma_fitting(Encoding::Utf8, text, limit);
    let cut = fitting(Encoding::Utf8, text, limit) as int;
    assert(position(Encoding::Utf8, text, cut) == byte_len(text.take(cut)));
    assert forall|count: int|
        0 <= count <= text.len() && #[trigger] byte_len(text.take(count)) == limit implies
        leading_bytes(text, limit) == text.take(count) by {
        assert(position(Encoding::Utf8, text, count) == limit);
        lemma_position_is_position(Encoding::Utf8, text, count);
        if byte_len(text) <= limit {
            lemma_positions_increase(Encoding::Utf8, text, count, text.len() as int);
            assert(text.take(text.len() as int) =~= text);
            assert(text.take(count) =~= text);
        }
    }
}

/// A text of single bytes is cut to as many characters as the limit allows.
pub proof fn plain_texts_are_cut_to_the_limit(text: Seq<char>, limit: nat)
    requires
        forall|i: int| 0 <= i < text.len() ==> (#[trigger] text[i]) as u32 <= 0x7f,
    ensures
        byte_len(text) == text.len(),
        text.len() <= limit ==> leading_bytes(text, limit) == text,
        text.len() > limit ==> leading_bytes(text, limit) == text.take(limit as int),
{
    lemma_plain_bytes(text);
    if text.len() > limit {
        lemma_plain_bytes(text.take(limit as int));
        texts_are_cut_between_characters(text, limit);
        assert(byte_len(text.take(limit as int)) == limit);
    }
}

proof fn lemma_plain_bytes(text: Seq<char>)
    requires
        forall|i: int| 0 <= i < text.len() ==> (#[trigger] text[i]) as u32 <= 0x7f,
    ensures
        byte_len(text) == text.len(),
    decreases text.len(),
{
    if text.len() > 0 {
        lemma_plain_bytes(text.drop_last());
        assert(text[text.len() - 1] as u32 <= 0x7f);
    }
}

/// Only a character beyond the first sixty-five thousand takes two units of
/// UTF-16.
pub proof fn wide_characters_take_two_units(character: char)
    ensures
        width(Encoding::Utf16, character) == (if (character as u32) < 0x1_0000 {
            1nat
        } else {
            2nat
        }),
{
}

} // verus!
