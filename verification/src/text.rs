//! Text building blocks: characters, decimal numbers, ordering and searching.
//!
//! A text is modelled by its sequence of characters; every operation here is
//! exact over that model.

use vstd::prelude::*;
use vstd::string::*;
use vstd::utf8::*;

verus! {

/// `String::push` appends one character to the end of the text.
pub assume_specification[ String::push ](line: &mut String, added: char)
    ensures
        final(line)@ == old(line)@.push(added),
;

/// The decimal digit of a value below ten.
pub open spec fn digit(value: nat) -> char {
    (48 + value) as char
}

/// The decimal notation of a natural number, without leading zeros.
pub open spec fn decimal(value: nat) -> Seq<char>
    decreases value,
{
    if value < 10 {
        seq![digit(value)]
    } else {
        decimal(value / 10).push(digit(value % 10))
    }
}

/// The decimal notation of an integer, with a minus sign in front of a negative one.
pub open spec fn signed_decimal(value: int) -> Seq<char> {
    if value < 0 {
        "-"@ + decimal((-value) as nat)
    } else {
        decimal(value as nat)
    }
}

/// Appends the decimal notation of `value`.
pub fn append_decimal(out: &mut String, value: u64)
    ensures
        final(out)@ == old(out)@ + decimal(value as nat),
{
    append_wide_decimal(out, value as u128);
}

/// Appends the decimal notation of a wide `value`.
pub fn append_wide_decimal(out: &mut String, value: u128)
    ensures
        final(out)@ == old(out)@ + decimal(value as nat),
    decreases value,
{
    if value >= 10 {
        append_wide_decimal(out, value / 10);
    }
    let last: u8 = (value % 10) as u8;
    out.push((48u8 + last) as char);
}

/// The decimal notation of `value`.
pub fn decimal_text(value: u64) -> (out: String)
    ensures
        out@ == decimal(value as nat),
{
    let mut out = String::new();
    append_decimal(&mut out, value);
    out
}

/// The decimal notation of a length.
pub fn length_text(value: usize) -> (out: String)
    ensures
        out@ == decimal(value as nat),
{
    decimal_text(value as u64)
}

/// The characters of a text, in order.
pub fn chars_of(text: &str) -> (chars: Vec<char>)
    ensures
        chars@ == text@,
{
    let mut chars: Vec<char> = Vec::new();
    for character in it: text.chars()
        invariant
            chars@ == it.seq().take(it.index() as int),
            it.seq() == text@,
    {
        chars.push(character);
    }
    assert(chars@ =~= text@);
    chars
}

/// The text made of the characters `chars[from..to]`.
pub fn text_of(chars: &Vec<char>, from: usize, to: usize) -> (text: String)
    requires
        from <= to <= chars@.len(),
    ensures
        text@ == chars@.subrange(from as int, to as int),
{
    let mut text = String::new();
    let mut index: usize = from;
    while index < to
        invariant
            from <= index <= to <= chars@.len(),
            text@ == chars@.subrange(from as int, index as int),
        decreases to - index,
    {
        text.push(chars[index]);
        index += 1;
        assert(text@ =~= chars@.subrange(from as int, index as int));
    }
    text
}

/// Whether two texts hold the same characters.
pub fn same_text(left: &str, right: &str) -> (same: bool)
    ensures
        same == (left@ == right@),
{
    let left_bytes = left.as_bytes();
    let right_bytes = right.as_bytes();
    proof {
        encode_utf8_decode_utf8(left@);
        encode_utf8_decode_utf8(right@);
    }
    if left_bytes.len() != right_bytes.len() {
        return false;
    }
    let mut index: usize = 0;
    while index < left_bytes.len()
        invariant
            left_bytes@.len() == right_bytes@.len(),
            index <= left_bytes@.len(),
            left_bytes@ == left.spec_bytes(),
            right_bytes@ == right.spec_bytes(),
            left_bytes@.take(index as int) =~= right_bytes@.take(index as int),
        decreases left_bytes@.len() - index,
    {
        if left_bytes[index] != right_bytes[index] {
            return false;
        }
        assert(left_bytes@.take(index + 1) =~= left_bytes@.take(index as int).push(
            left_bytes@[index as int],
        ));
        assert(right_bytes@.take(index + 1) =~= right_bytes@.take(index as int).push(
            right_bytes@[index as int],
        ));
        index += 1;
    }
    assert(left_bytes@ =~= left_bytes@.take(index as int));
    assert(right_bytes@ =~= right_bytes@.take(index as int));
    true
}

/// The characters behind the last separator; all of them where there is none.
pub open spec fn after_last(text: Seq<char>, separator: char) -> Seq<char>
    decreases text.len(),
{
    if text.len() == 0 || text.last() == separator {
        Seq::empty()
    } else {
        after_last(text.drop_last(), separator).push(text.last())
    }
}

/// The text with one character replaced by another wherever it occurs.
pub open spec fn replaced(text: Seq<char>, from: char, to: char) -> Seq<char> {
    text.map_values(
        |character: char|
            if character == from {
                to
            } else {
                character
            },
    )
}

/// The parts one after the other, with a separator between neighbours.
pub open spec fn joined(parts: Seq<Seq<char>>, separator: Seq<char>) -> Seq<char>
    decreases parts.len(),
{
    if parts.len() == 0 {
        Seq::empty()
    } else if parts.len() == 1 {
        parts[0]
    } else {
        joined(parts.drop_last(), separator) + separator + parts.last()
    }
}

/// The models of a sequence of texts.
pub open spec fn texts(parts: Seq<String>) -> Seq<Seq<char>> {
    parts.map_values(|part: String| part@)
}

/// The part of a text behind the last separator.
pub fn after_last_of(text: &str, separator: char) -> (tail: String)
    ensures
        tail@ == after_last(text@, separator),
{
    let chars = chars_of(text);
    let mut start: usize = chars.len();
    assert(chars@.take(start as int) =~= chars@);
    assert(chars@.skip(start as int) =~= Seq::empty());
    assert(after_last(chars@, separator) =~= after_last(chars@.take(start as int), separator)
        + chars@.skip(start as int));
    while start > 0 && chars[start - 1] != separator
        invariant
            start <= chars@.len(),
            after_last(chars@, separator) == after_last(chars@.take(start as int), separator)
                + chars@.skip(start as int),
        decreases start,
    {
        proof {
            let head = chars@.take(start as int);
            assert(head.last() == chars@[start - 1]);
            assert(head.drop_last() =~= chars@.take(start - 1));
            assert(chars@.skip(start - 1) =~= seq![chars@[start - 1]] + chars@.skip(start as int));
            assert(after_last(head, separator) + chars@.skip(start as int) =~= after_last(
                chars@.take(start - 1),
                separator,
            ) + chars@.skip(start - 1));
        }
        start -= 1;
    }
    proof {
        let head = chars@.take(start as int);
        assert(start > 0 ==> head.last() == chars@[start - 1]);
        assert(after_last(head, separator) =~= Seq::empty());
        assert(chars@.subrange(start as int, chars@.len() as int) =~= chars@.skip(start as int));
        assert(after_last(chars@, separator) =~= chars@.skip(start as int));
    }
    let end = chars.len();
    text_of(&chars, start, end)
}

/// The text with one character replaced by another wherever it occurs.
pub fn replace_char(text: &str, from: char, to: char) -> (out: String)
    ensures
        out@ == replaced(text@, from, to),
{
    let chars = chars_of(text);
    let mut out = String::new();
    let mut index: usize = 0;
    while index < chars.len()
        invariant
            index <= chars@.len(),
            chars@ == text@,
            out@ == replaced(chars@.take(index as int), from, to),
        decreases chars@.len() - index,
    {
        let character = chars[index];
        if character == from {
            out.push(to);
        } else {
            out.push(character);
        }
        index += 1;
        assert(out@ =~= replaced(chars@.take(index as int), from, to));
    }
    assert(chars@.take(index as int) =~= chars@);
    out
}

/// The parts one after the other, with a separator between neighbours.
pub fn join(parts: &Vec<String>, separator: &str) -> (out: String)
    ensures
        out@ == joined(texts(parts@), separator@),
{
    let mut out = String::new();
    let mut index: usize = 0;
    while index < parts.len()
        invariant
            index <= parts@.len(),
            out@ == joined(texts(parts@).take(index as int), separator@),
        decreases parts@.len() - index,
    {
        proof {
            let now = texts(parts@).take(index + 1);
            assert(now.drop_last() =~= texts(parts@).take(index as int));
            assert(now.last() == parts@[index as int]@);
            assert(index == 0 ==> joined(now, separator@) =~= parts@[index as int]@);
        }
        if index > 0 {
            out.append(separator);
        }
        out.append(parts[index].as_str());
        index += 1;
        assert(out@ =~= joined(texts(parts@).take(index as int), separator@));
    }
    assert(texts(parts@).take(index as int) =~= texts(parts@));
    out
}

/// The elements without those that occurred before.
pub open spec fn first_occurrences(items: Seq<Seq<char>>) -> Seq<Seq<char>>
    decreases items.len(),
{
    if items.len() == 0 {
        items
    } else {
        let shorter = first_occurrences(items.drop_last());
        if shorter.contains(items.last()) {
            shorter
        } else {
            shorter.push(items.last())
        }
    }
}

/// Whether a text is among others.
pub fn contains_text(items: &Vec<String>, text: &str) -> (found: bool)
    ensures
        found == texts(items@).contains(text@),
{
    let mut index: usize = 0;
    while index < items.len()
        invariant
            index <= items@.len(),
            forall|i: int| 0 <= i < index ==> texts(items@)[i] != text@,
        decreases items@.len() - index,
    {
        if same_text(items[index].as_str(), text) {
            assert(texts(items@)[index as int] == text@);
            return true;
        }
        index += 1;
    }
    false
}

/// The texts without those that occurred before.
pub fn distinct_texts(items: Vec<String>) -> (distinct: Vec<String>)
    ensures
        texts(distinct@) == first_occurrences(texts(items@)),
{
    let ghost all = texts(items@);
    let mut distinct: Vec<String> = Vec::new();
    let mut index: usize = 0;
    assert(texts(distinct@) =~= Seq::empty());
    while index < items.len()
        invariant
            index <= items@.len(),
            all == texts(items@),
            texts(distinct@) == first_occurrences(all.take(index as int)),
        decreases items@.len() - index,
    {
        proof {
            assert(all.take(index + 1).drop_last() =~= all.take(index as int));
            assert(all.take(index + 1).last() == items@[index as int]@);
        }
        if !contains_text(&distinct, items[index].as_str()) {
            let ghost before = texts(distinct@);
            distinct.push(items[index].clone());
            assert(texts(distinct@) =~= before.push(items@[index as int]@));
        }
        index += 1;
    }
    assert(all.take(index as int) =~= all);
    distinct
}

/// Keeping first occurrences keeps exactly the elements, each once.
pub proof fn first_occurrences_are_distinct(items: Seq<Seq<char>>)
    ensures
        first_occurrences(items).no_duplicates(),
        first_occurrences(items).len() <= items.len(),
        forall|text: Seq<char>|
            first_occurrences(items).contains(text) <==> #[trigger] items.contains(text),
    decreases items.len(),
{
    if items.len() > 0 {
        let shorter = items.drop_last();
        let last = items.last();
        first_occurrences_are_distinct(shorter);
        assert forall|text: Seq<char>|
            first_occurrences(items).contains(text) <==> #[trigger] items.contains(text) by {
            assert(shorter.contains(text) ==> items.contains(text)) by {
                if shorter.contains(text) {
                    let i = choose|i: int| 0 <= i < shorter.len() && shorter[i] == text;
                    assert(items[i] == text);
                }
            }
            assert(items.contains(text) ==> shorter.contains(text) || text == last) by {
                if items.contains(text) {
                    let i = choose|i: int| 0 <= i < items.len() && items[i] == text;
                    if i < shorter.len() {
                        assert(shorter[i] == text);
                    }
                }
            }
            assert(items[items.len() - 1] == last);
            let kept = first_occurrences(shorter);
            assert(first_occurrences(shorter).contains(text) <==> shorter.contains(text));
            if !kept.contains(last) {
                let grown = kept.push(last);
                assert(grown[kept.len() as int] == last);
                if kept.contains(text) {
                    let i = choose|i: int| 0 <= i < kept.len() && kept[i] == text;
                    assert(grown[i] == text);
                }
                if grown.contains(text) {
                    let i = choose|i: int| 0 <= i < grown.len() && grown[i] == text;
                    if i < kept.len() {
                        assert(kept[i] == text);
                    }
                }
            }
        }
    }
}

/// The text behind a prefix, where it has that prefix.
pub fn strip_prefix<'a>(text: &'a str, prefix: &str) -> (rest: Option<&'a str>)
    ensures
        rest is Some <==> prefix@.is_prefix_of(text@),
        rest is Some ==> rest->0@ == text@.skip(prefix@.len() as int),
{
    let total = text.unicode_len();
    let count = prefix.unicode_len();
    if count > total {
        return None;
    }
    let head = text.substring_char(0, count);
    assert(head@ =~= text@.take(count as int));
    if same_text(head, prefix) {
        assert(prefix@ =~= text@.take(count as int));
        let rest = text.substring_char(count, total);
        assert(rest@ =~= text@.skip(count as int));
        Some(rest)
    } else {
        assert(prefix@.is_prefix_of(text@) ==> prefix@ =~= text@.take(count as int));
        None
    }
}

/// Whether `part` occurs in `text` at a place.
pub open spec fn occurs_at(text: Seq<char>, part: Seq<char>, place: int) -> bool {
    0 <= place && place + part.len() <= text.len() && text.subrange(place, place + part.len())
        == part
}

/// Whether `part` occurs in `text`.
pub open spec fn occurs_in(text: Seq<char>, part: Seq<char>) -> bool {
    exists|place: int| occurs_at(text, part, place)
}

/// Whether `part` occurs among the characters at a place.
fn occurs_here(chars: &Vec<char>, part: &Vec<char>, place: usize) -> (here: bool)
    requires
        place <= chars@.len(),
    ensures
        here == occurs_at(chars@, part@, place as int),
{
    let total: usize = chars.len();
    if part.len() > total - place {
        return false;
    }
    let mut index: usize = 0;
    while index < part.len()
        invariant
            index <= part@.len(),
            place + part@.len() <= chars@.len(),
            total == chars@.len(),
            forall|i: int| 0 <= i < index ==> chars@[place + i] == part@[i],
        decreases part@.len() - index,
    {
        if chars[place + index] != part[index] {
            assert(chars@.subrange(place as int, place + part@.len())[index as int]
                != part@[index as int]);
            return false;
        }
        index += 1;
    }
    assert(chars@.subrange(place as int, place + part@.len()) =~= part@);
    true
}

/// Whether `part` occurs in `text`.
pub fn contains_part(text: &str, part: &str) -> (found: bool)
    ensures
        found == occurs_in(text@, part@),
{
    let chars = chars_of(text);
    let wanted = chars_of(part);
    let mut place: usize = 0;
    while place < chars.len()
        invariant
            place <= chars@.len(),
            chars@ == text@,
            wanted@ == part@,
            forall|i: int| 0 <= i < place ==> !occurs_at(text@, part@, i),
        decreases chars@.len() - place,
    {
        if occurs_here(&chars, &wanted, place) {
            return true;
        }
        place += 1;
    }
    occurs_here(&chars, &wanted, place)
}

/// The text with each occurrence of `from`, sought from the left behind the
/// one before, replaced by `to`.
pub open spec fn replaced_all(text: Seq<char>, from: Seq<char>, to: Seq<char>) -> Seq<char>
    decreases text.len(),
{
    if text.len() == 0 || from.len() == 0 {
        text
    } else if occurs_at(text, from, 0) {
        to + replaced_all(text.skip(from.len() as int), from, to)
    } else {
        seq![text[0]] + replaced_all(text.drop_first(), from, to)
    }
}

/// The text with each occurrence of `from` replaced by `to`.
pub fn replace_all(text: &str, from: &str, to: &str) -> (out: String)
    requires
        from@.len() > 0,
    ensures
        out@ == replaced_all(text@, from@, to@),
{
    let chars = chars_of(text);
    let wanted = chars_of(from);
    let mut out = String::new();
    let mut place: usize = 0;
    assert(chars@.skip(0) =~= chars@);
    assert(out@ + replaced_all(chars@, from@, to@) =~= replaced_all(chars@, from@, to@));
    while place < chars.len()
        invariant
            place <= chars@.len(),
            chars@ == text@,
            wanted@ == from@,
            from@.len() > 0,
            replaced_all(text@, from@, to@) == out@ + replaced_all(
                chars@.skip(place as int),
                from@,
                to@,
            ),
        decreases chars@.len() - place,
    {
        let ghost rest = chars@.skip(place as int);
        let ghost before = out@;
        let here = occurs_here(&chars, &wanted, place);
        proof {
            if place + from@.len() <= chars@.len() {
                assert(rest.subrange(0, from@.len() as int) =~= chars@.subrange(
                    place as int,
                    place + from@.len(),
                ));
            }
            assert(here == occurs_at(rest, from@, 0));
        }
        if here {
            out.append(to);
            place += wanted.len();
            proof {
                assert(rest.skip(from@.len() as int) =~= chars@.skip(place as int));
                assert(before + (to@ + replaced_all(chars@.skip(place as int), from@, to@))
                    =~= out@ + replaced_all(chars@.skip(place as int), from@, to@));
            }
        } else {
            out.push(chars[place]);
            place += 1;
            proof {
                assert(rest.drop_first() =~= chars@.skip(place as int));
                assert(before + (seq![rest[0]] + replaced_all(
                    chars@.skip(place as int),
                    from@,
                    to@,
                )) =~= out@ + replaced_all(chars@.skip(place as int), from@, to@));
            }
        }
    }
    assert(chars@.skip(place as int) =~= Seq::empty());
    assert(out@ + Seq::<char>::empty() =~= out@);
    out
}

/// Where there is something to replace, what replaces it occurs afterwards.
pub proof fn replacements_occur(text: Seq<char>, from: Seq<char>, to: Seq<char>)
    requires
        from.len() > 0,
        occurs_in(text, from),
    ensures
        occurs_in(replaced_all(text, from, to), to),
    decreases text.len(),
{
    let replaced = replaced_all(text, from, to);
    let place = choose|place: int| occurs_at(text, from, place);
    if occurs_at(text, from, 0) {
        assert(replaced.subrange(0, to.len() as int) =~= to);
        assert(occurs_at(replaced, to, 0));
    } else {
        let rest = text.drop_first();
        assert(rest.subrange(place - 1, place - 1 + from.len()) =~= text.subrange(
            place,
            place + from.len(),
        ));
        assert(occurs_at(rest, from, place - 1));
        replacements_occur(rest, from, to);
        let after = replaced_all(rest, from, to);
        let found = choose|found: int| occurs_at(after, to, found);
        assert(replaced.subrange(found + 1, found + 1 + to.len()) =~= after.subrange(
            found,
            found + to.len(),
        ));
        assert(occurs_at(replaced, to, found + 1));
    }
}

/// The text that bytes stand for, with invalid UTF-8 replaced.
pub uninterp spec fn lossy_text_of(bytes: Seq<u8>) -> Seq<char>;

/// `String::from_utf8_lossy`: valid UTF-8 is decoded, and each invalid
/// sequence becomes the replacement character.
#[verifier::external_body]
pub(crate) fn lossy_text(bytes: &[u8]) -> (decoded: String)
    ensures
        decoded@ == lossy_text_of(bytes@),
        valid_utf8(bytes@) ==> decoded@ == decode_utf8(bytes@),
{
    String::from_utf8_lossy(bytes).into_owned()
}

/// Two texts, one after the other.
pub fn concat2(a: &str, b: &str) -> (out: String)
    ensures
        out@ == a@ + b@,
{
    let mut out = a.to_owned();
    out.append(b);
    out
}

/// Three texts, one after the other.
pub fn concat3(a: &str, b: &str, c: &str) -> (out: String)
    ensures
        out@ == a@ + b@ + c@,
{
    let mut out = a.to_owned();
    out.append(b);
    out.append(c);
    out
}

/// Four texts, one after the other.
pub fn concat4(a: &str, b: &str, c: &str, d: &str) -> (out: String)
    ensures
        out@ == a@ + b@ + c@ + d@,
{
    let mut out = a.to_owned();
    out.append(b);
    out.append(c);
    out.append(d);
    out
}

/// Five texts, one after the other.
pub fn concat5(a: &str, b: &str, c: &str, d: &str, e: &str) -> (out: String)
    ensures
        out@ == a@ + b@ + c@ + d@ + e@,
{
    let mut out = a.to_owned();
    out.append(b);
    out.append(c);
    out.append(d);
    out.append(e);
    out
}

/// The pieces of a text between separators.
pub open spec fn split_at_char(text: Seq<char>, separator: char) -> Seq<Seq<char>>
    decreases text.len(),
{
    if text.len() == 0 {
        seq![Seq::empty()]
    } else {
        let before = split_at_char(text.drop_last(), separator);
        if text.last() == separator {
            before.push(Seq::empty())
        } else {
            before.update(before.len() - 1, before.last().push(text.last()))
        }
    }
}

/// The pieces of a text between separators.
pub fn split_text(text: &str, separator: char) -> (pieces: Vec<String>)
    ensures
        texts(pieces@) == split_at_char(text@, separator),
        pieces@.len() > 0,
{
    let chars = chars_of(text);
    let mut pieces: Vec<String> = Vec::new();
    let mut current = String::new();
    let mut index: usize = 0;
    assert(texts(pieces@).push(current@) =~= split_at_char(chars@.take(0), separator));
    while index < chars.len()
        invariant
            index <= chars@.len(),
            chars@ == text@,
            texts(pieces@).push(current@) == split_at_char(chars@.take(index as int), separator),
        decreases chars@.len() - index,
    {
        let character = chars[index];
        let ghost before = texts(pieces@);
        let ghost held = current@;
        proof {
            let now = chars@.take(index + 1);
            assert(now.drop_last() =~= chars@.take(index as int));
            assert(now.last() == character);
            assert(before.push(held).last() == held);
        }
        if character == separator {
            pieces.push(current);
            current = String::new();
            assert(texts(pieces@) =~= before.push(held));
            assert(current@ =~= Seq::empty());
        } else {
            current.push(character);
            assert(before.push(held).update(before.len() as int, current@) =~= before.push(
                current@,
            ));
        }
        index += 1;
    }
    let ghost before = texts(pieces@);
    pieces.push(current);
    assert(texts(pieces@) =~= before.push(current@));
    assert(chars@.take(index as int) =~= chars@);
    pieces
}

/// The uppercase form of a character, which can be several characters.
pub uninterp spec fn uppercase_of(character: char) -> Seq<char>;

/// `char::to_uppercase`, collected into a text.
#[verifier::external_body]
pub(crate) fn uppercase_char(character: char) -> (upper: String)
    ensures
        upper@ == uppercase_of(character),
{
    character.to_uppercase().collect::<String>()
}

/// The lowercase form of a text.
pub uninterp spec fn lowercase_of(text: Seq<char>) -> Seq<char>;

/// `str::to_lowercase`.
#[verifier::external_body]
pub(crate) fn lowercase_text(text: &str) -> (lower: String)
    ensures
        lower@ == lowercase_of(text@),
{
    text.to_lowercase()
}

/// The uppercase form of a text.
pub uninterp spec fn uppercase_text_of(text: Seq<char>) -> Seq<char>;

/// `str::to_uppercase`.
#[verifier::external_body]
pub(crate) fn uppercase_text(text: &str) -> (upper: String)
    ensures
        upper@ == uppercase_text_of(text@),
{
    text.to_uppercase()
}

/// Whether a character counts as white space in Unicode.
pub open spec fn white_space(character: char) -> bool {
    let point = character as u32;
    ||| 0x9 <= point <= 0xd
    ||| point == 0x20
    ||| point == 0x85
    ||| point == 0xa0
    ||| point == 0x1680
    ||| 0x2000 <= point <= 0x200a
    ||| 0x2028 <= point <= 0x2029
    ||| point == 0x202f
    ||| point == 0x205f
    ||| point == 0x3000
}

/// Whether a character counts as white space in Unicode.
pub fn is_white_space(character: char) -> (white: bool)
    ensures
        white == white_space(character),
{
    let point: u32 = character as u32;
    (0x9 <= point && point <= 0xd) || point == 0x20 || point == 0x85 || point == 0xa0 || point
        == 0x1680 || (0x2000 <= point && point <= 0x200a) || point == 0x2028 || point == 0x2029
        || point == 0x202f || point == 0x205f || point == 0x3000
}

/// The text without white space at its start.
pub open spec fn trimmed_start(text: Seq<char>) -> Seq<char>
    decreases text.len(),
{
    if text.len() > 0 && white_space(text[0]) {
        trimmed_start(text.drop_first())
    } else {
        text
    }
}

/// The text without white space at its ends.
pub open spec fn trimmed(text: Seq<char>) -> Seq<char>
    decreases text.len(),
{
    if text.len() > 0 && white_space(text.last()) {
        trimmed(text.drop_last())
    } else {
        trimmed_start(text)
    }
}

/// The text without white space at its ends.
pub fn trim(text: &str) -> (inner: String)
    ensures
        inner@ == trimmed(text@),
{
    let chars = chars_of(text);
    let mut end: usize = chars.len();
    assert(chars@.take(end as int) =~= chars@);
    while end > 0 && is_white_space(chars[end - 1])
        invariant
            end <= chars@.len(),
            trimmed(chars@) == trimmed(chars@.take(end as int)),
        decreases end,
    {
        assert(chars@.take(end as int).last() == chars@[end - 1]);
        assert(chars@.take(end as int).drop_last() =~= chars@.take(end - 1));
        end -= 1;
    }
    let mut start: usize = 0;
    let ghost kept = chars@.take(end as int);
    assert(end > 0 ==> kept.last() == chars@[end - 1]);
    assert(kept.skip(0) =~= kept);
    while start < end && is_white_space(chars[start])
        invariant
            start <= end <= chars@.len(),
            kept == chars@.take(end as int),
            trimmed_start(kept) == trimmed_start(kept.skip(start as int)),
        decreases end - start,
    {
        assert(kept.skip(start as int)[0] == chars@[start as int]);
        assert(kept.skip(start as int).drop_first() =~= kept.skip(start + 1));
        start += 1;
    }
    assert(start < end ==> kept.skip(start as int)[0] == chars@[start as int]);
    assert(kept.skip(start as int) =~= chars@.subrange(start as int, end as int));
    text_of(&chars, start, end)
}

/// Up to `count` leading characters of a text.
pub open spec fn shortened(text: Seq<char>, count: nat) -> Seq<char> {
    if text.len() <= count {
        text
    } else {
        text.take(count as int)
    }
}

/// Up to `count` leading characters of a text.
pub fn shorten(text: &str, count: usize) -> (short: String)
    ensures
        short@ == shortened(text@, count as nat),
{
    let total = text.unicode_len();
    if total <= count {
        text.to_owned()
    } else {
        let head = text.substring_char(0, count);
        assert(head@ =~= text@.take(count as int));
        head.to_owned()
    }
}

/// A number of tenths in decimal notation with one decimal place.
pub open spec fn one_decimal(tenths: nat) -> Seq<char> {
    decimal(tenths / 10) + "."@ + decimal(tenths % 10)
}

/// A number of tenths in decimal notation with one decimal place.
pub fn one_decimal_text(tenths: u128) -> (out: String)
    ensures
        out@ == one_decimal(tenths as nat),
{
    let mut out = String::new();
    append_wide_decimal(&mut out, tenths / 10);
    out.append(".");
    append_wide_decimal(&mut out, tenths % 10);
    out
}

/// The last decimal digits of a number.
pub open spec fn last_digits(value: nat, count: nat) -> Seq<char>
    decreases count,
{
    if count == 0 {
        Seq::empty()
    } else {
        last_digits(value / 10, (count - 1) as nat).push(digit(value % 10))
    }
}

/// Appends the last decimal digits of a number.
pub fn append_last_digits(out: &mut String, value: u128, count: u32)
    ensures
        final(out)@ == old(out)@ + last_digits(value as nat, count as nat),
    decreases count,
{
    if count > 0 {
        append_last_digits(out, value / 10, count - 1);
        let last: u8 = (value % 10) as u8;
        out.push((48u8 + last) as char);
    }
    assert(out@ =~= old(out)@ + last_digits(value as nat, count as nat));
}

/// A number of millionths in decimal notation with six decimal places.
pub open spec fn six_decimals(millionths: nat) -> Seq<char> {
    decimal(millionths / 1_000_000) + "."@ + last_digits(millionths, 6)
}

/// A number of millionths in decimal notation with six decimal places.
pub fn six_decimals_text(millionths: u128) -> (out: String)
    ensures
        out@ == six_decimals(millionths as nat),
{
    let mut out = String::new();
    append_wide_decimal(&mut out, millionths / 1_000_000);
    out.append(".");
    append_last_digits(&mut out, millionths, 6);
    out
}

/// The decimal notation of a signed number.
pub fn signed_text(value: i64) -> (out: String)
    ensures
        out@ == signed_decimal(value as int),
{
    if value >= 0 {
        decimal_text(value as u64)
    } else {
        let size: u64 = if value == i64::MIN {
            0x8000_0000_0000_0000
        } else {
            (-value) as u64
        };
        concat2("-", decimal_text(size).as_str())
    }
}

/// Different numbers have different decimal notations.
pub proof fn decimal_is_injective(left: nat, right: nat)
    requires
        decimal(left) == decimal(right),
    ensures
        left == right,
    decreases left,
{
    let a = decimal(left);
    let b = decimal(right);
    assert(a.last() == digit(left % 10)) by {
        if left < 10 {
            assert(left % 10 == left);
        }
    }
    assert(b.last() == digit(right % 10)) by {
        if right < 10 {
            assert(right % 10 == right);
        }
    }
    assert(left % 10 == right % 10);
    if left >= 10 && right >= 10 {
        assert(a.drop_last() =~= decimal(left / 10));
        assert(b.drop_last() =~= decimal(right / 10));
        decimal_is_injective(left / 10, right / 10);
    } else if left >= 10 {
        lemma_decimal_not_empty(left / 10);
    } else if right >= 10 {
        lemma_decimal_not_empty(right / 10);
    }
}

proof fn lemma_decimal_not_empty(value: nat)
    ensures
        decimal(value).len() > 0,
    decreases value,
{
    if value >= 10 {
        lemma_decimal_not_empty(value / 10);
    }
}

/// Whether a character is a decimal digit.
pub open spec fn is_digit(character: char) -> bool {
    '0' as int <= character as int <= '9' as int
}

/// The number that decimal digits mean.
pub open spec fn digits_value(digits: Seq<char>) -> nat
    decreases digits.len(),
{
    if digits.len() == 0 {
        0
    } else {
        digits_value(digits.drop_last()) * 10 + (digits.last() as int - '0' as int) as nat
    }
}

/// Whether a text is made of decimal digits, at least one.
pub open spec fn all_digits(digits: Seq<char>) -> bool {
    digits.len() > 0 && forall|i: int| 0 <= i < digits.len() ==> is_digit(#[trigger] digits[i])
}

/// A text without a plus sign in front.
pub open spec fn unsigned(text: Seq<char>) -> Seq<char> {
    if text.len() > 0 && text[0] == '+' {
        text.drop_first()
    } else {
        text
    }
}

/// The number that a text means: decimal digits with an optional plus sign in
/// front, where 64 bits hold it.
pub open spec fn parsed_number(text: Seq<char>) -> Option<nat> {
    if all_digits(unsigned(text)) && digits_value(unsigned(text)) <= u64::MAX {
        Some(digits_value(unsigned(text)))
    } else {
        None
    }
}

proof fn lemma_digits_value_grows(digits: Seq<char>, count: int)
    requires
        0 <= count <= digits.len(),
        forall|i: int| 0 <= i < digits.len() ==> is_digit(#[trigger] digits[i]),
    ensures
        digits_value(digits.take(count)) <= digits_value(digits),
    decreases digits.len(),
{
    if count == digits.len() {
        assert(digits.take(count) =~= digits);
    } else {
        lemma_digits_value_grows(digits.drop_last(), count);
        assert(digits.drop_last().take(count) =~= digits.take(count));
    }
}

/// The code point of a character.
pub fn code_of(character: char) -> (code: u32)
    ensures
        code == character as int,
{
    character as u32
}

/// The number that a text means.
pub fn parse_number(text: &str) -> (number: Option<u64>)
    ensures
        match number {
            Some(number) => parsed_number(text@) == Some(number as nat),
            None => parsed_number(text@) is None,
        },
{
    let chars = chars_of(text);
    let start: usize = if chars.len() > 0 && chars[0] == '+' {
        1
    } else {
        0
    };
    let ghost digits = unsigned(text@);
    assert(digits =~= text@.skip(start as int));
    if start == chars.len() {
        return None;
    }
    let mut value: u64 = 0;
    let mut index: usize = start;
    assert(digits.take(0) =~= Seq::empty());
    while index < chars.len()
        invariant
            start <= index <= chars@.len(),
            chars@ == text@,
            digits == text@.skip(start as int),
            digits == unsigned(text@),
            forall|i: int| 0 <= i < index - start ==> is_digit(#[trigger] digits[i]),
            value == digits_value(digits.take(index - start)),
        decreases chars@.len() - index,
    {
        let character = chars[index];
        proof {
            assert(digits[index - start] == character);
            assert(digits.take(index - start + 1).drop_last() =~= digits.take(index - start));
            assert(digits.take(index - start + 1).last() == character);
        }
        let code = code_of(character);
        if code < 48 || code > 57 {
            assert(!is_digit(digits[index - start]));
            return None;
        }
        let unit: u64 = (code - 48) as u64;
        if value > (u64::MAX - unit) / 10 {
            proof {
                if all_digits(digits) {
                    lemma_digits_value_grows(digits, index - start + 1);
                }
            }
            return None;
        }
        value = value * 10 + unit;
        index += 1;
    }
    assert(digits.take(index - start) =~= digits);
    Some(value)
}

proof fn lemma_decimal_digits(value: nat)
    ensures
        all_digits(decimal(value)),
        digits_value(decimal(value)) == value,
    decreases value,
{
    reveal_with_fuel(digits_value, 2);
    if value >= 10 {
        lemma_decimal_digits(value / 10);
        assert(decimal(value).drop_last() =~= decimal(value / 10));
    } else {
        assert(decimal(value).drop_last() =~= Seq::empty());
    }
}

/// The number that the decimal notation of a number means is that number.
pub proof fn decimal_notation_is_read_back(value: u64)
    ensures
        parsed_number(decimal(value as nat)) == Some(value as nat),
{
    lemma_decimal_digits(value as nat);
    assert(is_digit(decimal(value as nat)[0]));
}

/// The same texts again.
pub fn copy_texts(items: &Vec<String>) -> (copies: Vec<String>)
    ensures
        copies@ == items@,
{
    let mut copies: Vec<String> = Vec::new();
    let mut index: usize = 0;
    while index < items.len()
        invariant
            index <= items@.len(),
            copies@ == items@.take(index as int),
        decreases items@.len() - index,
    {
        copies.push(items[index].clone());
        index += 1;
        assert(copies@ =~= items@.take(index as int));
    }
    assert(items@.take(index as int) =~= items@);
    copies
}

/// The first place of a text.
pub open spec fn place_of_text(items: Seq<String>, text: Seq<char>) -> Option<int>
    decreases items.len(),
{
    if items.len() == 0 {
        None
    } else if items[0]@ == text {
        Some(0)
    } else {
        match place_of_text(items.drop_first(), text) {
            Some(place) => Some(place + 1),
            None => None,
        }
    }
}

/// The first place of a text.
pub fn find_text(items: &Vec<String>, text: &str) -> (found: Option<usize>)
    ensures
        match found {
            Some(place) => place < items@.len() && items@[place as int]@ == text@ && place_of_text(
                items@,
                text@,
            ) == Some(place as int),
            None => place_of_text(items@, text@) is None,
        },
{
    let mut index: usize = 0;
    assert(items@.skip(0) =~= items@);
    while index < items.len()
        invariant
            index <= items@.len(),
            place_of_text(items@, text@) == (match place_of_text(
                items@.skip(index as int),
                text@,
            ) {
                Some(place) => Some(place + index),
                None => None,
            }),
        decreases items@.len() - index,
    {
        proof {
            assert(items@.skip(index as int)[0] == items@[index as int]);
            assert(items@.skip(index as int).drop_first() =~= items@.skip(index + 1));
        }
        if same_text(items[index].as_str(), text) {
            return Some(index);
        }
        index += 1;
    }
    None
}

/// A number is noted in decimal: its last digit stands last, after the notation
/// of what is left, and no notation of more than a digit begins with a zero.
pub proof fn numbers_are_noted_in_decimal(value: nat)
    ensures
        value < 10 ==> decimal(value) == seq![(48 + value) as char],
        value >= 10 ==> decimal(value) == decimal(value / 10).push((48 + value % 10) as char),
        decimal(value).len() > 0,
        value > 0 ==> decimal(value)[0] != '0',
    decreases value,
{
    if value >= 10 {
        numbers_are_noted_in_decimal(value / 10);
    }
}

/// A negative number is noted with a sign, and read without it is its opposite.
pub proof fn signs_precede_negative_numbers(value: int)
    ensures
        value >= 0 ==> signed_decimal(value) == decimal(value as nat),
        value < 0 ==> signed_decimal(value) == seq!['-'] + signed_decimal(-value),
{
    reveal_strlit("-");
    assert("-"@ =~= seq!['-']);
}

/// What follows the last separator is the end of the text, holds no separator
/// and comes right after one, or is the whole text.
pub proof fn endings_follow_the_last_separator(text: Seq<char>, separator: char)
    ensures
        ({
            let ending = after_last(text, separator);
            &&& ending.len() <= text.len()
            &&& ending == text.skip(text.len() - ending.len())
            &&& forall|i: int| 0 <= i < ending.len() ==> #[trigger] ending[i] != separator
            &&& ending.len() < text.len() ==> text[text.len() - ending.len() - 1] == separator
        }),
    decreases text.len(),
{
    if text.len() > 0 && text.last() != separator {
        endings_follow_the_last_separator(text.drop_last(), separator);
        let ending = after_last(text, separator);
        assert(ending =~= text.skip(text.len() - ending.len()));
    } else {
        assert(after_last(text, separator) =~= text.skip(text.len() as int));
    }
}

/// Replacing a character changes it wherever it stands, and no other one.
pub proof fn replacing_changes_one_character(text: Seq<char>, from: char, to: char)
    ensures
        replaced(text, from, to).len() == text.len(),
        forall|i: int|
            0 <= i < text.len() ==> #[trigger] replaced(text, from, to)[i] == (if text[i] == from {
                to
            } else {
                text[i]
            }),
{
}

/// Parts are joined by one separator between each two of them.
pub proof fn separators_stand_between_parts(
    first: Seq<Seq<char>>,
    second: Seq<Seq<char>>,
    separator: Seq<char>,
)
    ensures
        first.len() == 0 ==> joined(first, separator) == Seq::<char>::empty(),
        first.len() == 1 ==> joined(first, separator) == first[0],
        first.len() > 0 && second.len() > 0 ==> joined(first + second, separator) == joined(
            first,
            separator,
        ) + separator + joined(second, separator),
    decreases second.len(),
{
    if first.len() > 0 && second.len() > 0 {
        let all = first + second;
        assert(all.drop_last() =~= first + second.drop_last());
        assert(all.last() == second.last());
        if second.len() == 1 {
            assert(all.drop_last() =~= first);
        } else {
            separators_stand_between_parts(first, second.drop_last(), separator);
            assert(joined(first, separator) + separator + joined(second.drop_last(), separator)
                + separator + second.last() =~= joined(first, separator) + separator + (joined(
                second.drop_last(),
                separator,
            ) + separator + second.last()));
        }
    }
}

/// A text contains another one exactly where it can be taken apart around it.
pub proof fn contained_texts_have_surroundings(before: Seq<char>, part: Seq<char>, after: Seq<char>)
    ensures
        occurs_in(before + part + after, part),
        occurs_in(before, part) ==> exists|place: int|
            {
                &&& 0 <= place <= before.len() - part.len()
                &&& before == #[trigger] before.take(place) + part + before.skip(
                    place + part.len() as int,
                )
            },
{
    let whole = before + part + after;
    assert(whole.subrange(before.len() as int, (before.len() + part.len()) as int) =~= part);
    assert(occurs_at(whole, part, before.len() as int));
    if occurs_in(before, part) {
        let place = choose|place: int| occurs_at(before, part, place);
        assert(before =~= before.take(place) + before.subrange(place, place + part.len())
            + before.skip(place + part.len() as int));
    }
}

/// The first occurrence is replaced, then those after it; what stands before it
/// stays, and so does a text without any.
pub proof fn occurrences_are_replaced_from_the_front(
    text: Seq<char>,
    from: Seq<char>,
    to: Seq<char>,
    place: int,
)
    requires
        from.len() > 0,
        0 <= place <= text.len(),
        forall|i: int| 0 <= i < place ==> !#[trigger] occurs_at(text, from, i),
    ensures
        occurs_at(text, from, place) ==> replaced_all(text, from, to) == text.take(place) + to
            + replaced_all(text.skip(place + from.len() as int), from, to),
        place == text.len() ==> replaced_all(text, from, to) == text,
    decreases place,
{
    if place == 0 {
        assert(text.take(0) + to =~= to);
    } else {
        let rest = text.drop_first();
        assert(!occurs_at(text, from, 0));
        assert forall|i: int| 0 <= i < place - 1 implies !#[trigger] occurs_at(rest, from, i) by {
            assert(!occurs_at(text, from, i + 1));
            if i + 1 + from.len() <= text.len() {
                assert(rest.subrange(i, i + from.len()) =~= text.subrange(
                    i + 1,
                    i + 1 + from.len(),
                ));
            }
        }
        if occurs_at(text, from, place) {
            assert(rest.subrange(place - 1, place - 1 + from.len()) =~= text.subrange(
                place,
                place + from.len(),
            ));
            assert(occurs_at(rest, from, place - 1));
            assert(rest.skip(place - 1 + from.len() as int) =~= text.skip(
                place + from.len() as int,
            ));
        }
        occurrences_are_replaced_from_the_front(rest, from, to, place - 1);
        assert(seq![text[0]] + rest =~= text);
        if occurs_at(text, from, place) {
            let tail = replaced_all(text.skip(place + from.len() as int), from, to);
            assert(seq![text[0]] + (rest.take(place - 1) + to + tail) =~= text.take(place) + to
                + tail);
        }
    }
}

/// Splitting a text at a separator and joining the parts with it gives the text
/// back, and no part holds the separator.
pub proof fn split_texts_are_joined_again(text: Seq<char>, separator: char)
    ensures
        split_at_char(text, separator).len() > 0,
        joined(split_at_char(text, separator), seq![separator]) == text,
        forall|i: int, j: int|
            0 <= i < split_at_char(text, separator).len() && 0 <= j < split_at_char(
                text,
                separator,
            )[i].len() ==> #[trigger] split_at_char(text, separator)[i][j] != separator,
    decreases text.len(),
{
    let parts = split_at_char(text, separator);
    if text.len() == 0 {
        assert(joined(parts, seq![separator]) =~= text);
    } else {
        let shorter = text.drop_last();
        let before = split_at_char(shorter, separator);
        split_texts_are_joined_again(shorter, separator);
        assert(shorter.push(text.last()) =~= text);
        if text.last() == separator {
            assert(parts.drop_last() =~= before);
            assert(joined(parts, seq![separator]) =~= text);
        } else {
            assert(parts.drop_last() =~= before.drop_last());
            assert(joined(parts, seq![separator]) =~= text);
        }
    }
}

/// Blanks, tabulators and line ends are white space; printable characters of
/// ASCII are none.
pub proof fn printable_characters_are_no_white_space(character: char)
    ensures
        character == ' ' || character == '\t' || character == '\n' || character == '\r'
            ==> white_space(character),
        0x21 <= character as int <= 0x7e ==> !white_space(character),
{
}

/// Whether nothing but white space stands in a text.
pub open spec fn blank(text: Seq<char>) -> bool {
    forall|i: int| 0 <= i < text.len() ==> white_space(#[trigger] text[i])
}

proof fn lemma_trimmed_start(text: Seq<char>)
    ensures
        ({
            let rest = trimmed_start(text);
            &&& rest.len() <= text.len()
            &&& rest == text.skip(text.len() - rest.len())
            &&& blank(text.take(text.len() - rest.len()))
            &&& rest.len() > 0 ==> !white_space(rest[0])
        }),
    decreases text.len(),
{
    if text.len() > 0 && white_space(text[0]) {
        let shorter = text.drop_first();
        lemma_trimmed_start(shorter);
        let rest = trimmed_start(text);
        assert(rest =~= text.skip(text.len() - rest.len()));
        let front = text.take(text.len() - rest.len());
        assert forall|i: int| 0 <= i < front.len() implies white_space(#[trigger] front[i]) by {
            if i > 0 {
                assert(shorter.take(shorter.len() - rest.len())[i - 1] == front[i]);
            }
        }
    } else {
        assert(text.skip(0) =~= text);
    }
}

/// Trimming takes white space away at both ends, all of it and nothing else.
pub proof fn trimming_takes_the_white_space_around(text: Seq<char>)
    ensures
        exists|front: Seq<char>, back: Seq<char>|
            #![trigger blank(front), blank(back)]
            blank(front) && blank(back) && text == front + trimmed(text) + back,
        trimmed(text).len() > 0 ==> !white_space(trimmed(text)[0]) && !white_space(
            trimmed(text).last(),
        ),
        blank(text) <==> trimmed(text).len() == 0,
    decreases text.len(),
{
    let kept = trimmed(text);
    if text.len() > 0 && white_space(text.last()) {
        let shorter = text.drop_last();
        trimming_takes_the_white_space_around(shorter);
        let (front, back) = choose|front: Seq<char>, back: Seq<char>|
            #![trigger blank(front), blank(back)]
            blank(front) && blank(back) && shorter == front + trimmed(shorter) + back;
        let longer = back.push(text.last());
        assert(blank(longer));
        assert(kept == trimmed(shorter));
        assert(text =~= shorter.push(text.last()));
        assert(shorter.push(text.last()) =~= front + kept + longer);
        assert(blank(front) && blank(longer));
        if kept.len() > 0 {
            assert(text[front.len() as int] == kept[0]);
        } else {
            assert forall|i: int| 0 <= i < text.len() implies white_space(#[trigger] text[i]) by {
                if i < shorter.len() {
                    assert(shorter[i] == text[i]);
                }
            }
        }
    } else {
        lemma_trimmed_start(text);
        let front = text.take(text.len() - kept.len());
        let back = Seq::<char>::empty();
        assert(blank(front) && blank(back));
        assert(text =~= front + kept + back);
        if kept.len() > 0 {
            assert(text[text.len() - kept.len()] == kept[0]);
            assert(kept.last() == text.last());
        } else {
            assert(front =~= text);
        }
    }
}

/// A shortened text is the beginning of the text, as long as allowed.
pub proof fn shortened_texts_are_beginnings(text: Seq<char>, count: nat)
    ensures
        shortened(text, count).is_prefix_of(text),
        shortened(text, count).len() == (if text.len() < count {
            text.len()
        } else {
            count
        }),
{
}

/// Tenths and millionths are noted behind a point, millionths with all six
/// digits.
pub proof fn fractions_follow_a_point(parts: nat)
    ensures
        one_decimal(parts) == decimal(parts / 10) + seq!['.', (48 + parts % 10) as char],
        six_decimals(parts) == decimal(parts / 1_000_000) + seq![
            '.',
            (48 + parts / 100_000 % 10) as char,
            (48 + parts / 10_000 % 10) as char,
            (48 + parts / 1_000 % 10) as char,
            (48 + parts / 100 % 10) as char,
            (48 + parts / 10 % 10) as char,
            (48 + parts % 10) as char,
        ],
{
    reveal_strlit(".");
    reveal_with_fuel(last_digits, 7);
    assert(decimal(parts % 10) == seq![(48 + parts % 10) as char]);
    assert(one_decimal(parts) =~= decimal(parts / 10) + seq!['.', (48 + parts % 10) as char]);
    assert(parts / 10 / 10 == parts / 100);
    assert(parts / 100 / 10 == parts / 1_000);
    assert(parts / 1_000 / 10 == parts / 10_000);
    assert(parts / 10_000 / 10 == parts / 100_000);
    assert(six_decimals(parts) =~= decimal(parts / 1_000_000) + seq![
        '.',
        (48 + parts / 100_000 % 10) as char,
        (48 + parts / 10_000 % 10) as char,
        (48 + parts / 1_000 % 10) as char,
        (48 + parts / 100 % 10) as char,
        (48 + parts / 10 % 10) as char,
        (48 + parts % 10) as char,
    ]);
}

/// A number is read from digits alone, behind a plus sign at most; a further
/// digit makes it ten times as large and adds its value, up to the largest
/// number of sixty-four bits.
pub proof fn numbers_are_read_digit_by_digit(text: Seq<char>, next: char)
    ensures
        parsed_number(text) is Some ==> {
            &&& text.len() > 0
            &&& forall|i: int| 1 <= i < text.len() ==> 48 <= #[trigger] text[i] as int <= 57
            &&& text[0] == '+' || 48 <= text[0] as int <= 57
            &&& parsed_number(text)->0 <= 0xffff_ffff_ffff_ffff
        },
        text.len() == 0 ==> parsed_number(text) is None && parsed_number(seq!['+']) is None,
        48 <= next as int <= 57 ==> parsed_number(seq![next]) == Some((next as int - 48) as nat),
        parsed_number(text) is Some && 48 <= next as int <= 57 && 10 * parsed_number(text)->0
            + next as int - 48 <= 0xffff_ffff_ffff_ffff ==> parsed_number(text.push(next)) == Some(
            (10 * parsed_number(text)->0 + next as int - 48) as nat,
        ),
        parsed_number(text) is Some && !(48 <= next as int <= 57) ==> parsed_number(text.push(next))
            is None,
        text.len() > 0 && text[0] != '+' ==> parsed_number(seq!['+'] + text) == parsed_number(text),
{
    let one = seq![next];
    reveal_with_fuel(digits_value, 3);
    if 48 <= next as int <= 57 {
        assert(unsigned(one) == one);
        assert(one.drop_last() =~= Seq::empty());
        assert(is_digit(one[0]));
        assert(digits_value(one) == (next as int - 48) as nat);
    }
    assert(seq!['+'].drop_first() =~= Seq::empty());
    if parsed_number(text) is Some {
        let digits = unsigned(text);
        assert forall|i: int| 1 <= i < text.len() implies 48 <= #[trigger] text[i] as int
            <= 57 by {
            if text[0] == '+' {
                assert(is_digit(digits[i - 1]));
            } else {
                assert(is_digit(digits[i]));
            }
        }
        if text[0] != '+' {
            assert(is_digit(digits[0]));
        }
        let longer = text.push(next);
        assert(unsigned(longer) =~= digits.push(next));
        assert(digits.push(next).drop_last() =~= digits);
        assert(digits.push(next).last() == next);
        if 48 <= next as int <= 57 {
            assert forall|i: int| 0 <= i < digits.push(next).len() implies is_digit(
                #[trigger] digits.push(next)[i],
            ) by {
                if i < digits.len() {
                    assert(is_digit(digits[i]));
                }
            }
        } else {
            assert(!is_digit(digits.push(next)[digits.len() as int]));
        }
    }
    if text.len() > 0 && text[0] != '+' {
        assert((seq!['+'] + text).drop_first() =~= text);
    }
}

/// A text is found at the first place that holds it, and nowhere where none
/// does.
pub proof fn texts_are_found_at_their_first_place(items: Seq<String>, text: Seq<char>)
    ensures
        match place_of_text(items, text) {
            Some(place) => {
                &&& 0 <= place < items.len()
                &&& items[place]@ == text
                &&& forall|i: int| 0 <= i < place ==> #[trigger] items[i]@ != text
            },
            None => forall|i: int| 0 <= i < items.len() ==> #[trigger] items[i]@ != text,
        },
    decreases items.len(),
{
    if items.len() > 0 && items[0]@ != text {
        let rest = items.drop_first();
        texts_are_found_at_their_first_place(rest, text);
        match place_of_text(rest, text) {
            Some(place) => {
                assert(items[place + 1] == rest[place]);
                assert forall|i: int| 0 <= i < place + 1 implies #[trigger] items[i]@ != text by {
                    if i > 0 {
                        assert(rest[i - 1] == items[i]);
                    }
                }
            },
            None => {
                assert forall|i: int| 0 <= i < items.len() implies #[trigger] items[i]@ != text by {
                    if i > 0 {
                        assert(rest[i - 1] == items[i]);
                    }
                }
            },
        }
    }
}

/// Texts keep the order in which they occur first: a further one comes last,
/// or changes nothing where it has occurred.
pub proof fn further_texts_come_last(items: Seq<Seq<char>>, text: Seq<char>)
    ensures
        items.contains(text) ==> first_occurrences(items.push(text)) == first_occurrences(items),
        !items.contains(text) ==> first_occurrences(items.push(text)) == first_occurrences(
            items,
        ).push(text),
{
    first_occurrences_are_distinct(items);
    assert(items.push(text).drop_last() =~= items);
}

} // verus!
