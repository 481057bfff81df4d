//! Summary of missing telemetry.

use crate::sorting::{self, distinct_sorted_texts};
use crate::text::{self, after_last_of, append_decimal, join, length_text, replace_char};
use vstd::prelude::*;
use vstd::string::*;

verus! {

/// What a gap identity says is missing: its last segment, in words.
pub open spec fn gap_kind(gap: Seq<char>) -> Seq<char> {
    text::replaced(text::after_last(gap, ':'), '_', ' ')
}

/// The kinds of a sequence of gap identities, each once, in text order.
pub open spec fn gap_kinds(gaps: Seq<String>) -> Seq<Seq<char>> {
    sorting::distinct_sorted(gaps.map_values(|gap: String| gap_kind(gap@)))
}

/// How many kinds are named.
pub open spec fn named_kinds(kinds: Seq<Seq<char>>) -> int {
    if kinds.len() < 4 {
        kinds.len() as int
    } else {
        4
    }
}

/// The first four kinds, and how many more there are.
pub open spec fn kinds_text(kinds: Seq<Seq<char>>) -> Seq<char> {
    let named = text::joined(kinds.take(named_kinds(kinds)), ", "@);
    if kinds.len() == 0 {
        "unspecified telemetry"@
    } else if kinds.len() <= 4 {
        named
    } else {
        named + " + "@ + text::decimal((kinds.len() - 4) as nat) + " more kinds"@
    }
}

/// How many observations are missing and of which kinds.
pub open spec fn gap_summary(gaps: Seq<String>) -> Seq<char> {
    text::decimal(gaps.len()) + " missing observations · "@ + kinds_text(gap_kinds(gaps))
}

/// Says how many observations are missing and of which kinds.
pub fn telemetry_gap_summary(gaps: &[String]) -> (summary: String)
    ensures
        summary@ == gap_summary(gaps@),
{
    let mut kinds: Vec<String> = Vec::new();
    let ghost wanted = gaps@.map_values(|gap: String| gap_kind(gap@));
    let mut index: usize = 0;
    while index < gaps.len()
        invariant
            index <= gaps@.len(),
            wanted == gaps@.map_values(|gap: String| gap_kind(gap@)),
            text::texts(kinds@) == wanted.take(index as int),
        decreases gaps@.len() - index,
    {
        let segment = after_last_of(gaps[index].as_str(), ':');
        let kind = replace_char(segment.as_str(), '_', ' ');
        let ghost before = text::texts(kinds@);
        proof {
            assert(kind@ == wanted[index as int]);
        }
        kinds.push(kind);
        index += 1;
        proof {
            assert(text::texts(kinds@) =~= before.push(kind@));
            assert(wanted.take(index as int) =~= wanted.take(index - 1).push(wanted[index - 1]));
        }
    }
    assert(wanted.take(index as int) =~= wanted);
    let mut kinds = distinct_sorted_texts(kinds);
    let ghost all = text::texts(kinds@);
    let mut remaining: usize = 0;
    if kinds.len() > 4 {
        remaining = kinds.len() - 4;
        kinds.truncate(4);
    }
    proof {
        assert(text::texts(kinds@) =~= all.take(named_kinds(all)));
    }
    let mut summary = length_text(gaps.len());
    summary.append(" missing observations · ");
    let mut named = if kinds.len() == 0 {
        "unspecified telemetry".to_owned()
    } else {
        join(&kinds, ", ")
    };
    if remaining > 0 {
        named.append(" + ");
        append_decimal(&mut named, remaining as u64);
        named.append(" more kinds");
    }
    summary.append(named.as_str());
    summary
}

/// Which kinds are named does not depend on how often or in which order their
/// gaps occur: the kinds ascend, and each kind of a gap is among them.
pub proof fn gap_kinds_are_canonical(gaps: Seq<String>)
    ensures
        forall|i: int, j: int|
            0 <= i < j < gap_kinds(gaps).len() ==> sorting::text_before(
                #[trigger] gap_kinds(gaps)[i],
                #[trigger] gap_kinds(gaps)[j],
            ),
        forall|i: int| 0 <= i < gaps.len() ==> gap_kinds(gaps).contains(gap_kind(#[trigger] gaps[i]@)),
{
    let kinds = gaps.map_values(|gap: String| gap_kind(gap@));
    sorting::distinct_texts_ascend(kinds);
    assert forall|i: int| 0 <= i < gaps.len() implies gap_kinds(gaps).contains(
        gap_kind(#[trigger] gaps[i]@),
    ) by {
        assert(kinds[i] == gap_kind(gaps[i]@));
        assert(kinds.contains(kinds[i]));
    }
}

/// A kind of gap is what follows the last colon of a gap, with blanks for
/// underscores.
pub proof fn kinds_follow_the_last_colon(scope: Seq<char>, kind: Seq<char>, place: int)
    requires
        !kind.contains(':'),
    ensures
        gap_kind(kind).len() == kind.len(),
        gap_kind(scope + seq![':'] + kind) == gap_kind(kind),
        0 <= place < kind.len() ==> gap_kind(kind)[place] == (if kind[place] == '_' {
            ' '
        } else {
            kind[place]
        }),
{
    let whole = scope + seq![':'] + kind;
    text::endings_follow_the_last_separator(kind, ':');
    text::endings_follow_the_last_separator(whole, ':');
    let ending = text::after_last(kind, ':');
    if ending.len() < kind.len() {
        assert(kind.contains(kind[kind.len() - ending.len() - 1]));
    }
    assert(kind.skip(0) =~= kind);
    let other = text::after_last(whole, ':');
    assert(whole[scope.len() as int] == ':');
    if other.len() > kind.len() {
        assert(other[other.len() - kind.len() - 1] == whole[scope.len() as int]);
    }
    if other.len() < kind.len() {
        assert(kind[kind.len() - other.len() - 1] == whole[whole.len() - other.len() - 1]);
        assert(kind.contains(kind[kind.len() - other.len() - 1]));
    }
    assert(other =~= kind);
}

/// At most four kinds are named, and the others are counted.
pub proof fn four_kinds_are_named(kinds: Seq<Seq<char>>)
    ensures
        kinds.len() == 0 ==> kinds_text(kinds) == "unspecified telemetry"@,
        0 < kinds.len() <= 4 ==> kinds_text(kinds) == text::joined(kinds, ", "@),
        kinds.len() > 4 ==> kinds_text(kinds) == text::joined(
            seq![kinds[0], kinds[1], kinds[2], kinds[3]],
            ", "@,
        ) + " + "@ + text::decimal((kinds.len() - 4) as nat) + " more kinds"@,
{
    if kinds.len() <= 4 {
        assert(kinds.take(kinds.len() as int) =~= kinds);
    } else {
        assert(kinds.take(4) =~= seq![kinds[0], kinds[1], kinds[2], kinds[3]]);
    }
}

/// A summary counts every gap and names each kind once.
pub proof fn summaries_count_every_gap(gaps: Seq<String>)
    ensures
        gap_summary(gaps) == text::decimal(gaps.len()) + " missing observations · "@ + kinds_text(
            gap_kinds(gaps),
        ),
        gap_kinds(gaps).len() <= gaps.len(),
        gap_kinds(gaps).no_duplicates(),
{
    let kinds = gaps.map_values(|gap: String| gap_kind(gap@));
    sorting::distinct_texts_ascend(kinds);
    text::first_occurrences_are_distinct(kinds);
    sorting::text_order_is_strict_weak();
    sorting::sorting_is_an_ordered_rearrangement(
        sorting::text_order(),
        text::first_occurrences(kinds),
    );
    assert forall|i: int, j: int|
        0 <= i < gap_kinds(gaps).len() && 0 <= j < gap_kinds(gaps).len() && i != j implies gap_kinds(
        gaps,
    )[i] != gap_kinds(gaps)[j] by {
        if i < j {
            sorting::text_order_is_total(gap_kinds(gaps)[i], gap_kinds(gaps)[j]);
        } else {
            sorting::text_order_is_total(gap_kinds(gaps)[j], gap_kinds(gaps)[i]);
        }
    }
}

} // verus!
