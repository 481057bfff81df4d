//! What is shown of a batch of draft evals before it is created.

use super::eval_generation::{
    EvalBatch, EvalBatchExclusion, EvalBatchItem, EvalBatchPreviewV1, EvalSelectionReasonV1,
};
use super::model::{optional_text, FailureGroupSummary};
use super::render::{self, or_text, short_hash};
use super::state::FailureInbox;
use crate::components::telemetry_gaps::{self, telemetry_gap_summary};
use crate::keyed;
use crate::text::{self, append_decimal, concat2, concat3, length_text, same_text};
use vstd::prelude::*;
use vstd::string::*;

verus! {

/// Why an example was chosen, in words.
pub open spec fn reason_text(reason: EvalSelectionReasonV1) -> Seq<char> {
    match reason {
        EvalSelectionReasonV1::CanonicalMember => "Canonical example"@,
        EvalSelectionReasonV1::NewestUnrecovered => "Newest unresolved example"@,
        EvalSelectionReasonV1::RecoveredExample => "Recovered example"@,
        EvalSelectionReasonV1::DistinctAgentBuild => "Distinct agent build"@,
        EvalSelectionReasonV1::DistinctExecutionShape => "Distinct execution shape"@,
    }
}

/// Why an example was chosen, in words.
pub fn selection_reason_label(reason: EvalSelectionReasonV1) -> (label: &'static str)
    ensures
        label@ == reason_text(reason),
{
    match reason {
        EvalSelectionReasonV1::CanonicalMember => "Canonical example",
        EvalSelectionReasonV1::NewestUnrecovered => "Newest unresolved example",
        EvalSelectionReasonV1::RecoveredExample => "Recovered example",
        EvalSelectionReasonV1::DistinctAgentBuild => "Distinct agent build",
        EvalSelectionReasonV1::DistinctExecutionShape => "Distinct execution shape",
    }
}

/// The examples of a group.
pub open spec fn items_of(items: Seq<EvalBatchItem>, group_id: Seq<char>) -> Seq<EvalBatchItem> {
    items.filter(|item: EvalBatchItem| item.group_id@ == group_id)
}

/// The examples of a group that were left out.
pub open spec fn exclusions_of(
    exclusions: Seq<EvalBatchExclusion>,
    group_id: Seq<char>,
) -> Seq<EvalBatchExclusion> {
    exclusions.filter(|exclusion: EvalBatchExclusion| exclusion.group_id@ == group_id)
}

/// The examples of which there is no draft yet.
pub open spec fn proposed_of(items: Seq<EvalBatchItem>) -> Seq<EvalBatchItem> {
    items.filter(|item: EvalBatchItem| !item.already_exists)
}

/// The examples with gaps in their telemetry.
pub open spec fn with_gaps(items: Seq<EvalBatchItem>) -> Seq<EvalBatchItem> {
    items.filter(|item: EvalBatchItem| item.telemetry_gaps@.len() > 0)
}

/// All evidence of some examples.
pub open spec fn evidence_sum(items: Seq<EvalBatchItem>) -> nat
    decreases items.len(),
{
    if items.len() == 0 {
        0
    } else {
        evidence_sum(items.drop_last()) + items.last().evidence_count as nat
    }
}

/// The builds of some examples, as far as they are known.
pub open spec fn builds_of(items: Seq<EvalBatchItem>) -> Set<Seq<char>> {
    Set::new(
        |build: Seq<char>|
            exists|i: int|
                0 <= i < items.len() && optional_text((#[trigger] items[i]).build_id) == Some(
                    build,
                ),
    )
}

/// The sessions of some examples, as far as they are known.
pub open spec fn sessions_of(items: Seq<EvalBatchItem>) -> Set<Seq<char>> {
    Set::new(
        |session: Seq<char>|
            exists|i: int|
                0 <= i < items.len() && optional_text((#[trigger] items[i]).session_id) == Some(
                    session,
                ),
    )
}

/// What is counted of the examples of a group.
#[derive(Debug, Clone, Copy, PartialEq, Eq, Structural)]
pub struct GroupCounts {
    pub items: usize,
    pub proposed: usize,
    pub evidence: u128,
    pub caveats: usize,
    pub builds: usize,
    pub sessions: usize,
    pub excluded: usize,
}

/// Whether counts are those of a group in a preview.
pub open spec fn counts_group(
    counts: GroupCounts,
    preview: EvalBatchPreviewV1,
    group_id: Seq<char>,
) -> bool {
    let items = items_of(preview.items@, group_id);
    &&& counts.items == items.len()
    &&& counts.proposed == proposed_of(items).len()
    &&& counts.evidence == evidence_sum(items)
    &&& counts.caveats == with_gaps(items).len()
    &&& counts.builds == builds_of(items).len()
    &&& counts.sessions == sessions_of(items).len()
    &&& counts.excluded == exclusions_of(preview.exclusions@, group_id).len()
}

fn known_texts(preview: &EvalBatchPreviewV1, group_id: &str, sessions: bool) -> (count: usize)
    ensures
        count == (if sessions {
            sessions_of(items_of(preview.items@, group_id@)).len()
        } else {
            builds_of(items_of(preview.items@, group_id@)).len()
        }),
{
    let items = &preview.items;
    let ghost keep = |item: EvalBatchItem| item.group_id@ == group_id@;
    let mut known: Vec<String> = Vec::new();
    let mut index: usize = 0;
    proof {
        if items@.len() > 0 {
            keyed::lemma_filter_take(items@, 0, keep);
        } else {
            reveal(Seq::filter);
            assert(items@.take(0) =~= Seq::empty());
        }
        let none = items@.take(0).filter(keep);
        let found = if sessions {
            sessions_of(none)
        } else {
            builds_of(none)
        };
        assert(text::texts(known@) =~= Seq::empty());
        assert(text::texts(known@).to_set() =~= found);
    }
    while index < items.len()
        invariant
            index <= items@.len(),
            items == &preview.items,
            keep == (|item: EvalBatchItem| item.group_id@ == group_id@),
            text::texts(known@).to_set() == (if sessions {
                sessions_of(items@.take(index as int).filter(keep))
            } else {
                builds_of(items@.take(index as int).filter(keep))
            }),
        decreases items@.len() - index,
    {
        let item = &items[index];
        let ghost earlier = items@.take(index as int).filter(keep);
        let ghost before = text::texts(known@);
        proof {
            keyed::lemma_filter_take(items@, index as int, keep);
        }
        if same_text(item.group_id.as_str(), group_id) {
            let value = if sessions {
                &item.session_id
            } else {
                &item.build_id
            };
            if let Some(value) = value {
                known.push(value.clone());
                assert(text::texts(known@) =~= before.push(value@));
            }
            proof {
                let now = earlier.push(*item);
                assert(now =~= items@.take(index + 1).filter(keep));
                lemma_known_grows(earlier, *item, before, text::texts(known@), sessions);
            }
        }
        index += 1;
    }
    assert(items@.take(index as int) =~= items@);
    let ghost given = text::texts(known@);
    let distinct = text::distinct_texts(known);
    proof {
        let kept = text::texts(distinct@);
        text::first_occurrences_are_distinct(given);
        assert(kept.to_set() =~= given.to_set()) by {
            assert forall|value: Seq<char>| kept.contains(value) <==> given.contains(value) by {}
        }
        kept.unique_seq_to_set();
    }
    distinct.len()
}

proof fn lemma_known_grows(
    items: Seq<EvalBatchItem>,
    item: EvalBatchItem,
    before: Seq<Seq<char>>,
    after: Seq<Seq<char>>,
    sessions: bool,
)
    requires
        before.to_set() == (if sessions {
            sessions_of(items)
        } else {
            builds_of(items)
        }),
        ({
            let value = if sessions {
                optional_text(item.session_id)
            } else {
                optional_text(item.build_id)
            };
            after == (match value {
                Some(value) => before.push(value),
                None => before,
            })
        }),
    ensures
        after.to_set() == (if sessions {
            sessions_of(items.push(item))
        } else {
            builds_of(items.push(item))
        }),
{
    let all = items.push(item);
    let wanted = if sessions {
        sessions_of(all)
    } else {
        builds_of(all)
    };
    let known = if sessions {
        sessions_of(items)
    } else {
        builds_of(items)
    };
    assert forall|value: Seq<char>| after.to_set().contains(value) <==> wanted.contains(value) by {
        let of = |entry: EvalBatchItem|
            if sessions {
                optional_text(entry.session_id)
            } else {
                optional_text(entry.build_id)
            };
        if wanted.contains(value) {
            let i = choose|i: int| 0 <= i < all.len() && of(#[trigger] all[i]) == Some(value);
            if i < items.len() {
                assert(items[i] == all[i]);
                assert(known.contains(value));
                assert(before.to_set().contains(value));
                let j = choose|j: int| 0 <= j < before.len() && before[j] == value;
                assert(after[j] == value);
            } else {
                assert(after.last() == value);
            }
        }
        if after.to_set().contains(value) {
            let j = choose|j: int| 0 <= j < after.len() && after[j] == value;
            if j < before.len() {
                assert(before[j] == value);
                assert(before.to_set().contains(value));
                assert(known.contains(value));
                let i = choose|i: int|
                    0 <= i < items.len() && of(#[trigger] items[i]) == Some(value);
                assert(all[i] == items[i]);
            } else {
                assert(all.last() == item);
                assert(all[all.len() - 1] == item);
            }
        }
    }
    assert(after.to_set() =~= wanted);
}

/// Counts the examples of a group.
pub fn count_group(preview: &EvalBatchPreviewV1, group_id: &str) -> (counts: GroupCounts)
    ensures
        counts_group(counts, *preview, group_id@),
{
    let items = &preview.items;
    let ghost keep = |item: EvalBatchItem| item.group_id@ == group_id@;
    let ghost fresh = |item: EvalBatchItem| !item.already_exists;
    let ghost gappy = |item: EvalBatchItem| item.telemetry_gaps@.len() > 0;
    let mut count: usize = 0;
    let mut proposed: usize = 0;
    let mut evidence: u128 = 0;
    let mut caveats: usize = 0;
    let mut index: usize = 0;
    proof {
        reveal(Seq::filter);
        assert(items@.take(0) =~= Seq::empty());
    }
    while index < items.len()
        invariant
            index <= items@.len(),
            items == &preview.items,
            keep == (|item: EvalBatchItem| item.group_id@ == group_id@),
            fresh == (|item: EvalBatchItem| !item.already_exists),
            gappy == (|item: EvalBatchItem| item.telemetry_gaps@.len() > 0),
            count <= index,
            proposed <= index,
            caveats <= index,
            evidence <= index * 0xffff_ffff_ffff_ffff,
            ({
                let seen = items@.take(index as int).filter(keep);
                &&& count == seen.len()
                &&& proposed == seen.filter(fresh).len()
                &&& caveats == seen.filter(gappy).len()
                &&& evidence == evidence_sum(seen)
            }),
        decreases items@.len() - index,
    {
        let item = &items[index];
        let ghost seen = items@.take(index as int).filter(keep);
        proof {
            keyed::lemma_filter_take(items@, index as int, keep);
        }
        if same_text(item.group_id.as_str(), group_id) {
            proof {
                let now = seen.push(*item);
                keyed::lemma_filter_take(now, seen.len() as int, fresh);
                keyed::lemma_filter_take(now, seen.len() as int, gappy);
                assert(now.take(seen.len() as int) =~= seen);
                assert(now.take(now.len() as int) =~= now);
                assert(now.drop_last() =~= seen);
            }
            count += 1;
            if !item.already_exists {
                proposed += 1;
            }
            if item.telemetry_gaps.len() > 0 {
                caveats += 1;
            }
            evidence = evidence + item.evidence_count as u128;
        }
        index += 1;
    }
    assert(items@.take(index as int) =~= items@);
    GroupCounts {
        items: count,
        proposed,
        evidence,
        caveats,
        builds: known_texts(preview, group_id, false),
        sessions: known_texts(preview, group_id, true),
        excluded: count_exclusions(&preview.exclusions, group_id),
    }
}

fn count_exclusions(exclusions: &Vec<EvalBatchExclusion>, group_id: &str) -> (count: usize)
    ensures
        count == exclusions_of(exclusions@, group_id@).len(),
{
    let ghost keep = |exclusion: EvalBatchExclusion| exclusion.group_id@ == group_id@;
    let mut count: usize = 0;
    let mut index: usize = 0;
    proof {
        reveal(Seq::filter);
        assert(exclusions@.take(0) =~= Seq::empty());
    }
    while index < exclusions.len()
        invariant
            index <= exclusions@.len(),
            keep == (|exclusion: EvalBatchExclusion| exclusion.group_id@ == group_id@),
            count <= index,
            count == exclusions@.take(index as int).filter(keep).len(),
        decreases exclusions@.len() - index,
    {
        proof {
            keyed::lemma_filter_take(exclusions@, index as int, keep);
        }
        if same_text(exclusions[index].group_id.as_str(), group_id) {
            count += 1;
        }
        index += 1;
    }
    assert(exclusions@.take(index as int) =~= exclusions@);
    count
}

/// What is shown of an example.
#[derive(Debug)]
pub struct BatchItemView {
    pub reason: &'static str,
    pub already_exists: bool,
    pub source: String,
    pub rubric: String,
    pub telemetry: Option<String>,
}

/// Where an example comes from.
pub open spec fn item_source(item: EvalBatchItem) -> Seq<char> {
    render::text_or(item.run_title, "Unnamed run"@) + " · build "@ + render::text_or(
        item.build_id,
        "unknown"@,
    ) + " · session "@ + render::text_or(item.session_id, "unknown"@) + " · revision "@
        + text::decimal(item.revision as nat) + " · "@ + item.recovery.name()
}

/// What is shown of an example.
pub open spec fn shows_item(view: BatchItemView, item: EvalBatchItem) -> bool {
    &&& view.reason@ == reason_text(item.selection_reason)
    &&& view.already_exists == item.already_exists
    &&& view.source@ == item_source(item)
    &&& view.rubric@ == item.proposed_rubric@
    &&& view.telemetry is Some <==> item.telemetry_gaps@.len() > 0
    &&& view.telemetry is Some ==> view.telemetry->0@ == "Telemetry: "@
        + telemetry_gaps::gap_summary(item.telemetry_gaps@)
}

/// What is shown of an example.
pub fn batch_item_view(item: &EvalBatchItem) -> (view: BatchItemView)
    ensures
        shows_item(view, *item),
{
    let mut source = concat2(or_text(&item.run_title, "Unnamed run"), " · build ");
    source.append(or_text(&item.build_id, "unknown"));
    source.append(" · session ");
    source.append(or_text(&item.session_id, "unknown"));
    source.append(" · revision ");
    append_decimal(&mut source, item.revision);
    source.append(" · ");
    source.append(item.recovery.label());
    let telemetry = if item.telemetry_gaps.len() > 0 {
        Some(
            concat2(
                "Telemetry: ",
                telemetry_gap_summary(item.telemetry_gaps.as_slice()).as_str(),
            ),
        )
    } else {
        None
    };
    BatchItemView {
        reason: selection_reason_label(item.selection_reason),
        already_exists: item.already_exists,
        source,
        rubric: item.proposed_rubric.clone(),
        telemetry,
    }
}

/// What is shown of a group of a preview.
#[derive(Debug)]
pub struct BatchGroupView {
    pub group_id: String,
    pub title: String,
    pub label: String,
    pub summary: String,
    pub caveat: Option<String>,
    pub proposed: String,
    pub existing: Option<String>,
    pub excluded: Option<String>,
    pub expanded: bool,
    pub glyph: &'static str,
    pub items: Vec<BatchItemView>,
    pub exclusions: Vec<String>,
}

/// The name of a group of a preview.
pub open spec fn batch_title(groups: Seq<FailureGroupSummary>, group_id: Seq<char>) -> Seq<char> {
    match group_named(groups, group_id) {
        Some(group) => match group.presentation {
            Some(presentation) => presentation.title@,
            None => "Failure group "@ + render::shortened_hash(group_id),
        },
        None => "Failure group "@ + render::shortened_hash(group_id),
    }
}

/// The first listed group with an identity.
pub open spec fn group_named(groups: Seq<FailureGroupSummary>, group_id: Seq<char>) -> Option<
    FailureGroupSummary,
>
    decreases groups.len(),
{
    if groups.len() == 0 {
        None
    } else if groups[0].group_id@ == group_id {
        Some(groups[0])
    } else {
        group_named(groups.drop_first(), group_id)
    }
}

fn batch_title_of(groups: &Vec<FailureGroupSummary>, group_id: &str) -> (title: String)
    ensures
        title@ == batch_title(groups@, group_id@),
{
    let mut index: usize = 0;
    assert(groups@.skip(0) =~= groups@);
    while index < groups.len()
        invariant
            index <= groups@.len(),
            group_named(groups@, group_id@) == group_named(groups@.skip(index as int), group_id@),
        decreases groups@.len() - index,
    {
        proof {
            assert(groups@.skip(index as int)[0] == groups@[index as int]);
            assert(groups@.skip(index as int).drop_first() =~= groups@.skip(index + 1));
        }
        if same_text(groups[index].group_id.as_str(), group_id) {
            return match &groups[index].presentation {
                Some(presentation) => presentation.title.clone(),
                None => concat2("Failure group ", short_hash(group_id)),
            };
        }
        index += 1;
    }
    concat2("Failure group ", short_hash(group_id))
}

/// The ending of a plural, which a count of one does not take.
pub open spec fn plural(count: nat) -> Seq<char> {
    if count == 1 {
        ""@
    } else {
        "s"@
    }
}

fn plural_of(count: usize) -> (ending: &'static str)
    ensures
        ending@ == plural(count as nat),
{
    if count == 1 {
        ""
    } else {
        "s"
    }
}

/// A count that is shown as at least one.
pub open spec fn at_least_one(count: nat) -> nat {
    if count == 0 {
        1
    } else {
        count
    }
}

/// What is said of the examples of a group.
pub open spec fn group_summary(counts: GroupCounts) -> Seq<char> {
    text::decimal(counts.items as nat) + " representatives · "@ + text::decimal(
        counts.evidence as nat,
    ) + " evidence refs · "@ + text::decimal(at_least_one(counts.builds as nat)) + " build"@
        + plural(counts.builds as nat) + " · "@ + text::decimal(
        at_least_one(counts.sessions as nat),
    ) + " session"@ + plural(counts.sessions as nat)
}

/// What a screen reader says of a group of a preview.
pub open spec fn batch_group_label(title: Seq<char>, counts: GroupCounts) -> Seq<char> {
    title + "; "@ + text::decimal(counts.items as nat) + " representative examples; "@
        + text::decimal(counts.proposed as nat) + " proposed; "@ + text::decimal(
        (counts.items - counts.proposed) as nat,
    ) + " already exist; "@ + text::decimal(counts.excluded as nat) + " excluded"@
}

/// What is shown of a group of a preview.
pub open spec fn shows_batch_group(
    view: BatchGroupView,
    inbox: FailureInbox,
    preview: EvalBatchPreviewV1,
    group_id: Seq<char>,
) -> bool {
    let items = items_of(preview.items@, group_id);
    let excluded = exclusions_of(preview.exclusions@, group_id);
    let expanded = inbox.eval.expanded_group_ids@.contains(group_id);
    &&& view.group_id@ == group_id
    &&& view.title@ == batch_title(inbox.list.groups@, group_id)
    &&& exists|counts: GroupCounts| #[trigger]
        counts_group(counts, preview, group_id) && counts.proposed <= counts.items && view.label@
            == batch_group_label(view.title@, counts) && view.summary@ == group_summary(counts)
            && shows_badges(view, counts)
    &&& view.expanded == expanded
    &&& view.glyph@ == (if expanded {
        "▾"@
    } else {
        "▸"@
    })
    &&& expanded ==> {
        &&& view.items@.len() == items.len()
        &&& forall|i: int|
            0 <= i < items.len() ==> shows_item(#[trigger] view.items@[i], items[i])
        &&& view.exclusions@.len() == excluded.len()
        &&& forall|i: int|
            0 <= i < excluded.len() ==> (#[trigger] view.exclusions@[i])@ == "Excluded: "@
                + excluded[i].reason@
    }
    &&& !expanded ==> view.items@.len() == 0 && view.exclusions@.len() == 0
}

/// The badges of a group of a preview.
pub open spec fn shows_badges(view: BatchGroupView, counts: GroupCounts) -> bool {
    let existing = counts.items - counts.proposed;
    &&& view.caveat is Some <==> counts.caveats > 0
    &&& view.caveat is Some ==> view.caveat->0@ == text::decimal(counts.caveats as nat)
        + " representative"@ + plural(counts.caveats as nat) + " need telemetry review"@
    &&& view.proposed@ == text::decimal(counts.proposed as nat) + " PROPOSED"@
    &&& view.existing is Some <==> existing > 0
    &&& view.existing is Some ==> view.existing->0@ == text::decimal(existing as nat)
        + " EXISTING"@
    &&& view.excluded is Some <==> counts.excluded > 0
    &&& view.excluded is Some ==> view.excluded->0@ == text::decimal(counts.excluded as nat)
        + " EXCLUDED"@
}

proof fn lemma_filter_len<A>(items: Seq<A>, keep: spec_fn(A) -> bool)
    ensures
        items.filter(keep).len() <= items.len(),
    decreases items.len(),
{
    reveal(Seq::filter);
    if items.len() > 0 {
        lemma_filter_len(items.drop_last(), keep);
    }
}

fn item_views(preview: &EvalBatchPreviewV1, group_id: &str) -> (views: Vec<BatchItemView>)
    ensures
        views@.len() == items_of(preview.items@, group_id@).len(),
        forall|i: int|
            0 <= i < views@.len() ==> shows_item(
                #[trigger] views@[i],
                items_of(preview.items@, group_id@)[i],
            ),
{
    let items = &preview.items;
    let ghost keep = |item: EvalBatchItem| item.group_id@ == group_id@;
    let mut views: Vec<BatchItemView> = Vec::new();
    let mut index: usize = 0;
    proof {
        reveal(Seq::filter);
        assert(items@.take(0) =~= Seq::empty());
    }
    while index < items.len()
        invariant
            index <= items@.len(),
            items == &preview.items,
            keep == (|item: EvalBatchItem| item.group_id@ == group_id@),
            views@.len() == items@.take(index as int).filter(keep).len(),
            forall|i: int|
                0 <= i < views@.len() ==> shows_item(
                    #[trigger] views@[i],
                    items@.take(index as int).filter(keep)[i],
                ),
        decreases items@.len() - index,
    {
        proof {
            keyed::lemma_filter_take(items@, index as int, keep);
        }
        if same_text(items[index].group_id.as_str(), group_id) {
            views.push(batch_item_view(&items[index]));
        }
        index += 1;
    }
    assert(items@.take(index as int) =~= items@);
    views
}

fn exclusion_lines(preview: &EvalBatchPreviewV1, group_id: &str) -> (lines: Vec<String>)
    ensures
        lines@.len() == exclusions_of(preview.exclusions@, group_id@).len(),
        forall|i: int|
            0 <= i < lines@.len() ==> (#[trigger] lines@[i])@ == "Excluded: "@ + exclusions_of(
                preview.exclusions@,
                group_id@,
            )[i].reason@,
{
    let exclusions = &preview.exclusions;
    let ghost keep = |exclusion: EvalBatchExclusion| exclusion.group_id@ == group_id@;
    let mut lines: Vec<String> = Vec::new();
    let mut index: usize = 0;
    proof {
        reveal(Seq::filter);
        assert(exclusions@.take(0) =~= Seq::empty());
    }
    while index < exclusions.len()
        invariant
            index <= exclusions@.len(),
            exclusions == &preview.exclusions,
            keep == (|exclusion: EvalBatchExclusion| exclusion.group_id@ == group_id@),
            lines@.len() == exclusions@.take(index as int).filter(keep).len(),
            forall|i: int|
                0 <= i < lines@.len() ==> (#[trigger] lines@[i])@ == "Excluded: "@
                    + exclusions@.take(index as int).filter(keep)[i].reason@,
        decreases exclusions@.len() - index,
    {
        proof {
            keyed::lemma_filter_take(exclusions@, index as int, keep);
        }
        if same_text(exclusions[index].group_id.as_str(), group_id) {
            lines.push(concat2("Excluded: ", exclusions[index].reason.as_str()));
        }
        index += 1;
    }
    assert(exclusions@.take(index as int) =~= exclusions@);
    lines
}

fn shown_at_least_one(count: usize) -> (shown: usize)
    ensures
        shown == at_least_one(count as nat),
{
    if count == 0 {
        1
    } else {
        count
    }
}

impl FailureInbox {
    /// What is shown of a group of a preview.
    pub fn batch_group_view(&self, preview: &EvalBatchPreviewV1, group_id: &String) -> (view:
        BatchGroupView)
        ensures
            shows_batch_group(view, *self, *preview, group_id@),
    {
        let counts = count_group(preview, group_id.as_str());
        proof {
            let items = items_of(preview.items@, group_id@);
            lemma_filter_len(items, |item: EvalBatchItem| !item.already_exists);
        }
        let existing: usize = counts.items - counts.proposed;
        let title = batch_title_of(&self.list.groups, group_id.as_str());
        let expanded = self.eval.expanded_group_ids.contains(group_id);
        let mut label = concat2(title.as_str(), "; ");
        label.append(length_text(counts.items).as_str());
        label.append(" representative examples; ");
        label.append(length_text(counts.proposed).as_str());
        label.append(" proposed; ");
        label.append(length_text(existing).as_str());
        label.append(" already exist; ");
        label.append(length_text(counts.excluded).as_str());
        label.append(" excluded");
        let mut summary = length_text(counts.items);
        summary.append(" representatives · ");
        text::append_wide_decimal(&mut summary, counts.evidence);
        summary.append(" evidence refs · ");
        summary.append(length_text(shown_at_least_one(counts.builds)).as_str());
        summary.append(" build");
        summary.append(plural_of(counts.builds));
        summary.append(" · ");
        summary.append(length_text(shown_at_least_one(counts.sessions)).as_str());
        summary.append(" session");
        summary.append(plural_of(counts.sessions));
        let caveat = if counts.caveats > 0 {
            let mut caveat = length_text(counts.caveats);
            caveat.append(" representative");
            caveat.append(plural_of(counts.caveats));
            caveat.append(" need telemetry review");
            Some(caveat)
        } else {
            None
        };
        let existing_badge = if existing > 0 {
            Some(concat2(length_text(existing).as_str(), " EXISTING"))
        } else {
            None
        };
        let excluded = if counts.excluded > 0 {
            Some(concat2(length_text(counts.excluded).as_str(), " EXCLUDED"))
        } else {
            None
        };
        let (items, exclusions) = if expanded {
            (
                item_views(preview, group_id.as_str()),
                exclusion_lines(preview, group_id.as_str()),
            )
        } else {
            (Vec::new(), Vec::new())
        };
        let view = BatchGroupView {
            group_id: group_id.clone(),
            title,
            label,
            summary,
            caveat,
            proposed: concat2(length_text(counts.proposed).as_str(), " PROPOSED"),
            existing: existing_badge,
            excluded,
            expanded,
            glyph: if expanded {
                "▾"
            } else {
                "▸"
            },
            items,
            exclusions,
        };
        assert(counts_group(counts, *preview, group_id@));
        assert(shows_badges(view, counts));
        view
    }
}

/// What the foot of a preview offers to do.
#[derive(Debug)]
pub enum BatchAction {
    /// The job is at work.
    Generating,
    /// The job left something to do.
    Retry,
    /// The job is complete.
    OpenReview,
    /// There is no job yet.
    Create { label: String, hint: &'static str, enabled: bool },
}

/// What is shown of a preview.
#[derive(Debug)]
pub struct EvalBatchView {
    /// What stands above the groups, where there is a preview.
    pub heading: Option<(String, String)>,
    pub groups: Vec<BatchGroupView>,
    /// How far the job is, where there is one.
    pub job: Option<(String, String)>,
    pub close: &'static str,
    pub close_label: &'static str,
    pub action: BatchAction,
}

/// What is said of a whole preview.
pub open spec fn preview_intro(preview: EvalBatchPreviewV1) -> Seq<char> {
    text::decimal(preview.items@.len()) + " representative examples from "@ + text::decimal(
        preview.group_ids@.len(),
    )
        + " failure groups. New definitions enter review; this does not activate or schedule a grader."@
}

/// What limits a preview.
pub open spec fn preview_bounds(preview: EvalBatchPreviewV1) -> Seq<char> {
    "Project "@ + preview.project_id@ + " · bounded to "@ + text::decimal(
        preview.maximum_candidate_count as nat,
    ) + " candidates · selection "@ + render::shortened_hash(preview.selection_hash@)
}

/// How many examples of the preview have no draft yet.
pub open spec fn draft_count(eval: EvalBatch) -> nat {
    match eval.preview {
        Some(preview) => proposed_of(preview.items@).len(),
        None => 0,
    }
}

/// How many examples are previewed.
pub open spec fn previewed_items(eval: EvalBatch) -> nat {
    match eval.preview {
        Some(preview) => preview.items@.len(),
        None => 0,
    }
}

/// What the button that creates the drafts says.
pub open spec fn draft_label(eval: EvalBatch) -> Seq<char> {
    if eval.loading {
        "Creating…"@
    } else if draft_count(eval) == 0 {
        "No new draft evals"@
    } else {
        "Create "@ + text::decimal(draft_count(eval)) + " draft evals"@
    }
}

/// Whether a job is at work.
pub open spec fn job_running(eval: EvalBatch) -> bool {
    match eval.job {
        Some(job) => job.status.running(),
        None => false,
    }
}

/// What the foot of a preview offers to do.
pub open spec fn offers(action: BatchAction, eval: EvalBatch) -> bool {
    match action {
        BatchAction::Generating => job_running(eval),
        BatchAction::Retry => match eval.job {
            Some(job) => !job.status.running() && job.status.retryable(),
            None => false,
        },
        BatchAction::OpenReview => match eval.job {
            Some(job) => !job.status.running() && !job.status.retryable(),
            None => false,
        },
        BatchAction::Create { label, hint, enabled } => {
            &&& eval.job is None
            &&& label@ == draft_label(eval)
            &&& hint@ == (if eval.loading {
                "Creating eval candidates"@
            } else {
                "Create draft evals for review; this does not activate a grader"@
            })
            &&& enabled == (!eval.loading && draft_count(eval) > 0)
        },
    }
}

fn count_drafts(items: &Vec<EvalBatchItem>) -> (count: usize)
    ensures
        count == proposed_of(items@).len(),
{
    let ghost fresh = |item: EvalBatchItem| !item.already_exists;
    let mut count: usize = 0;
    let mut index: usize = 0;
    proof {
        reveal(Seq::filter);
        assert(items@.take(0) =~= Seq::empty());
    }
    while index < items.len()
        invariant
            index <= items@.len(),
            fresh == (|item: EvalBatchItem| !item.already_exists),
            count <= index,
            count == items@.take(index as int).filter(fresh).len(),
        decreases items@.len() - index,
    {
        proof {
            keyed::lemma_filter_take(items@, index as int, fresh);
        }
        if !items[index].already_exists {
            count += 1;
        }
        index += 1;
    }
    assert(items@.take(index as int) =~= items@);
    count
}

impl FailureInbox {
    fn batch_action(&self) -> (action: BatchAction)
        ensures
            offers(action, self.eval),
    {
        if let Some(job) = &self.eval.job {
            return if job.status.is_running() {
                BatchAction::Generating
            } else if job.status.is_retryable() {
                BatchAction::Retry
            } else {
                BatchAction::OpenReview
            };
        }
        let drafts = match &self.eval.preview {
            Some(preview) => count_drafts(&preview.items),
            None => 0,
        };
        let label = if self.eval.loading {
            "Creating…".to_owned()
        } else if drafts == 0 {
            "No new draft evals".to_owned()
        } else {
            concat3("Create ", length_text(drafts).as_str(), " draft evals")
        };
        BatchAction::Create {
            label,
            hint: if self.eval.loading {
                "Creating eval candidates"
            } else {
                "Create draft evals for review; this does not activate a grader"
            },
            enabled: !self.eval.loading && drafts > 0,
        }
    }

    fn batch_groups(&self, preview: &EvalBatchPreviewV1) -> (views: Vec<BatchGroupView>)
        ensures
            views@.len() == preview.group_ids@.len(),
            forall|i: int|
                0 <= i < views@.len() ==> shows_batch_group(
                    #[trigger] views@[i],
                    *self,
                    *preview,
                    preview.group_ids@[i]@,
                ),
    {
        let mut views: Vec<BatchGroupView> = Vec::new();
        let mut index: usize = 0;
        while index < preview.group_ids.len()
            invariant
                index <= preview.group_ids@.len(),
                views@.len() == index,
                forall|i: int|
                    0 <= i < views@.len() ==> shows_batch_group(
                        #[trigger] views@[i],
                        *self,
                        *preview,
                        preview.group_ids@[i]@,
                    ),
            decreases preview.group_ids@.len() - index,
        {
            views.push(self.batch_group_view(preview, &preview.group_ids[index]));
            index += 1;
        }
        views
    }

    /// What is shown of the preview of draft evals.
    pub fn render_eval_batch_preview(&self) -> (view: EvalBatchView)
        ensures
            match (self.eval.preview, view.heading) {
                (Some(preview), Some(heading)) => {
                    &&& heading.0@ == preview_intro(preview)
                    &&& heading.1@ == preview_bounds(preview)
                    &&& view.groups@.len() == preview.group_ids@.len()
                    &&& forall|i: int|
                        0 <= i < view.groups@.len() ==> shows_batch_group(
                            #[trigger] view.groups@[i],
                            *self,
                            preview,
                            preview.group_ids@[i]@,
                        )
                },
                (None, None) => view.groups@.len() == 0,
                _ => false,
            },
            match (self.eval.job, view.job) {
                (Some(job), Some(shown)) => {
                    &&& shown.0@ == "Generation "@ + job.status.name()
                    &&& shown.1@ == text::decimal(job.outcome_count as nat) + " of "@
                        + text::decimal(previewed_items(self.eval))
                        + " representatives completed. Candidates remain unreviewed until you explicitly review them."@
                },
                (None, None) => true,
                _ => false,
            },
            view.close@ == (if job_running(self.eval) {
                "Cancel generation"@
            } else {
                "Close"@
            }),
            view.close_label@ == (if job_running(self.eval) {
                "Cancel eval candidate generation"@
            } else {
                "Close eval batch preview"@
            }),
            offers(view.action, self.eval),
    {
        let (heading, groups) = match &self.eval.preview {
            Some(preview) => {
                let mut intro = length_text(preview.items.len());
                intro.append(" representative examples from ");
                intro.append(length_text(preview.group_ids.len()).as_str());
                intro.append(
                    " failure groups. New definitions enter review; this does not activate or schedule a grader.",
                );
                let mut bounds = concat3("Project ", preview.project_id.as_str(), " · bounded to ");
                append_decimal(&mut bounds, preview.maximum_candidate_count);
                bounds.append(" candidates · selection ");
                bounds.append(short_hash(preview.selection_hash.as_str()));
                (Some((intro, bounds)), self.batch_groups(preview))
            },
            None => (None, Vec::new()),
        };
        let total = match &self.eval.preview {
            Some(preview) => preview.items.len(),
            None => 0,
        };
        let job = match &self.eval.job {
            Some(job) => {
                let mut progress = length_text(job.outcome_count);
                progress.append(" of ");
                progress.append(length_text(total).as_str());
                progress.append(
                    " representatives completed. Candidates remain unreviewed until you explicitly review them.",
                );
                Some((concat2("Generation ", job.status.label()), progress))
            },
            None => None,
        };
        let running = match &self.eval.job {
            Some(job) => job.status.is_running(),
            None => false,
        };
        EvalBatchView {
            heading,
            groups,
            job,
            close: if running {
                "Cancel generation"
            } else {
                "Close"
            },
            close_label: if running {
                "Cancel eval candidate generation"
            } else {
                "Close eval batch preview"
            },
            action: self.batch_action(),
        }
    }
}

/// Every example of a group either has a draft or is proposed.
pub proof fn examples_are_proposed_or_exist(items: Seq<EvalBatchItem>)
    ensures
        proposed_of(items).len() + items.filter(|item: EvalBatchItem| item.already_exists).len()
            == items.len(),
    decreases items.len(),
{
    reveal(Seq::filter);
    if items.len() > 0 {
        examples_are_proposed_or_exist(items.drop_last());
    }
}

/// Each reason for which an example was chosen is named.
pub proof fn reasons_are_named()
    ensures
        reason_text(EvalSelectionReasonV1::CanonicalMember) == "Canonical example"@,
        reason_text(EvalSelectionReasonV1::NewestUnrecovered) == "Newest unresolved example"@,
        reason_text(EvalSelectionReasonV1::RecoveredExample) == "Recovered example"@,
        reason_text(EvalSelectionReasonV1::DistinctAgentBuild) == "Distinct agent build"@,
        reason_text(EvalSelectionReasonV1::DistinctExecutionShape)
            == "Distinct execution shape"@,
{
}

/// Whether there is one more of something.
pub open spec fn one_if(holds: bool) -> nat {
    if holds {
        1
    } else {
        0
    }
}

/// One example more counts for its own group alone: as an example, as proposed
/// unless it exists, with a caveat where telemetry is missing, and with its
/// evidence.
pub proof fn examples_count_for_their_group(
    items: Seq<EvalBatchItem>,
    item: EvalBatchItem,
    group_id: Seq<char>,
)
    ensures
        items_of(Seq::empty(), group_id).len() == 0,
        ({
            let before = items_of(items, group_id);
            let after = items_of(items.push(item), group_id);
            let belongs = item.group_id@ == group_id;
            &&& !belongs ==> after == before
            &&& belongs ==> after == before.push(item)
            &&& proposed_of(after).len() == proposed_of(before).len() + one_if(
                belongs && !item.already_exists,
            )
            &&& with_gaps(after).len() == with_gaps(before).len() + one_if(
                belongs && item.telemetry_gaps@.len() > 0,
            )
            &&& evidence_sum(after) == evidence_sum(before) + (if belongs {
                item.evidence_count as nat
            } else {
                0
            })
        }),
        evidence_sum(Seq::empty()) == 0,
        proposed_of(Seq::empty()).len() == 0,
        with_gaps(Seq::empty()).len() == 0,
{
    reveal(Seq::filter);
    assert(items.push(item).drop_last() =~= items);
    let before = items_of(items, group_id);
    assert(before.push(item).drop_last() =~= before);
}

/// One exclusion more counts for its own group alone.
pub proof fn exclusions_count_for_their_group(
    exclusions: Seq<EvalBatchExclusion>,
    exclusion: EvalBatchExclusion,
    group_id: Seq<char>,
)
    ensures
        exclusions_of(Seq::empty(), group_id).len() == 0,
        exclusion.group_id@ == group_id ==> exclusions_of(exclusions.push(exclusion), group_id)
            == exclusions_of(exclusions, group_id).push(exclusion),
        exclusion.group_id@ != group_id ==> exclusions_of(exclusions.push(exclusion), group_id)
            == exclusions_of(exclusions, group_id),
{
    reveal(Seq::filter);
    assert(exclusions.push(exclusion).drop_last() =~= exclusions);
}

/// The builds and sessions of examples are those that some example names.
pub proof fn builds_and_sessions_are_those_named(items: Seq<EvalBatchItem>, name: Seq<char>)
    ensures
        builds_of(items).contains(name) <==> exists|i: int|
            0 <= i < items.len() && (#[trigger] items[i]).build_id is Some && items[i].build_id->0@
                == name,
        sessions_of(items).contains(name) <==> exists|i: int|
            0 <= i < items.len() && (#[trigger] items[i]).session_id is Some
                && items[i].session_id->0@ == name,
{
    if builds_of(items).contains(name) {
        let i = choose|i: int|
            0 <= i < items.len() && optional_text((#[trigger] items[i]).build_id) == Some(name);
        assert(items[i].build_id is Some);
    }
    if sessions_of(items).contains(name) {
        let i = choose|i: int|
            0 <= i < items.len() && optional_text((#[trigger] items[i]).session_id) == Some(name);
        assert(items[i].session_id is Some);
    }
}

/// A group's counts are those of its own examples and exclusions, and it is
/// labelled with them.
pub proof fn group_labels_hold_the_counts(
    counts: GroupCounts,
    preview: EvalBatchPreviewV1,
    group_id: Seq<char>,
    title: Seq<char>,
)
    requires
        counts_group(counts, preview, group_id),
    ensures
        counts.items == items_of(preview.items@, group_id).len(),
        counts.proposed == proposed_of(items_of(preview.items@, group_id)).len(),
        counts.evidence == evidence_sum(items_of(preview.items@, group_id)),
        counts.caveats == with_gaps(items_of(preview.items@, group_id)).len(),
        counts.builds == builds_of(items_of(preview.items@, group_id)).len(),
        counts.sessions == sessions_of(items_of(preview.items@, group_id)).len(),
        counts.excluded == exclusions_of(preview.exclusions@, group_id).len(),
        batch_group_label(title, counts) == title + "; "@ + text::decimal(counts.items as nat)
            + " representative examples; "@ + text::decimal(counts.proposed as nat)
            + " proposed; "@ + text::decimal((counts.items - counts.proposed) as nat)
            + " already exist; "@ + text::decimal(counts.excluded as nat) + " excluded"@,
{
}

/// A summary counts examples, evidence, builds and sessions; unnamed builds and
/// sessions count as one, and one alone is singular.
pub proof fn summaries_count_builds_and_sessions(counts: GroupCounts)
    ensures
        counts.builds == 1 && counts.sessions == 1 ==> group_summary(counts) == text::decimal(
            counts.items as nat,
        ) + " representatives · "@ + text::decimal(counts.evidence as nat) + " evidence refs · "@
            + text::decimal(1) + " build"@ + " · "@ + text::decimal(1) + " session"@,
        counts.builds > 1 && counts.sessions > 1 ==> group_summary(counts) == text::decimal(
            counts.items as nat,
        ) + " representatives · "@ + text::decimal(counts.evidence as nat) + " evidence refs · "@
            + text::decimal(counts.builds as nat) + " build"@ + "s"@ + " · "@ + text::decimal(
            counts.sessions as nat,
        ) + " session"@ + "s"@,
        counts.builds == 0 && counts.sessions == 0 ==> group_summary(counts) == text::decimal(
            counts.items as nat,
        ) + " representatives · "@ + text::decimal(counts.evidence as nat) + " evidence refs · "@
            + text::decimal(1) + " build"@ + "s"@ + " · "@ + text::decimal(1) + " session"@ + "s"@,
        plural(1).len() == 0,
        forall|count: nat| count != 1 ==> #[trigger] plural(count) == "s"@,
{
    reveal_strlit("");
    let head = text::decimal(counts.items as nat) + " representatives · "@ + text::decimal(
        counts.evidence as nat,
    ) + " evidence refs · "@ + text::decimal(1) + " build"@;
    assert(head + ""@ =~= head);
    let whole = head + " · "@ + text::decimal(1) + " session"@;
    assert(whole + ""@ =~= whole);
}

/// Badges show what is proposed, and what exists, is excluded or needs a look
/// at its telemetry where there is any.
pub proof fn badges_show_what_there_is(view: BatchGroupView, counts: GroupCounts)
    requires
        shows_badges(view, counts),
        counts.proposed <= counts.items,
    ensures
        view.proposed@ == text::decimal(counts.proposed as nat) + " PROPOSED"@,
        view.existing is Some <==> counts.proposed < counts.items,
        view.existing is Some ==> view.existing->0@ == text::decimal(
            (counts.items - counts.proposed) as nat,
        ) + " EXISTING"@,
        view.excluded is Some <==> counts.excluded > 0,
        view.excluded is Some ==> view.excluded->0@ == text::decimal(counts.excluded as nat)
            + " EXCLUDED"@,
        view.caveat is Some <==> counts.caveats > 0,
        counts.caveats > 1 ==> view.caveat->0@ == text::decimal(counts.caveats as nat)
            + " representative"@ + "s"@ + " need telemetry review"@,
{
}

/// A group shows its examples and exclusions only where it is expanded, each
/// exclusion with its reason.
pub proof fn expanded_groups_show_their_examples(
    view: BatchGroupView,
    inbox: FailureInbox,
    preview: EvalBatchPreviewV1,
    group_id: Seq<char>,
)
    requires
        shows_batch_group(view, inbox, preview, group_id),
    ensures
        view.expanded <==> inbox.eval.expanded_group_ids@.contains(group_id),
        view.expanded ==> view.glyph@ == "▾"@ && view.items@.len() == items_of(
            preview.items@,
            group_id,
        ).len() && view.exclusions@.len() == exclusions_of(preview.exclusions@, group_id).len(),
        !view.expanded ==> view.glyph@ == "▸"@ && view.items@.len() == 0 && view.exclusions@.len()
            == 0,
        forall|i: int|
            0 <= i < view.exclusions@.len() ==> (#[trigger] view.exclusions@[i])@ == "Excluded: "@
                + exclusions_of(preview.exclusions@, group_id)[i].reason@,
        view.group_id@ == group_id,
        view.title@ == batch_title(inbox.list.groups@, group_id),
{
}

/// A group is titled by its presentation in the list, and else by a short form
/// of its identity.
pub proof fn groups_are_titled_by_their_presentation(
    groups: Seq<FailureGroupSummary>,
    group_id: Seq<char>,
    place: int,
)
    requires
        0 <= place < groups.len(),
        groups[place].group_id@ == group_id,
        forall|i: int| 0 <= i < place ==> (#[trigger] groups[i]).group_id@ != group_id,
    ensures
        groups[place].presentation is Some ==> batch_title(groups, group_id)
            == groups[place].presentation->0.title@,
        groups[place].presentation is None ==> batch_title(groups, group_id) == "Failure group "@
            + render::shortened_hash(group_id),
    decreases groups.len(),
{
    if place > 0 {
        assert(groups[0].group_id@ != group_id);
        let rest = groups.drop_first();
        assert forall|i: int| 0 <= i < place - 1 implies (#[trigger] rest[i]).group_id@
            != group_id by {
            assert(rest[i] == groups[i + 1]);
        }
        assert(rest[place - 1] == groups[place]);
        groups_are_titled_by_their_presentation(rest, group_id, place - 1);
    }
}

/// An example shows why it was chosen, where it comes from and what is
/// proposed.
pub proof fn examples_show_why_they_were_chosen(view: BatchItemView, item: EvalBatchItem)
    requires
        shows_item(view, item),
    ensures
        view.reason@ == reason_text(item.selection_reason),
        view.already_exists == item.already_exists,
        view.rubric@ == item.proposed_rubric@,
        view.telemetry is Some <==> item.telemetry_gaps@.len() > 0,
        item.run_title is Some && item.build_id is Some && item.session_id is Some ==> view.source@
            == item.run_title->0@ + " · build "@ + item.build_id->0@ + " · session "@
            + item.session_id->0@ + " · revision "@ + text::decimal(item.revision as nat) + " · "@
            + item.recovery.name(),
        item.run_title is None && item.build_id is None && item.session_id is None ==> view.source@
            == "Unnamed run"@ + " · build "@ + "unknown"@ + " · session "@ + "unknown"@
            + " · revision "@ + text::decimal(item.revision as nat) + " · "@
            + item.recovery.name(),
{
}

/// Drafts can be created for the examples that do not exist yet, while nothing
/// is at work; a job that runs can only be waited for, one that failed or was
/// stopped can be tried again, and one that is complete leads to the review.
pub proof fn batches_offer_the_next_step(action: BatchAction, eval: EvalBatch)
    requires
        offers(action, eval),
    ensures
        action is Generating <==> eval.job is Some && (eval.job->0.status
            == super::eval_generation::CandidateGenerationJobStatusV1::Queued || eval.job->0.status
            == super::eval_generation::CandidateGenerationJobStatusV1::Running),
        action is Retry <==> eval.job is Some && (eval.job->0.status
            == super::eval_generation::CandidateGenerationJobStatusV1::Failed || eval.job->0.status
            == super::eval_generation::CandidateGenerationJobStatusV1::PartialSuccess || eval.job->0.status
            == super::eval_generation::CandidateGenerationJobStatusV1::Cancelled),
        action is OpenReview <==> eval.job is Some && eval.job->0.status
            == super::eval_generation::CandidateGenerationJobStatusV1::Completed,
        action is Create <==> eval.job is None,
        action is Create ==> {
            &&& action->enabled <==> !eval.loading && eval.preview is Some && proposed_of(
                eval.preview->0.items@,
            ).len() > 0
            &&& eval.loading ==> action->label@ == "Creating…"@ && action->hint@
                == "Creating eval candidates"@
            &&& !eval.loading && (eval.preview is None || proposed_of(
                eval.preview->0.items@,
            ).len() == 0) ==> action->label@ == "No new draft evals"@
            &&& action->enabled ==> action->label@ == "Create "@ + text::decimal(
                proposed_of(eval.preview->0.items@).len(),
            ) + " draft evals"@
        },
{
}

/// The preview says how many examples of how many groups it holds, and within
/// what bounds.
pub proof fn previews_say_their_bounds(preview: EvalBatchPreviewV1)
    ensures
        preview_intro(preview) == text::decimal(preview.items@.len())
            + " representative examples from "@ + text::decimal(preview.group_ids@.len())
            + " failure groups. New definitions enter review; this does not activate or schedule a grader."@,
        preview_bounds(preview) == "Project "@ + preview.project_id@ + " · bounded to "@
            + text::decimal(preview.maximum_candidate_count as nat) + " candidates · selection "@
            + render::shortened_hash(preview.selection_hash@),
{
}

/// An example's telemetry is summarised, and creating drafts says that nothing
/// is activated by it.
pub proof fn drafts_activate_nothing(view: BatchItemView, item: EvalBatchItem, action: BatchAction, eval: EvalBatch)
    requires
        shows_item(view, item),
        offers(action, eval),
    ensures
        view.telemetry is Some ==> view.telemetry->0@ == "Telemetry: "@
            + telemetry_gaps::gap_summary(item.telemetry_gaps@),
        action is Create && !eval.loading ==> action->hint@
            == "Create draft evals for review; this does not activate a grader"@,
        eval.preview is None ==> previewed_items(eval) == 0 && draft_count(eval) == 0,
        eval.preview is Some ==> previewed_items(eval) == eval.preview->0.items@.len(),
{
}

} // verus!
