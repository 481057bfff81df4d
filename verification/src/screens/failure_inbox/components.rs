//! Labels and tints of the parts that make up the failure inbox.

use super::model::{
    AttributeValue, FailureRecurrenceBucketV1, FailureRecurrenceSeriesV1, FindingSeverity, SpanRow,
};
use crate::binary64::{self, percent_change_of, Binary64};
use crate::design::{ExecutionRole, Theme};
use crate::text::{
    self, append_decimal, concat2, concat3, contains_part, decimal_text, join, lowercase_text,
    one_decimal_text, same_text, split_text, uppercase_char, uppercase_text,
};
use vstd::prelude::*;
use vstd::string::*;

verus! {

/// A word with its first character replaced by `upper`; an empty word stays.
pub open spec fn capitalized(word: Seq<char>, upper: Seq<char>) -> Seq<char> {
    if word.len() == 0 {
        word
    } else {
        upper + word.drop_first()
    }
}

/// The words of an identifier, each capitalized, with spaces between them.
pub open spec fn humanized_with(
    value: Seq<char>,
    upper: spec_fn(char) -> Seq<char>,
) -> Seq<char> {
    text::joined(
        text::split_at_char(value, '_').map_values(
            |word: Seq<char>| capitalized(word, upper(word[0])),
        ),
        " "@,
    )
}

/// The uppercase form of each character.
pub open spec fn uppercase() -> spec_fn(char) -> Seq<char> {
    |character: char| text::uppercase_of(character)
}

/// The words of an identifier, each capitalized, with spaces between them.
pub open spec fn humanized(value: Seq<char>) -> Seq<char> {
    humanized_with(value, uppercase())
}

/// A word with its first character replaced by `upper`; an empty word stays.
pub fn capitalize(word: &str, upper: &str) -> (out: String)
    ensures
        out@ == capitalized(word@, upper@),
{
    let count = word.unicode_len();
    if count == 0 {
        assert(word@ =~= Seq::empty());
        return String::new();
    }
    let rest = word.substring_char(1, count);
    assert(rest@ =~= word@.drop_first());
    concat2(upper, rest)
}

/// The words of an identifier, each capitalized, with spaces between them.
pub fn humanize(value: &str) -> (label: String)
    ensures
        label@ == humanized(value@),
{
    let words = split_text(value, '_');
    let ghost wanted = text::split_at_char(value@, '_').map_values(
        |word: Seq<char>| capitalized(word, uppercase()(word[0])),
    );
    let mut parts: Vec<String> = Vec::new();
    let mut index: usize = 0;
    while index < words.len()
        invariant
            index <= words@.len(),
            text::texts(words@) == text::split_at_char(value@, '_'),
            wanted == text::split_at_char(value@, '_').map_values(
                |word: Seq<char>| capitalized(word, uppercase()(word[0])),
            ),
            text::texts(parts@) == wanted.take(index as int),
        decreases words@.len() - index,
    {
        let word = words[index].as_str();
        let upper = if word.is_empty() {
            String::new()
        } else {
            uppercase_char(word.get_char(0))
        };
        let part = capitalize(word, upper.as_str());
        let ghost before = text::texts(parts@);
        proof {
            assert(text::texts(words@)[index as int] == word@);
            assert(part@ == wanted[index as int]);
        }
        parts.push(part);
        index += 1;
        proof {
            assert(text::texts(parts@) =~= before.push(part@));
            assert(wanted.take(index as int) =~= wanted.take(index - 1).push(wanted[index - 1]));
        }
    }
    assert(wanted.take(index as int) =~= wanted);
    join(&parts, " ")
}

/// A heading with a text below it.
#[derive(Debug)]
pub struct LabelledText {
    pub heading: String,
    pub value: String,
    pub tint: u32,
}

/// The content of a heading with a text below it.
pub struct FactContent {
    pub heading: Seq<char>,
    pub value: Seq<char>,
    pub tint: u32,
}

impl View for LabelledText {
    type V = FactContent;

    open spec fn view(&self) -> FactContent {
        FactContent { heading: self.heading@, value: self.value@, tint: self.tint }
    }
}

/// A text under a label, which stands in capitals.
pub open spec fn fact(label: Seq<char>, value: Seq<char>, tint: u32) -> FactContent {
    FactContent { heading: text::uppercase_text_of(label), value, tint }
}

/// The contents of a list of labelled texts.
pub open spec fn facts(list: Seq<LabelledText>) -> Seq<FactContent> {
    list.map_values(|item: LabelledText| item@)
}

/// A detail in a list of details.
pub fn kv(label: &str, value: &str) -> (detail: LabelledText)
    ensures
        detail@ == fact(label@, value@, Theme::DIM),
{
    LabelledText {
        heading: uppercase_text(label),
        value: value.to_owned(),
        tint: Theme::DIM,
    }
}

/// A fact of a diagnosis.
pub fn diagnosis_fact(label: &str, value: &str, tint: u32) -> (fact: LabelledText)
    ensures
        fact@ == self::fact(label@, value@, tint),
{
    LabelledText { heading: uppercase_text(label), value: value.to_owned(), tint }
}

/// The heading of a section of options.
pub fn filter_section(label: &str) -> (heading: String)
    ensures
        heading@ == text::uppercase_text_of(label@),
{
    uppercase_text(label)
}

/// The colour of a severity.
pub open spec fn severity_tint(severity: FindingSeverity) -> u32 {
    match severity {
        FindingSeverity::Critical | FindingSeverity::High => Theme::RED,
        FindingSeverity::Medium => Theme::AMBER,
        FindingSeverity::Low => Theme::CYAN,
        FindingSeverity::Info => Theme::MUTED,
    }
}

/// The colour of a severity.
pub fn severity_color(severity: FindingSeverity) -> (color: u32)
    ensures
        color == severity_tint(severity),
{
    match severity {
        FindingSeverity::Critical | FindingSeverity::High => Theme::RED,
        FindingSeverity::Medium => Theme::AMBER,
        FindingSeverity::Low => Theme::CYAN,
        FindingSeverity::Info => Theme::MUTED,
    }
}

/// The sum of counts.
pub open spec fn sum(values: Seq<u64>) -> nat
    decreases values.len(),
{
    if values.len() == 0 {
        0
    } else {
        sum(values.drop_last()) + values.last() as nat
    }
}

proof fn lemma_sum_concat(left: Seq<u64>, right: Seq<u64>)
    ensures
        sum(left + right) == sum(left) + sum(right),
    decreases right.len(),
{
    if right.len() == 0 {
        assert(left + right =~= left);
    } else {
        assert((left + right).drop_last() =~= left + right.drop_last());
        lemma_sum_concat(left, right.drop_last());
    }
}

/// A part of counts sums up to no more than the whole.
proof fn lemma_sum_part(values: Seq<u64>, from: int, to: int)
    requires
        0 <= from <= to <= values.len(),
    ensures
        sum(values.subrange(from, to)) <= sum(values),
{
    let head = values.take(from);
    let part = values.subrange(from, to);
    let tail = values.skip(to);
    assert(values =~= head + part + tail);
    lemma_sum_concat(head, part);
    lemma_sum_concat(head + part, tail);
}

fn sum_of(values: &[u64], from: usize, to: usize) -> (total: u64)
    requires
        from <= to <= values@.len(),
        sum(values@) <= u64::MAX,
    ensures
        total == sum(values@.subrange(from as int, to as int)),
{
    let mut total: u64 = 0;
    let mut index: usize = from;
    assert(values@.subrange(from as int, from as int) =~= Seq::empty());
    while index < to
        invariant
            from <= index <= to <= values@.len(),
            sum(values@) <= u64::MAX,
            total == sum(values@.subrange(from as int, index as int)),
        decreases to - index,
    {
        proof {
            let now = values@.subrange(from as int, index + 1);
            assert(now.drop_last() =~= values@.subrange(from as int, index as int));
            assert(now.last() == values@[index as int]);
            lemma_sum_part(values@, from as int, index + 1);
        }
        total = total + values[index];
        index += 1;
    }
    total
}

/// Whether two neighbours differ.
pub open spec fn varies<A>(values: Seq<A>) -> bool {
    exists|i: int| 0 <= i < values.len() - 1 && #[trigger] differs_at(values, i)
}

/// Whether an element differs from the next one.
pub open spec fn differs_at<A>(values: Seq<A>, place: int) -> bool {
    values[place] != values[place + 1]
}

/// The label and the tint of a change in percent.
pub open spec fn change_label(change: int, intermittent: bool) -> (Seq<char>, u32) {
    if change > 0 {
        ("+"@ + text::decimal(change as nat) + "%"@, Theme::RED)
    } else if change < 0 {
        ("-"@ + text::decimal((-change) as nat) + "%"@, Theme::GREEN)
    } else if intermittent {
        ("Intermittent"@, Theme::AMBER)
    } else {
        ("Flat"@, Theme::DIM)
    }
}

/// The label and the tint of a change in percent.
pub fn change_label_of(change: i64, intermittent: bool) -> (label: (String, u32))
    ensures
        (label.0@, label.1) == change_label(change as int, intermittent),
{
    if change > 0 {
        let digits = decimal_text(change as u64);
        (concat3("+", digits.as_str(), "%"), Theme::RED)
    } else if change < 0 {
        let size: u64 = if change == i64::MIN {
            0x8000_0000_0000_0000
        } else {
            (-change) as u64
        };
        let digits = decimal_text(size);
        (concat3("-", digits.as_str(), "%"), Theme::GREEN)
    } else if intermittent {
        ("Intermittent".to_owned(), Theme::AMBER)
    } else {
        ("Flat".to_owned(), Theme::DIM)
    }
}

/// How the later half of a series of counts compares with the earlier half.
pub open spec fn trend(values: Seq<u64>) -> (Seq<char>, u32) {
    let width = values.len() / 2;
    let earlier = sum(values.take(width as int));
    let later = sum(values.skip(values.len() - width));
    if values.len() < 2 || sum(values) <= 1 || earlier == 0 {
        ("New"@, Theme::CYAN)
    } else {
        change_label(
            binary64::percent_change(binary64::of_integer(earlier), binary64::of_integer(later)),
            varies(values),
        )
    }
}

/// How the later half of a series of counts compares with the earlier half.
pub fn trend_summary(values: &[u64]) -> (summary: (String, u32))
    requires
        sum(values@) <= u64::MAX,
    ensures
        (summary.0@, summary.1) == trend(values@),
{
    let count = values.len();
    assert(values@.subrange(0, count as int) =~= values@);
    if count < 2 || sum_of(values, 0, count) <= 1 {
        return ("New".to_owned(), Theme::CYAN);
    }
    let width: usize = count / 2;
    let earlier = sum_of(values, 0, width);
    let later = sum_of(values, count - width, count);
    proof {
        assert(values@.subrange(0, width as int) =~= values@.take(width as int));
        assert(values@.subrange(count - width, count as int) =~= values@.skip(count - width));
    }
    if earlier == 0 {
        return ("New".to_owned(), Theme::CYAN);
    }
    let change = percent_change_of(Binary64::of_integer(earlier), Binary64::of_integer(later));
    let mut index: usize = 0;
    let mut intermittent = false;
    while index + 1 < count
        invariant
            count == values@.len(),
            count >= 2,
            index < count,
            intermittent == (exists|i: int| 0 <= i < index && #[trigger] differs_at(values@, i)),
        decreases count - index,
    {
        assert(differs_at(values@, index as int) == (values@[index as int] != values@[index + 1]));
        if values[index] != values[index + 1] {
            intermittent = true;
        }
        index += 1;
    }
    change_label_of(change, intermittent)
}

/// Which count of a bucket is meant.
pub enum BucketCount {
    Affected,
    Eligible,
    Findings,
}

/// A count of a bucket.
pub open spec fn bucket_count(bucket: FailureRecurrenceBucketV1, which: BucketCount) -> u64 {
    match which {
        BucketCount::Affected => bucket.affected_run_count,
        BucketCount::Eligible => bucket.eligible_run_count,
        BucketCount::Findings => bucket.finding_count,
    }
}

/// A count of each bucket.
pub open spec fn counts(
    buckets: Seq<FailureRecurrenceBucketV1>,
    which: BucketCount,
) -> Seq<u64> {
    buckets.map_values(|bucket: FailureRecurrenceBucketV1| bucket_count(bucket, which))
}

/// A sum that stays at the largest 64-bit integer once it gets there.
pub open spec fn capped_sum(values: Seq<u64>) -> nat {
    if sum(values) > u64::MAX {
        u64::MAX as nat
    } else {
        sum(values)
    }
}

/// The affected and the eligible runs of the given buckets.
pub fn recurrence_totals(buckets: &[FailureRecurrenceBucketV1]) -> (totals: (u64, u64))
    ensures
        totals.0 == capped_sum(counts(buckets@, BucketCount::Affected)),
        totals.1 == capped_sum(counts(buckets@, BucketCount::Eligible)),
{
    let mut affected: u64 = 0;
    let mut eligible: u64 = 0;
    let mut index: usize = 0;
    let ghost all_affected = counts(buckets@, BucketCount::Affected);
    let ghost all_eligible = counts(buckets@, BucketCount::Eligible);
    assert(all_affected.take(0) =~= Seq::empty());
    assert(all_eligible.take(0) =~= Seq::empty());
    while index < buckets.len()
        invariant
            index <= buckets@.len(),
            all_affected == counts(buckets@, BucketCount::Affected),
            all_eligible == counts(buckets@, BucketCount::Eligible),
            affected == capped_sum(all_affected.take(index as int)),
            eligible == capped_sum(all_eligible.take(index as int)),
        decreases buckets@.len() - index,
    {
        proof {
            assert(all_affected.take(index + 1).drop_last() =~= all_affected.take(index as int));
            assert(all_eligible.take(index + 1).drop_last() =~= all_eligible.take(index as int));
        }
        affected = affected.saturating_add(buckets[index].affected_run_count);
        eligible = eligible.saturating_add(buckets[index].eligible_run_count);
        index += 1;
    }
    assert(all_affected.take(index as int) =~= all_affected);
    assert(all_eligible.take(index as int) =~= all_eligible);
    (affected, eligible)
}

/// The recurrence rates that are known, in order.
pub open spec fn known_rates(buckets: Seq<FailureRecurrenceBucketV1>) -> Seq<u16>
    decreases buckets.len(),
{
    if buckets.len() == 0 {
        Seq::empty()
    } else {
        let before = known_rates(buckets.drop_last());
        match buckets.last().recurrence_rate_basis_points {
            Some(rate) => before.push(rate),
            None => before,
        }
    }
}

/// How the recurrence rate of the later half compares with the earlier half.
pub open spec fn recurrence_trend(buckets: Seq<FailureRecurrenceBucketV1>) -> (Seq<char>, u32) {
    let width = buckets.len() / 2;
    let earlier = buckets.take(width as int);
    let later = buckets.skip(buckets.len() - width);
    let earlier_affected = capped_sum(counts(earlier, BucketCount::Affected));
    let earlier_eligible = capped_sum(counts(earlier, BucketCount::Eligible));
    let later_affected = capped_sum(counts(later, BucketCount::Affected));
    let later_eligible = capped_sum(counts(later, BucketCount::Eligible));
    if buckets.len() < 2 {
        ("New"@, Theme::CYAN)
    } else if later_eligible == 0 {
        ("No recent runs"@, Theme::DIM)
    } else if earlier_eligible == 0 {
        ("New"@, Theme::CYAN)
    } else if earlier_affected == 0 {
        if later_affected > 0 {
            ("New"@, Theme::RED)
        } else {
            ("Flat"@, Theme::DIM)
        }
    } else {
        change_label(
            binary64::percent_change(
                binary64::quotient(
                    binary64::of_integer(earlier_affected),
                    binary64::of_integer(earlier_eligible),
                ),
                binary64::quotient(
                    binary64::of_integer(later_affected),
                    binary64::of_integer(later_eligible),
                ),
            ),
            varies(known_rates(buckets)),
        )
    }
}

fn rates_vary(buckets: &Vec<FailureRecurrenceBucketV1>) -> (vary: bool)
    ensures
        vary == varies(known_rates(buckets@)),
{
    let mut rates: Vec<u16> = Vec::new();
    let mut index: usize = 0;
    while index < buckets.len()
        invariant
            index <= buckets@.len(),
            rates@ == known_rates(buckets@.take(index as int)),
        decreases buckets@.len() - index,
    {
        proof {
            assert(buckets@.take(index + 1).drop_last() =~= buckets@.take(index as int));
            assert(buckets@.take(index + 1).last() == buckets@[index as int]);
        }
        if let Some(rate) = buckets[index].recurrence_rate_basis_points {
            rates.push(rate);
        }
        index += 1;
    }
    assert(buckets@.take(index as int) =~= buckets@);
    let mut place: usize = 1;
    while place < rates.len()
        invariant
            1 <= place,
            place <= rates@.len() || rates@.len() == 0,
            rates@ == known_rates(buckets@),
            forall|i: int| 0 <= i < place - 1 ==> !#[trigger] differs_at(rates@, i),
        decreases rates@.len() - place,
    {
        assert(differs_at(rates@, place - 1) == (rates@[place - 1] != rates@[place as int]));
        if rates[place - 1] != rates[place] {
            return true;
        }
        place += 1;
    }
    false
}

/// How the recurrence rate of the later half compares with the earlier half.
pub fn recurrence_trend_summary(series: &FailureRecurrenceSeriesV1) -> (summary: (String, u32))
    ensures
        (summary.0@, summary.1) == recurrence_trend(series.buckets@),
{
    let count = series.buckets.len();
    if count < 2 {
        return ("New".to_owned(), Theme::CYAN);
    }
    let width: usize = count / 2;
    let all = series.buckets.as_slice();
    let (head, _) = all.split_at(width);
    let (_, tail) = all.split_at(count - width);
    proof {
        assert(head@ =~= series.buckets@.take(width as int));
        assert(tail@ =~= series.buckets@.skip(count - width));
    }
    let (earlier_affected, earlier_eligible) = recurrence_totals(head);
    let (later_affected, later_eligible) = recurrence_totals(tail);
    if later_eligible == 0 {
        return ("No recent runs".to_owned(), Theme::DIM);
    }
    if earlier_eligible == 0 {
        return ("New".to_owned(), Theme::CYAN);
    }
    if earlier_affected == 0 {
        return if later_affected > 0 {
            ("New".to_owned(), Theme::RED)
        } else {
            ("Flat".to_owned(), Theme::DIM)
        };
    }
    let earlier = Binary64::of_integer(earlier_affected).quotient(
        Binary64::of_integer(earlier_eligible),
    );
    let later = Binary64::of_integer(later_affected).quotient(Binary64::of_integer(later_eligible));
    let change = percent_change_of(earlier, later);
    change_label_of(change, rates_vary(&series.buckets))
}

/// A text attribute, where the attribute is a text.
pub open spec fn attribute(
    attributes: Seq<(String, AttributeValue)>,
    key: Seq<char>,
) -> Option<Seq<char>>
    decreases attributes.len(),
{
    if attributes.len() == 0 {
        None
    } else if attributes[0].0@ == key {
        match attributes[0].1 {
            AttributeValue::Text(value) => Some(value@),
            AttributeValue::Other => None,
        }
    } else {
        attribute(attributes.drop_first(), key)
    }
}

/// The first text attribute among several keys.
pub open spec fn first_attribute(
    attributes: Seq<(String, AttributeValue)>,
    keys: Seq<Seq<char>>,
) -> Option<Seq<char>>
    decreases keys.len(),
{
    if keys.len() == 0 {
        None
    } else {
        match attribute(attributes, keys[0]) {
            Some(value) => Some(value),
            None => first_attribute(attributes, keys.drop_first()),
        }
    }
}

fn attribute_of<'a>(attributes: &'a Vec<(String, AttributeValue)>, key: &str) -> (value: Option<
    &'a str,
>)
    ensures
        value is Some <==> attribute(attributes@, key@) is Some,
        value is Some ==> value->0@ == attribute(attributes@, key@)->0,
{
    let mut index: usize = 0;
    assert(attributes@.skip(0) =~= attributes@);
    while index < attributes.len()
        invariant
            index <= attributes@.len(),
            attribute(attributes@, key@) == attribute(attributes@.skip(index as int), key@),
        decreases attributes@.len() - index,
    {
        proof {
            assert(attributes@.skip(index as int)[0] == attributes@[index as int]);
            assert(attributes@.skip(index as int).drop_first() =~= attributes@.skip(index + 1));
        }
        if same_text(attributes[index].0.as_str(), key) {
            return match &attributes[index].1 {
                AttributeValue::Text(value) => Some(value.as_str()),
                AttributeValue::Other => None,
            };
        }
        index += 1;
    }
    None
}

fn first_attribute_of<'a>(
    attributes: &'a Vec<(String, AttributeValue)>,
    keys: &Vec<&'static str>,
) -> (value: Option<&'a str>)
    ensures
        ({
            let wanted = first_attribute(
                attributes@,
                keys@.map_values(|key: &'static str| key@),
            );
            &&& value is Some <==> wanted is Some
            &&& value is Some ==> value->0@ == wanted->0
        }),
{
    let mut index: usize = 0;
    let ghost all = keys@.map_values(|key: &'static str| key@);
    assert(all.skip(0) =~= all);
    while index < keys.len()
        invariant
            index <= keys@.len(),
            all == keys@.map_values(|key: &'static str| key@),
            first_attribute(attributes@, all) == first_attribute(
                attributes@,
                all.skip(index as int),
            ),
        decreases keys@.len() - index,
    {
        proof {
            assert(all.skip(index as int)[0] == keys@[index as int]@);
            assert(all.skip(index as int).drop_first() =~= all.skip(index + 1));
        }
        match attribute_of(attributes, keys[index]) {
            Some(value) => {
                return Some(value);
            },
            None => {},
        }
        index += 1;
    }
    None
}

/// The attributes that name the part a span plays, the most explicit first.
pub open spec fn role_keys() -> Seq<Seq<char>> {
    seq![
        "agent.role"@,
        "gen_ai.agent.role"@,
        "openinference.agent.role"@,
        "agent.name"@,
        "gen_ai.agent.name"@,
        "openinference.agent.name"@,
    ]
}

/// The attributes that name the operation of a span.
pub open spec fn operation_keys() -> Seq<Seq<char>> {
    seq![
        "gen_ai.operation.name"@,
        "agent.operation"@,
        "tool.operation"@,
        "operation.name"@,
    ]
}

/// The part that spans of a category play.
pub open spec fn category_role(category: Seq<char>) -> Seq<char> {
    if category == "llm"@ || category == "model"@ {
        "Model"@
    } else if category == "tool"@ {
        "Tool"@
    } else if category == "agent"@ {
        "Agent"@
    } else if category == "chain"@ {
        "Chain"@
    } else {
        humanized(category)
    }
}

/// The part a span plays, in words.
pub open spec fn span_role(span: SpanRow) -> Seq<char> {
    match first_attribute(span.attributes@, role_keys()) {
        Some(value) => humanized(value),
        None => category_role(span.category@),
    }
}

/// The operation of a span, in words.
pub open spec fn span_operation(span: SpanRow) -> Seq<char> {
    match first_attribute(span.attributes@, operation_keys()) {
        Some(value) => humanized(value),
        None => humanized(span.category@),
    }
}

/// The part a span plays, in words.
pub fn full_trace_role(span: &SpanRow) -> (role: String)
    ensures
        role@ == span_role(*span),
{
    let keys = vec![
        "agent.role",
        "gen_ai.agent.role",
        "openinference.agent.role",
        "agent.name",
        "gen_ai.agent.name",
        "openinference.agent.name",
    ];
    assert(keys@.map_values(|key: &'static str| key@) =~= role_keys());
    if let Some(value) = first_attribute_of(&span.attributes, &keys) {
        return humanize(value);
    }
    let category = span.category.as_str();
    if same_text(category, "llm") || same_text(category, "model") {
        "Model".to_owned()
    } else if same_text(category, "tool") {
        "Tool".to_owned()
    } else if same_text(category, "agent") {
        "Agent".to_owned()
    } else if same_text(category, "chain") {
        "Chain".to_owned()
    } else {
        humanize(category)
    }
}

/// The operation of a span, in words.
pub fn full_trace_operation(span: &SpanRow) -> (operation: String)
    ensures
        operation@ == span_operation(*span),
{
    let keys = vec![
        "gen_ai.operation.name",
        "agent.operation",
        "tool.operation",
        "operation.name",
    ];
    assert(keys@.map_values(|key: &'static str| key@) =~= operation_keys());
    if let Some(value) = first_attribute_of(&span.attributes, &keys) {
        return humanize(value);
    }
    humanize(span.category.as_str())
}

/// The execution role behind a role in lower case and a category.
pub open spec fn role_kind(role: Seq<char>, category: Seq<char>) -> ExecutionRole {
    if text::occurs_in(role, "planner"@) {
        ExecutionRole::Planner
    } else if text::occurs_in(role, "browser"@) {
        ExecutionRole::Browser
    } else if text::occurs_in(role, "verifier"@) || text::occurs_in(role, "verify"@) {
        ExecutionRole::Verifier
    } else if category == "llm"@ || category == "model"@ {
        ExecutionRole::Model
    } else {
        ExecutionRole::Tool
    }
}

/// The execution role behind a role in lower case and a category.
pub fn execution_role(role: &str, category: &str) -> (kind: ExecutionRole)
    ensures
        kind == role_kind(role@, category@),
{
    if contains_part(role, "planner") {
        ExecutionRole::Planner
    } else if contains_part(role, "browser") {
        ExecutionRole::Browser
    } else if contains_part(role, "verifier") || contains_part(role, "verify") {
        ExecutionRole::Verifier
    } else if same_text(category, "llm") || same_text(category, "model") {
        ExecutionRole::Model
    } else {
        ExecutionRole::Tool
    }
}

/// The execution role of a span.
pub open spec fn span_role_kind(span: SpanRow) -> ExecutionRole {
    role_kind(text::lowercase_of(span_role(span)), span.category@)
}

/// The execution role of a span.
pub fn execution_role_for_span(span: &SpanRow) -> (kind: ExecutionRole)
    ensures
        kind == span_role_kind(*span),
{
    let role = full_trace_role(span);
    let lowered = lowercase_text(role.as_str());
    execution_role(lowered.as_str(), span.category.as_str())
}

/// The status of a span, and its tint.
pub open spec fn status_label(status_code: i32) -> (Seq<char>, u32) {
    if status_code == 2 {
        ("Error"@, Theme::RED)
    } else if status_code == 1 {
        ("OK"@, Theme::GREEN)
    } else {
        ("Unset"@, Theme::DIM)
    }
}

/// The status of a span, and its tint.
pub fn span_status(span: &SpanRow) -> (status: (&'static str, u32))
    ensures
        (status.0@, status.1) == status_label(span.status_code),
{
    if span.status_code == 2 {
        ("Error", Theme::RED)
    } else if span.status_code == 1 {
        ("OK", Theme::GREEN)
    } else {
        ("Unset", Theme::DIM)
    }
}

/// A duration in milliseconds, in tenths.
pub open spec fn millisecond_tenths(duration_nano: u64) -> nat {
    binary64::to_parts(
        binary64::quotient(
            binary64::of_integer(duration_nano as nat),
            binary64::of_integer(1_000_000),
        ),
        10,
    )
}

/// A duration in milliseconds with one decimal place.
pub open spec fn milliseconds(duration_nano: u64) -> Seq<char> {
    text::one_decimal(millisecond_tenths(duration_nano))
}

/// A duration in milliseconds with one decimal place.
pub fn milliseconds_text(duration_nano: u64) -> (out: String)
    ensures
        out@ == milliseconds(duration_nano),
{
    let number = Binary64::of_integer(duration_nano).quotient(Binary64::of_integer(1_000_000));
    one_decimal_text(number.to_parts(10))
}

/// How a row of a trace is shown.
#[derive(Debug, Clone, Copy, PartialEq, Eq, Structural)]
pub struct FullTraceRowState {
    pub evidence: bool,
    pub search_match: bool,
    pub selected: bool,
    pub compact: bool,
}

impl FullTraceRowState {
    /// The state of a row.
    pub fn new(evidence: bool, search_match: bool, selected: bool, compact: bool) -> (state: Self)
        ensures
            state == (FullTraceRowState { evidence, search_match, selected, compact }),
    {
        FullTraceRowState { evidence, search_match, selected, compact }
    }
}

/// A row of the tree view.
#[derive(Debug)]
pub struct SpanRowView {
    pub surface: u32,
    pub disclosure_label: Option<String>,
    pub disclosure_glyph: &'static str,
    pub disclosure_tint: u32,
    pub role: String,
    pub role_kind: ExecutionRole,
    pub operation: String,
    pub status: &'static str,
    pub status_tint: u32,
    pub metadata_tint: u32,
    pub accessible_label: String,
    pub level: usize,
    pub duration_label: String,
}

/// The background of a row of the tree view.
pub open spec fn tree_surface(state: FullTraceRowState) -> u32 {
    if state.selected {
        Theme::SELECTED
    } else if state.evidence {
        Theme::WARNING_SURFACE
    } else if state.search_match {
        Theme::INFO_SURFACE
    } else {
        Theme::BG
    }
}

/// What a screen reader says of the children of a span.
pub open spec fn children_note(has_children: bool, expanded: bool) -> Seq<char> {
    if has_children {
        if expanded {
            "children expanded"@
        } else {
            "children collapsed"@
        }
    } else {
        "no children"@
    }
}

/// The suffix of a row that shows evidence.
pub open spec fn evidence_note(evidence: bool) -> Seq<char> {
    if evidence {
        "; evidence"@
    } else {
        ""@
    }
}

/// What a screen reader says of a row of the tree view.
pub open spec fn tree_row_label(
    span: SpanRow,
    state: FullTraceRowState,
    expanded: bool,
) -> Seq<char> {
    span.name@ + "; role "@ + span_role(span) + "; operation "@ + span_operation(span)
        + "; status "@ + status_label(span.status_code).0 + "; "@ + milliseconds(
        span.duration_nano,
    ) + " milliseconds; "@ + children_note(span.has_children, expanded) + evidence_note(
        state.evidence,
    )
}

fn children_note_of(has_children: bool, expanded: bool) -> (note: &'static str)
    ensures
        note@ == children_note(has_children, expanded),
{
    if has_children {
        if expanded {
            "children expanded"
        } else {
            "children collapsed"
        }
    } else {
        "no children"
    }
}

fn evidence_note_of(evidence: bool) -> (note: &'static str)
    ensures
        note@ == evidence_note(evidence),
{
    if evidence {
        "; evidence"
    } else {
        ""
    }
}

/// A span as a row of the tree view.
pub fn full_trace_span_row(
    span: &SpanRow,
    state: FullTraceRowState,
    expanded: bool,
) -> (view: SpanRowView)
    requires
        span.depth < usize::MAX,
    ensures
        view.surface == tree_surface(state),
        view.disclosure_label is Some <==> span.has_children,
        view.disclosure_label is Some ==> view.disclosure_label->0@ == (if expanded {
            "Collapse"@
        } else {
            "Expand"@
        }) + " children for "@ + span.name@,
        view.disclosure_glyph@ == (if !span.has_children {
            "·"@
        } else if expanded {
            "▾"@
        } else {
            "▸"@
        }),
        view.disclosure_tint == (if span.has_children {
            Theme::MUTED
        } else {
            Theme::BORDER
        }),
        view.role@ == span_role(*span),
        view.role_kind == span_role_kind(*span),
        view.operation@ == span_operation(*span),
        (view.status@, view.status_tint) == status_label(span.status_code),
        view.metadata_tint == (if state.selected || state.evidence {
            Theme::MUTED
        } else {
            Theme::DIM
        }),
        view.accessible_label@ == tree_row_label(*span, state, expanded),
        view.level == span.depth + 1,
        view.duration_label@ == milliseconds(span.duration_nano) + " ms"@ + (if span.has_children {
            " · children"@
        } else {
            ""@
        }),
{
    let role = full_trace_role(span);
    let operation = full_trace_operation(span);
    let (status, status_tint) = span_status(span);
    let duration = milliseconds_text(span.duration_nano);
    let mut accessible_label = span.name.clone();
    accessible_label.append("; role ");
    accessible_label.append(role.as_str());
    accessible_label.append("; operation ");
    accessible_label.append(operation.as_str());
    accessible_label.append("; status ");
    accessible_label.append(status);
    accessible_label.append("; ");
    accessible_label.append(duration.as_str());
    accessible_label.append(" milliseconds; ");
    accessible_label.append(children_note_of(span.has_children, expanded));
    accessible_label.append(evidence_note_of(state.evidence));
    let surface = if state.selected {
        Theme::SELECTED
    } else if state.evidence {
        Theme::WARNING_SURFACE
    } else if state.search_match {
        Theme::INFO_SURFACE
    } else {
        Theme::BG
    };
    let disclosure_label = if span.has_children {
        Some(
            concat3(
                if expanded {
                    "Collapse"
                } else {
                    "Expand"
                },
                " children for ",
                span.name.as_str(),
            ),
        )
    } else {
        None
    };
    let disclosure_glyph: &'static str = if !span.has_children {
        "·"
    } else if expanded {
        "▾"
    } else {
        "▸"
    };
    let duration_label = concat3(
        duration.as_str(),
        " ms",
        if span.has_children {
            " · children"
        } else {
            ""
        },
    );
    let role_kind = execution_role_for_span(span);
    SpanRowView {
        surface,
        disclosure_label,
        disclosure_glyph,
        disclosure_tint: if span.has_children {
            Theme::MUTED
        } else {
            Theme::BORDER
        },
        role,
        role_kind,
        operation,
        status,
        status_tint,
        metadata_tint: if state.selected || state.evidence {
            Theme::MUTED
        } else {
            Theme::DIM
        },
        accessible_label,
        level: span.depth as usize + 1,
        duration_label,
    }
}

/// A row of the timeline view. The bar starts at `bar_offset` of
/// `trace_duration` and spans `bar_duration` of it.
#[derive(Debug)]
pub struct TimelineRowView {
    pub surface: u32,
    pub role: String,
    pub role_kind: ExecutionRole,
    pub status: &'static str,
    pub status_tint: u32,
    pub metadata_tint: u32,
    pub bar_tint: u32,
    pub accessible_label: String,
    pub duration_label: String,
    pub bar_offset: u64,
    pub bar_duration: u64,
    pub trace_duration: u64,
}

/// What a screen reader says of a row of the timeline view.
pub open spec fn timeline_row_label(span: SpanRow, state: FullTraceRowState) -> Seq<char> {
    span.name@ + "; role "@ + span_role(span) + "; status "@ + status_label(span.status_code).0
        + "; "@ + milliseconds(span.duration_nano) + " milliseconds"@ + evidence_note(
        state.evidence,
    )
}

/// A span as a row of the timeline view.
pub fn full_trace_timeline_row(
    span: &SpanRow,
    state: FullTraceRowState,
    trace_start: u64,
    trace_duration: u64,
) -> (view: TimelineRowView)
    ensures
        view.surface == (if state.selected {
            Theme::SELECTED
        } else if state.search_match {
            Theme::INFO_SURFACE
        } else {
            Theme::BG
        }),
        view.role@ == span_role(*span),
        view.role_kind == span_role_kind(*span),
        (view.status@, view.status_tint) == status_label(span.status_code),
        view.metadata_tint == (if state.selected {
            Theme::MUTED
        } else {
            Theme::DIM
        }),
        view.bar_tint == (if state.evidence {
            Theme::AMBER
        } else {
            Theme::CYAN
        }),
        view.accessible_label@ == timeline_row_label(*span, state),
        view.duration_label@ == milliseconds(span.duration_nano) + " ms"@,
        view.bar_offset == (if span.start_time_unix_nano < trace_start {
            0
        } else {
            span.start_time_unix_nano - trace_start
        }),
        view.bar_duration == span.duration_nano,
        view.trace_duration == (if trace_duration == 0 {
            1
        } else {
            trace_duration
        }),
{
    let role = full_trace_role(span);
    let (status, status_tint) = span_status(span);
    let duration = milliseconds_text(span.duration_nano);
    let mut accessible_label = span.name.clone();
    accessible_label.append("; role ");
    accessible_label.append(role.as_str());
    accessible_label.append("; status ");
    accessible_label.append(status);
    accessible_label.append("; ");
    accessible_label.append(duration.as_str());
    accessible_label.append(" milliseconds");
    accessible_label.append(evidence_note_of(state.evidence));
    let role_kind = execution_role_for_span(span);
    TimelineRowView {
        surface: if state.selected {
            Theme::SELECTED
        } else if state.search_match {
            Theme::INFO_SURFACE
        } else {
            Theme::BG
        },
        role,
        role_kind,
        status,
        status_tint,
        metadata_tint: if state.selected {
            Theme::MUTED
        } else {
            Theme::DIM
        },
        bar_tint: if state.evidence {
            Theme::AMBER
        } else {
            Theme::CYAN
        },
        accessible_label,
        duration_label: concat2(duration.as_str(), " ms"),
        bar_offset: span.start_time_unix_nano.saturating_sub(trace_start),
        bar_duration: span.duration_nano,
        trace_duration: if trace_duration == 0 {
            1
        } else {
            trace_duration
        },
    }
}

/// A bar of a sparkline: its height as a share, where it has one, and its colour.
#[derive(Debug, Clone, Copy, PartialEq, Eq)]
pub struct TrendBar {
    pub share: Option<(u64, u64)>,
    pub color: u32,
}

/// A sparkline: its bars, its label and what a screen reader says.
#[derive(Debug)]
pub struct TrendSparkline {
    pub bars: Vec<TrendBar>,
    pub tint: u32,
    pub label: String,
    pub accessible_label: String,
}

/// The largest of some counts, at least one.
pub open spec fn largest(values: Seq<u64>) -> u64
    decreases values.len(),
{
    if values.len() == 0 {
        1
    } else {
        let before = largest(values.drop_last());
        if values.last() > before {
            values.last()
        } else {
            before
        }
    }
}

/// The bars of plain counts.
pub open spec fn count_bars(values: Seq<u64>, tint: u32) -> Seq<TrendBar> {
    let highest = largest(values);
    values.map_values(|value: u64| TrendBar { share: Some((value, highest)), color: tint })
}

/// The bar of a bucket: red where anything failed, green where nothing did.
pub open spec fn bucket_bar(bucket: FailureRecurrenceBucketV1) -> TrendBar {
    match bucket.recurrence_rate_basis_points {
        Some(rate) => TrendBar {
            share: Some((rate as u64, 10_000)),
            color: if rate == 0 {
                Theme::GREEN
            } else {
                Theme::RED
            },
        },
        None => TrendBar { share: None, color: Theme::BORDER },
    }
}

/// The recurrence rate of a bucket, in words.
pub open spec fn bucket_rate(bucket: FailureRecurrenceBucketV1) -> Seq<char> {
    match bucket.recurrence_rate_basis_points {
        Some(rate) => text::decimal((rate / 100) as nat) + "%"@,
        None => "no eligible runs"@,
    }
}

/// The recurrence rates of all buckets, in words.
pub open spec fn bucket_rates(buckets: Seq<FailureRecurrenceBucketV1>) -> Seq<char> {
    text::joined(
        buckets.map_values(|bucket: FailureRecurrenceBucketV1| bucket_rate(bucket)),
        ", "@,
    )
}

/// What a screen reader says of a recurrence series.
pub open spec fn recurrence_label(series: FailureRecurrenceSeriesV1) -> Seq<char> {
    let buckets = series.buckets@;
    "Recurrence from "@ + text::decimal(series.started_at_unix_nano as nat) + " through "@
        + text::decimal(series.ended_at_unix_nano as nat) + ": "@ + text::decimal(
        sum(counts(buckets, BucketCount::Affected)),
    ) + " affected of "@ + text::decimal(sum(counts(buckets, BucketCount::Eligible)))
        + " eligible runs, "@ + text::decimal(sum(counts(buckets, BucketCount::Findings)))
        + " findings across "@ + text::decimal(buckets.len()) + " equal buckets. Bucket rates: "@
        + bucket_rates(buckets)
}

/// Whether a sparkline shows plain counts.
pub open spec fn shows_counts(line: TrendSparkline, values: Seq<u64>) -> bool {
    &&& line.tint == trend(values).1
    &&& line.label@ == trend(values).0
    &&& line.accessible_label@ == "Occurrence trend: "@ + trend(values).0
    &&& line.bars@ == count_bars(values, trend(values).1)
}

/// Whether a sparkline shows a recurrence series.
pub open spec fn shows_recurrence(
    line: TrendSparkline,
    series: FailureRecurrenceSeriesV1,
) -> bool {
    let buckets = series.buckets@;
    &&& line.tint == recurrence_trend(buckets).1
    &&& line.label@ == recurrence_trend(buckets).0 + " · "@ + text::decimal(
        sum(counts(buckets, BucketCount::Affected)),
    ) + " / "@ + text::decimal(sum(counts(buckets, BucketCount::Eligible))) + " runs"@
    &&& line.accessible_label@ == recurrence_label(series)
    &&& line.bars@ == buckets.map_values(|bucket: FailureRecurrenceBucketV1| bucket_bar(bucket))
}

/// Whether the counts of a recurrence series can be summed in 64 bits.
pub open spec fn summable(buckets: Seq<FailureRecurrenceBucketV1>) -> bool {
    &&& sum(counts(buckets, BucketCount::Affected)) <= u64::MAX
    &&& sum(counts(buckets, BucketCount::Eligible)) <= u64::MAX
    &&& sum(counts(buckets, BucketCount::Findings)) <= u64::MAX
}

/// The sparkline of plain counts.
pub fn trend_sparkline(values: &[u64]) -> (line: TrendSparkline)
    requires
        sum(values@) <= u64::MAX,
    ensures
        shows_counts(line, values@),
{
    let (label, tint) = trend_summary(values);
    let mut highest: u64 = 1;
    let mut index: usize = 0;
    assert(values@.take(0) =~= Seq::empty());
    while index < values.len()
        invariant
            index <= values@.len(),
            highest == largest(values@.take(index as int)),
        decreases values@.len() - index,
    {
        assert(values@.take(index + 1).drop_last() =~= values@.take(index as int));
        if values[index] > highest {
            highest = values[index];
        }
        index += 1;
    }
    assert(values@.take(index as int) =~= values@);
    let mut bars: Vec<TrendBar> = Vec::new();
    let mut place: usize = 0;
    while place < values.len()
        invariant
            place <= values@.len(),
            highest == largest(values@),
            bars@ == count_bars(values@, tint).take(place as int),
        decreases values@.len() - place,
    {
        bars.push(TrendBar { share: Some((values[place], highest)), color: tint });
        place += 1;
        assert(bars@ =~= count_bars(values@, tint).take(place as int));
    }
    assert(bars@ =~= count_bars(values@, tint));
    let accessible_label = concat2("Occurrence trend: ", label.as_str());
    TrendSparkline { bars, tint, label, accessible_label }
}

fn bucket_bar_of(bucket: &FailureRecurrenceBucketV1) -> (bar: TrendBar)
    ensures
        bar == bucket_bar(*bucket),
{
    match bucket.recurrence_rate_basis_points {
        Some(rate) => {
            let color = if rate == 0 {
                Theme::GREEN
            } else {
                Theme::RED
            };
            TrendBar { share: Some((rate as u64, 10_000)), color }
        },
        None => TrendBar { share: None, color: Theme::BORDER },
    }
}

fn bucket_rate_of(bucket: &FailureRecurrenceBucketV1) -> (rate: String)
    ensures
        rate@ == bucket_rate(*bucket),
{
    match bucket.recurrence_rate_basis_points {
        Some(rate) => {
            let digits = decimal_text((rate / 100) as u64);
            concat2(digits.as_str(), "%")
        },
        None => "no eligible runs".to_owned(),
    }
}

/// The sparkline of a recurrence series.
pub fn recurrence_sparkline(series: &FailureRecurrenceSeriesV1) -> (line: TrendSparkline)
    requires
        summable(series.buckets@),
    ensures
        shows_recurrence(line, *series),
{
    let (trend, tint) = recurrence_trend_summary(series);
    let (affected, eligible) = recurrence_totals(series.buckets.as_slice());
    let mut findings: u64 = 0;
    let mut bars: Vec<TrendBar> = Vec::new();
    let mut rates: Vec<String> = Vec::new();
    let ghost all_findings = counts(series.buckets@, BucketCount::Findings);
    let ghost all_bars = series.buckets@.map_values(
        |bucket: FailureRecurrenceBucketV1| bucket_bar(bucket),
    );
    let ghost all_rates = series.buckets@.map_values(
        |bucket: FailureRecurrenceBucketV1| bucket_rate(bucket),
    );
    let mut index: usize = 0;
    assert(all_findings.take(0) =~= Seq::empty());
    while index < series.buckets.len()
        invariant
            index <= series.buckets@.len(),
            all_findings == counts(series.buckets@, BucketCount::Findings),
            all_bars == series.buckets@.map_values(
                |bucket: FailureRecurrenceBucketV1| bucket_bar(bucket),
            ),
            all_rates == series.buckets@.map_values(
                |bucket: FailureRecurrenceBucketV1| bucket_rate(bucket),
            ),
            sum(all_findings) <= u64::MAX,
            findings == sum(all_findings.take(index as int)),
            bars@ == all_bars.take(index as int),
            text::texts(rates@) == all_rates.take(index as int),
        decreases series.buckets@.len() - index,
    {
        let bucket = series.buckets[index];
        proof {
            let now = all_findings.take(index + 1);
            assert(now.drop_last() =~= all_findings.take(index as int));
            assert(now =~= all_findings.subrange(0, index + 1));
            lemma_sum_part(all_findings, 0, index + 1);
        }
        findings = findings + bucket.finding_count;
        let bar = bucket_bar_of(&bucket);
        let rate = bucket_rate_of(&bucket);
        let ghost named = text::texts(rates@);
        bars.push(bar);
        rates.push(rate);
        index += 1;
        proof {
            assert(bar == all_bars[index - 1]);
            assert(rate@ == all_rates[index - 1]);
            assert(bars@ =~= all_bars.take(index as int));
            assert(text::texts(rates@) =~= named.push(rate@));
            assert(all_rates.take(index as int) =~= all_rates.take(index - 1).push(
                all_rates[index - 1],
            ));
        }
    }
    proof {
        assert(all_findings.take(index as int) =~= all_findings);
        assert(all_bars.take(index as int) =~= all_bars);
        assert(all_rates.take(index as int) =~= all_rates);
    }
    let mut label = trend;
    label.append(" · ");
    append_decimal(&mut label, affected);
    label.append(" / ");
    append_decimal(&mut label, eligible);
    label.append(" runs");
    let mut accessible_label = "Recurrence from ".to_owned();
    append_decimal(&mut accessible_label, series.started_at_unix_nano);
    accessible_label.append(" through ");
    append_decimal(&mut accessible_label, series.ended_at_unix_nano);
    accessible_label.append(": ");
    append_decimal(&mut accessible_label, affected);
    accessible_label.append(" affected of ");
    append_decimal(&mut accessible_label, eligible);
    accessible_label.append(" eligible runs, ");
    append_decimal(&mut accessible_label, findings);
    accessible_label.append(" findings across ");
    append_decimal(&mut accessible_label, series.buckets.len() as u64);
    accessible_label.append(" equal buckets. Bucket rates: ");
    let joined_rates = join(&rates, ", ");
    accessible_label.append(joined_rates.as_str());
    TrendSparkline { bars, tint, label, accessible_label }
}

/// Halves of equal weight are no trend: the label says only whether the counts vary.
pub proof fn equal_halves_are_no_trend(values: Seq<u64>)
    requires
        values.len() >= 2,
        sum(values) > 1,
        sum(values.take((values.len() / 2) as int)) > 0,
        sum(values.take((values.len() / 2) as int)) == sum(
            values.skip(values.len() - values.len() / 2),
        ),
    ensures
        trend(values) == (if varies(values) {
            ("Intermittent"@, Theme::AMBER)
        } else {
            ("Flat"@, Theme::DIM)
        }),
{
    binary64::no_change_against_itself(
        binary64::of_integer(sum(values.take((values.len() / 2) as int))),
    );
}

/// A later half with runs but without failures is a fall of a hundred percent,
/// and a later half without runs is not: there is nothing to compare.
pub proof fn resolved_differs_from_unobserved(buckets: Seq<FailureRecurrenceBucketV1>)
    requires
        buckets.len() >= 2,
        ({
            let earlier = buckets.take((buckets.len() / 2) as int);
            &&& sum(counts(earlier, BucketCount::Affected)) > 0
            &&& sum(counts(earlier, BucketCount::Eligible)) > 0
        }),
        ({
            let later = buckets.skip(buckets.len() - buckets.len() / 2);
            sum(counts(later, BucketCount::Affected)) == 0
        }),
    ensures
        ({
            let later = buckets.skip(buckets.len() - buckets.len() / 2);
            recurrence_trend(buckets) == (if sum(counts(later, BucketCount::Eligible)) == 0 {
                ("No recent runs"@, Theme::DIM)
            } else {
                ("-"@ + text::decimal(100) + "%"@, Theme::GREEN)
            })
        }),
{
    let earlier = buckets.take((buckets.len() / 2) as int);
    let affected = capped_sum(counts(earlier, BucketCount::Affected));
    let eligible = capped_sum(counts(earlier, BucketCount::Eligible));
    binary64::lemma_of_integer(affected);
    binary64::lemma_of_integer(eligible);
    binary64::lemma_quotient_is_normal(
        binary64::of_integer(affected),
        binary64::of_integer(eligible),
    );
    binary64::falling_to_nothing(
        binary64::quotient(binary64::of_integer(affected), binary64::of_integer(eligible)),
    );
}

/// Sums are built up value by value.
pub proof fn sums_add_up(values: Seq<u64>, value: u64)
    ensures
        sum(Seq::<u64>::empty()) == 0,
        sum(values.push(value)) == sum(values) + value,
{
    assert(values.push(value).drop_last() =~= values);
}

/// How many runs of some buckets were affected by a failure.
pub open spec fn affected_runs(buckets: Seq<FailureRecurrenceBucketV1>) -> nat
    decreases buckets.len(),
{
    if buckets.len() == 0 {
        0
    } else {
        affected_runs(buckets.drop_first()) + buckets[0].affected_run_count as nat
    }
}

/// How many runs of some buckets could have been affected by a failure.
pub open spec fn eligible_runs(buckets: Seq<FailureRecurrenceBucketV1>) -> nat
    decreases buckets.len(),
{
    if buckets.len() == 0 {
        0
    } else {
        eligible_runs(buckets.drop_first()) + buckets[0].eligible_run_count as nat
    }
}

proof fn lemma_runs(buckets: Seq<FailureRecurrenceBucketV1>)
    ensures
        sum(counts(buckets, BucketCount::Affected)) == affected_runs(buckets),
        sum(counts(buckets, BucketCount::Eligible)) == eligible_runs(buckets),
    decreases buckets.len(),
{
    reveal_with_fuel(sum, 2);
    if buckets.len() > 0 {
        let rest = buckets.drop_first();
        lemma_runs(rest);
        let affected = counts(buckets, BucketCount::Affected);
        let eligible = counts(buckets, BucketCount::Eligible);
        assert(affected =~= seq![buckets[0].affected_run_count] + counts(
            rest,
            BucketCount::Affected,
        ));
        assert(eligible =~= seq![buckets[0].eligible_run_count] + counts(
            rest,
            BucketCount::Eligible,
        ));
        lemma_sum_concat(
            seq![buckets[0].affected_run_count],
            counts(rest, BucketCount::Affected),
        );
        lemma_sum_concat(
            seq![buckets[0].eligible_run_count],
            counts(rest, BucketCount::Eligible),
        );
        assert(seq![buckets[0].affected_run_count].drop_last() =~= Seq::empty());
        assert(seq![buckets[0].eligible_run_count].drop_last() =~= Seq::empty());
    }
}

/// Whether a summary shows a change in whole percent: a rise in red, a fall in
/// green; without a change, whether the values in between varied.
pub open spec fn shows_change(summary: (Seq<char>, u32), change: int) -> bool {
    &&& change > 0 ==> summary == ("+"@ + text::decimal(change as nat) + "%"@, Theme::RED)
    &&& change < 0 ==> summary == ("-"@ + text::decimal((0 - change) as nat) + "%"@, Theme::GREEN)
    &&& change == 0 ==> summary == ("Intermittent"@, Theme::AMBER) || summary == (
        "Flat"@,
        Theme::DIM,
    )
}

proof fn lemma_flat_is_no_change(summary: (Seq<char>, u32), change: int)
    requires
        shows_change(summary, change),
        summary.0 == "Flat"@ || summary.0 == "Intermittent"@,
    ensures
        change == 0,
{
    reveal_strlit("Flat");
    reveal_strlit("Intermittent");
    reveal_strlit("+");
    reveal_strlit("-");
    if change > 0 {
        assert(summary.0[0] == '+');
    } else if change < 0 {
        assert(summary.0[0] == '-');
    }
}

/// How often a failure recurs is judged by shares of runs. Without a run in the
/// later half there is nothing recent; without one in the earlier half, or
/// with affected runs in the later half alone, the failure is new, in the
/// latter case a warning. Otherwise the change of the share is shown in percent
/// of the earlier one, rounded.
pub proof fn recurrence_compares_shares(buckets: Seq<FailureRecurrenceBucketV1>)
    requires
        affected_runs(buckets.take((buckets.len() / 2) as int)) <= u64::MAX,
        eligible_runs(buckets.take((buckets.len() / 2) as int)) <= u64::MAX,
        affected_runs(buckets.skip(buckets.len() - buckets.len() / 2)) <= u64::MAX,
        eligible_runs(buckets.skip(buckets.len() - buckets.len() / 2)) <= u64::MAX,
    ensures
        ({
            let earlier = buckets.take((buckets.len() / 2) as int);
            let later = buckets.skip(buckets.len() - buckets.len() / 2);
            let from = affected_runs(earlier) * eligible_runs(later);
            let to = affected_runs(later) * eligible_runs(earlier);
            let summary = recurrence_trend(buckets);
            &&& buckets.len() < 2 ==> summary == ("New"@, Theme::CYAN)
            &&& buckets.len() >= 2 && eligible_runs(later) == 0 ==> summary == (
                "No recent runs"@,
                Theme::DIM,
            )
            &&& buckets.len() >= 2 && eligible_runs(later) > 0 && eligible_runs(earlier) == 0
                ==> summary == ("New"@, Theme::CYAN)
            &&& buckets.len() >= 2 && eligible_runs(later) > 0 && eligible_runs(earlier) > 0
                && affected_runs(earlier) == 0 && affected_runs(later) > 0 ==> summary == (
                "New"@,
                Theme::RED,
            )
            &&& buckets.len() >= 2 && eligible_runs(later) > 0 && eligible_runs(earlier) > 0
                && affected_runs(earlier) == 0 && affected_runs(later) == 0 ==> summary == (
                "Flat"@,
                Theme::DIM,
            )
            &&& buckets.len() >= 2 && eligible_runs(later) > 0 && eligible_runs(earlier) > 0
                && affected_runs(earlier) > 0 ==> exists|change: int|
                {
                    &&& #[trigger] shows_change(summary, change)
                    &&& binary64::accurate_change(change, from as int, to as int)
                }
        }),
{
    let earlier = buckets.take((buckets.len() / 2) as int);
    let later = buckets.skip(buckets.len() - buckets.len() / 2);
    lemma_runs(earlier);
    lemma_runs(later);
    if buckets.len() >= 2 && eligible_runs(later) > 0 && eligible_runs(earlier) > 0
        && affected_runs(earlier) > 0 {
        binary64::changes_of_shares_are_accurate(
            affected_runs(earlier),
            eligible_runs(earlier),
            affected_runs(later),
            eligible_runs(later),
        );
        let change = binary64::percent_change(
            binary64::quotient(
                binary64::of_integer(affected_runs(earlier)),
                binary64::of_integer(eligible_runs(earlier)),
            ),
            binary64::quotient(
                binary64::of_integer(affected_runs(later)),
                binary64::of_integer(eligible_runs(later)),
            ),
        );
        assert(shows_change(recurrence_trend(buckets), change));
    }
}

/// A recurrence is flat or intermittent only where runs are eligible in both
/// halves and the later share equals the earlier one up to half a percent of
/// it, or no run was affected at all.
pub proof fn steady_recurrence_has_equal_shares(buckets: Seq<FailureRecurrenceBucketV1>)
    requires
        affected_runs(buckets.take((buckets.len() / 2) as int)) <= u64::MAX,
        eligible_runs(buckets.take((buckets.len() / 2) as int)) <= u64::MAX,
        affected_runs(buckets.skip(buckets.len() - buckets.len() / 2)) <= u64::MAX,
        eligible_runs(buckets.skip(buckets.len() - buckets.len() / 2)) <= u64::MAX,
        recurrence_trend(buckets).0 == "Flat"@ || recurrence_trend(buckets).0 == "Intermittent"@,
    ensures
        ({
            let earlier = buckets.take((buckets.len() / 2) as int);
            let later = buckets.skip(buckets.len() - buckets.len() / 2);
            let from = affected_runs(earlier) * eligible_runs(later);
            let to = affected_runs(later) * eligible_runs(earlier);
            &&& eligible_runs(earlier) > 0 && eligible_runs(later) > 0
            &&& 0x2_0000_0000_0000 * (200 * (to - from)) <= 0x2_0000_0000_0000 * from + 4000 * (from
                + to)
            &&& 0x2_0000_0000_0000 * (200 * (from - to)) <= 0x2_0000_0000_0000 * from + 4000 * (from
                + to)
        }),
{
    recurrence_compares_shares(buckets);
    let earlier = buckets.take((buckets.len() / 2) as int);
    let later = buckets.skip(buckets.len() - buckets.len() / 2);
    let from = affected_runs(earlier) * eligible_runs(later);
    let to = affected_runs(later) * eligible_runs(earlier);
    reveal_strlit("Flat");
    reveal_strlit("Intermittent");
    reveal_strlit("New");
    reveal_strlit("No recent runs");
    let summary = recurrence_trend(buckets);
    assert("Flat"@[0] == 'F' && "Intermittent"@[0] == 'I' && "New"@[0] == 'N');
    assert("No recent runs"@[0] == 'N');
    if affected_runs(earlier) == 0 {
        assert(affected_runs(later) == 0);
        assert(0 * eligible_runs(later) == 0 && 0 * eligible_runs(earlier) == 0);
    } else {
        let change = choose|change: int|
            {
                &&& #[trigger] shows_change(summary, change)
                &&& binary64::accurate_change(change, from as int, to as int)
            };
        lemma_flat_is_no_change(summary, change);
        assert(0 * (from as int) == 0);
    }
}

proof fn lemma_known_rates(buckets: Seq<FailureRecurrenceBucketV1>)
    ensures
        forall|rate: u16|
            #![trigger known_rates(buckets).contains(rate)]
            known_rates(buckets).contains(rate) <==> exists|i: int|
                0 <= i < buckets.len() && (
                #[trigger] buckets[i]).recurrence_rate_basis_points == Some(rate),
    decreases buckets.len(),
{
    if buckets.len() > 0 {
        let shorter = buckets.drop_last();
        let last = buckets.last().recurrence_rate_basis_points;
        lemma_known_rates(shorter);
        let (before, now) = (known_rates(shorter), known_rates(buckets));
        assert forall|rate: u16| #[trigger] now.contains(rate) <==> exists|i: int|
            0 <= i < buckets.len() && (#[trigger] buckets[i]).recurrence_rate_basis_points == Some(
                rate,
            ) by {
            if now.contains(rate) {
                if before.contains(rate) {
                    let i = choose|i: int|
                        0 <= i < shorter.len() && (
                        #[trigger] shorter[i]).recurrence_rate_basis_points == Some(rate);
                    assert(buckets[i].recurrence_rate_basis_points == Some(rate));
                } else {
                    let k = choose|k: int| 0 <= k < now.len() && now[k] == rate;
                    if k < before.len() {
                        assert(before[k] == rate);
                    }
                    assert(buckets[buckets.len() - 1].recurrence_rate_basis_points == Some(rate));
                }
            }
            if exists|i: int|
                0 <= i < buckets.len() && (
                #[trigger] buckets[i]).recurrence_rate_basis_points == Some(rate) {
                let i = choose|i: int|
                    0 <= i < buckets.len() && (
                    #[trigger] buckets[i]).recurrence_rate_basis_points == Some(rate);
                if i < shorter.len() {
                    assert(shorter[i].recurrence_rate_basis_points == Some(rate));
                    assert(before.contains(rate));
                    let k = choose|k: int| 0 <= k < before.len() && before[k] == rate;
                    assert(now[k] == rate);
                } else {
                    assert(now[now.len() - 1] == rate);
                }
            }
        }
    }
}

proof fn lemma_steady<A>(values: Seq<A>, place: int)
    requires
        !varies(values),
        0 <= place < values.len(),
    ensures
        values[place] == values[0],
    decreases place,
{
    if place > 0 {
        assert(!differs_at(values, place - 1));
        lemma_steady(values, place - 1);
    }
}

/// An intermittent failure recurs at different rates in two buckets, and the
/// rates of a flat one that has affected runs at first are all the same.
pub proof fn intermittent_failures_have_different_rates(buckets: Seq<FailureRecurrenceBucketV1>)
    ensures
        recurrence_trend(buckets).0 == "Intermittent"@ ==> exists|i: int, j: int|
            {
                &&& 0 <= i < buckets.len()
                &&& 0 <= j < buckets.len()
                &&& (#[trigger] buckets[i]).recurrence_rate_basis_points is Some
                &&& (#[trigger] buckets[j]).recurrence_rate_basis_points is Some
                &&& buckets[i].recurrence_rate_basis_points
                    != buckets[j].recurrence_rate_basis_points
            },
        recurrence_trend(buckets).0 == "Flat"@ && affected_runs(
            buckets.take((buckets.len() / 2) as int),
        ) > 0 ==> forall|i: int, j: int|
            {
                &&& 0 <= i < buckets.len()
                &&& 0 <= j < buckets.len()
                &&& (#[trigger] buckets[i]).recurrence_rate_basis_points is Some
                &&& (#[trigger] buckets[j]).recurrence_rate_basis_points is Some
            } ==> buckets[i].recurrence_rate_basis_points
                == buckets[j].recurrence_rate_basis_points,
{
    reveal_strlit("Flat");
    reveal_strlit("Intermittent");
    reveal_strlit("New");
    reveal_strlit("No recent runs");
    reveal_strlit("+");
    reveal_strlit("-");
    assert("Flat"@[0] == 'F' && "Intermittent"@[0] == 'I' && "New"@[0] == 'N');
    assert("No recent runs"@[0] == 'N');
    let rates = known_rates(buckets);
    let summary = recurrence_trend(buckets);
    let earlier = buckets.take((buckets.len() / 2) as int);
    lemma_runs(earlier);
    lemma_known_rates(buckets);
    if summary.0 == "Intermittent"@ {
        if !varies(rates) {
            assert(summary.0[0] == '+' || summary.0[0] == '-' || summary.0[0] == 'F'
                || summary.0[0] == 'N');
        }
        let k = choose|k: int| 0 <= k < rates.len() - 1 && #[trigger] differs_at(rates, k);
        assert(rates.contains(rates[k]) && rates.contains(rates[k + 1]));
        let i = choose|i: int|
            0 <= i < buckets.len() && (#[trigger] buckets[i]).recurrence_rate_basis_points == Some(
                rates[k],
            );
        let j = choose|j: int|
            0 <= j < buckets.len() && (#[trigger] buckets[j]).recurrence_rate_basis_points == Some(
                rates[k + 1],
            );
        assert(buckets[i].recurrence_rate_basis_points != buckets[j].recurrence_rate_basis_points);
    }
    if summary.0 == "Flat"@ && affected_runs(earlier) > 0 {
        if varies(rates) {
            assert(summary.0[0] == '+' || summary.0[0] == '-' || summary.0[0] == 'I'
                || summary.0[0] == 'N');
        }
        assert forall|i: int, j: int|
            {
                &&& 0 <= i < buckets.len()
                &&& 0 <= j < buckets.len()
                &&& (#[trigger] buckets[i]).recurrence_rate_basis_points is Some
                &&& (#[trigger] buckets[j]).recurrence_rate_basis_points is Some
            } implies buckets[i].recurrence_rate_basis_points
            == buckets[j].recurrence_rate_basis_points by {
            let a = buckets[i].recurrence_rate_basis_points->0;
            let b = buckets[j].recurrence_rate_basis_points->0;
            assert(rates.contains(a) && rates.contains(b));
            let k = choose|k: int| 0 <= k < rates.len() && rates[k] == a;
            let l = choose|l: int| 0 <= l < rates.len() && rates[l] == b;
            lemma_steady(rates, k);
            lemma_steady(rates, l);
        }
    }
}

/// A series of counts is compared half with half: without anything to compare
/// with it is new, and otherwise the change is shown in percent of the earlier
/// half, rounded. A steady series is intermittent where it varies.
pub proof fn trends_compare_halves(values: Seq<u64>)
    requires
        sum(values) <= u64::MAX,
    ensures
        ({
            let earlier = sum(values.take((values.len() / 2) as int));
            let later = sum(values.skip(values.len() - values.len() / 2));
            &&& values.len() < 2 || sum(values) <= 1 || earlier == 0 ==> trend(values) == (
                "New"@,
                Theme::CYAN,
            )
            &&& values.len() >= 2 && sum(values) > 1 && earlier > 0 ==> exists|change: int|
                {
                    &&& #[trigger] shows_change(trend(values), change)
                    &&& binary64::accurate_change(change, earlier as int, later as int)
                    &&& change == 0 ==> (trend(values).0 == "Flat"@ <==> forall|i: int, j: int|
                        0 <= i < values.len() && 0 <= j < values.len() ==> #[trigger] values[i]
                            == #[trigger] values[j])
                }
        }),
{
    let earlier = sum(values.take((values.len() / 2) as int));
    let later = sum(values.skip(values.len() - values.len() / 2));
    if values.len() >= 2 && sum(values) > 1 && earlier > 0 {
        lemma_sum_part(values, 0, (values.len() / 2) as int);
        lemma_sum_part(values, values.len() - values.len() / 2, values.len() as int);
        assert(values.subrange(0, (values.len() / 2) as int) =~= values.take(
            (values.len() / 2) as int,
        ));
        assert(values.subrange(values.len() - values.len() / 2, values.len() as int)
            =~= values.skip(values.len() - values.len() / 2));
        binary64::changes_of_counts_are_accurate(earlier, later);
        let change = binary64::percent_change(
            binary64::of_integer(earlier),
            binary64::of_integer(later),
        );
        assert(shows_change(trend(values), change));
        reveal_strlit("Flat");
        reveal_strlit("Intermittent");
        assert("Flat"@[0] == 'F' && "Intermittent"@[0] == 'I');
        if varies(values) {
            let i = choose|i: int| 0 <= i < values.len() - 1 && #[trigger] differs_at(values, i);
            assert(values[i] != values[i + 1]);
        } else {
            assert forall|i: int, j: int|
                0 <= i < values.len() && 0 <= j < values.len() implies #[trigger] values[i]
                == #[trigger] values[j] by {
                lemma_steady(values, i);
                lemma_steady(values, j);
            }
        }
    }
}

/// A bar stands for its own value against the highest one, and the highest
/// one is a value of the series or one.
pub proof fn bars_stand_for_their_values(values: Seq<u64>, tint: u32, place: int)
    requires
        0 <= place < values.len(),
    ensures
        ({
            let bar = count_bars(values, tint)[place];
            &&& count_bars(values, tint).len() == values.len()
            &&& bar.color == tint
            &&& bar.share == Some((values[place], largest(values)))
            &&& values[place] <= largest(values)
            &&& largest(values) == 1 || values.contains(largest(values))
        }),
{
    lemma_largest(values);
}

proof fn lemma_largest(values: Seq<u64>)
    ensures
        largest(values) >= 1,
        forall|i: int| 0 <= i < values.len() ==> #[trigger] values[i] <= largest(values),
        largest(values) == 1 || values.contains(largest(values)),
    decreases values.len(),
{
    if values.len() > 0 {
        let shorter = values.drop_last();
        lemma_largest(shorter);
        assert forall|i: int| 0 <= i < values.len() implies #[trigger] values[i] <= largest(
            values,
        ) by {
            if i < shorter.len() {
                assert(shorter[i] <= largest(shorter));
            }
        }
        if largest(values) == values.last() {
            assert(values[values.len() - 1] == largest(values));
        } else if largest(shorter) != 1 {
            let i = choose|i: int| 0 <= i < shorter.len() && shorter[i] == largest(shorter);
            assert(values[i] == largest(values));
        }
    }
}

/// A bucket in which nothing failed is green, one in which something did is
/// red, and one without eligible runs has no share at all.
pub proof fn buckets_are_coloured_by_failure(bucket: FailureRecurrenceBucketV1)
    ensures
        bucket.recurrence_rate_basis_points is None ==> bucket_bar(bucket) == (TrendBar {
            share: None,
            color: Theme::BORDER,
        }) && bucket_rate(bucket) == "no eligible runs"@,
        bucket.recurrence_rate_basis_points is Some ==> {
            let rate = bucket.recurrence_rate_basis_points->0;
            &&& bucket_bar(bucket).share == Some((rate as u64, 10_000u64))
            &&& bucket_bar(bucket).color == (if rate > 0 {
                Theme::RED
            } else {
                Theme::GREEN
            })
            &&& bucket_rate(bucket) == text::decimal((rate / 100) as nat) + "%"@
        },
{
}

proof fn lemma_split_word(value: Seq<char>, word: Seq<char>, separator: char)
    requires
        !word.contains(separator),
    ensures
        text::split_at_char(word, separator) == seq![word],
        text::split_at_char(value + seq![separator] + word, separator) == text::split_at_char(
            value,
            separator,
        ).push(word),
    decreases word.len(),
{
    let whole = value + seq![separator] + word;
    if word.len() == 0 {
        assert(whole =~= value.push(separator));
        assert(whole.drop_last() =~= value);
        assert(word =~= Seq::empty());
    } else {
        let shorter = word.drop_last();
        assert(!shorter.contains(separator)) by {
            if shorter.contains(separator) {
                let i = choose|i: int| 0 <= i < shorter.len() && shorter[i] == separator;
                assert(word[i] == separator);
            }
        }
        assert(word.last() != separator) by {
            assert(word[word.len() - 1] == word.last());
        }
        lemma_split_word(value, shorter, separator);
        assert(whole.drop_last() =~= value + seq![separator] + shorter);
        assert(whole.last() == word.last());
        assert(shorter.push(word.last()) =~= word);
        let before = text::split_at_char(value, separator);
        assert(before.push(shorter).update(before.len() as int, word) =~= before.push(word));
        assert(seq![shorter].update(0, word) =~= seq![word]);
    }
}

/// A name is made readable word by word: each word between underscores begins
/// with a capital letter, and a blank stands between two words.
pub proof fn names_are_read_word_by_word(value: Seq<char>, word: Seq<char>)
    requires
        !word.contains('_'),
    ensures
        word.len() > 0 ==> humanized(word) == text::uppercase_of(word[0]) + word.drop_first(),
        word.len() == 0 ==> humanized(word).len() == 0,
        humanized(value + seq!['_'] + word) == humanized(value) + seq![' '] + humanized(word),
{
    reveal_strlit(" ");
    assert(" "@ =~= seq![' ']);
    lemma_split_word(value, word, '_');
    text::split_texts_are_joined_again(value, '_');
    let render = |word: Seq<char>| capitalized(word, uppercase()(word[0]));
    let before = text::split_at_char(value, '_');
    let parts = before.map_values(render);
    assert(before.push(word).map_values(render) =~= parts + seq![render(word)]);
    assert(seq![word].map_values(render) =~= seq![render(word)]);
    text::separators_stand_between_parts(parts, seq![render(word)], " "@);
    text::separators_stand_between_parts(seq![render(word)], parts, " "@);
    assert(humanized(value) == text::joined(parts, " "@));
}

/// The colour of a severity tells how urgent it is.
pub proof fn severities_are_told_by_colour()
    ensures
        severity_tint(FindingSeverity::Critical) == Theme::RED,
        severity_tint(FindingSeverity::High) == Theme::RED,
        severity_tint(FindingSeverity::Medium) == Theme::AMBER,
        severity_tint(FindingSeverity::Low) == Theme::CYAN,
        severity_tint(FindingSeverity::Info) == Theme::MUTED,
{
}

/// A status is an error, fine or unset.
pub proof fn statuses_are_errors_or_fine(status_code: i32)
    ensures
        status_label(2) == ("Error"@, Theme::RED),
        status_label(1) == ("OK"@, Theme::GREEN),
        status_code != 1 && status_code != 2 ==> status_label(status_code) == (
            "Unset"@,
            Theme::DIM,
        ),
{
}

/// An attribute is the first of its key, and only where it is a text.
pub proof fn attributes_are_the_first_of_their_key(
    attributes: Seq<(String, AttributeValue)>,
    key: Seq<char>,
    place: int,
)
    requires
        0 <= place < attributes.len(),
        attributes[place].0@ == key,
        forall|i: int| 0 <= i < place ==> (#[trigger] attributes[i]).0@ != key,
    ensures
        attributes[place].1 is Text ==> attribute(attributes, key) == Some(
            attributes[place].1->Text_0@,
        ),
        attributes[place].1 is Other ==> attribute(attributes, key) is None,
    decreases attributes.len(),
{
    if place > 0 {
        assert(attributes[0].0@ != key);
        let rest = attributes.drop_first();
        assert forall|i: int| 0 <= i < place - 1 implies (#[trigger] rest[i]).0@ != key by {
            assert(rest[i] == attributes[i + 1]);
        }
        assert(rest[place - 1] == attributes[place]);
        attributes_are_the_first_of_their_key(rest, key, place - 1);
    }
}

/// A key that no attribute has gives nothing.
pub proof fn missing_attributes_give_nothing(
    attributes: Seq<(String, AttributeValue)>,
    key: Seq<char>,
)
    requires
        forall|i: int| 0 <= i < attributes.len() ==> (#[trigger] attributes[i]).0@ != key,
    ensures
        attribute(attributes, key) is None,
    decreases attributes.len(),
{
    if attributes.len() > 0 {
        let rest = attributes.drop_first();
        assert(attributes[0].0@ != key);
        assert forall|i: int| 0 <= i < rest.len() implies (#[trigger] rest[i]).0@ != key by {
            assert(rest[i] == attributes[i + 1]);
        }
        missing_attributes_give_nothing(rest, key);
    }
}

/// Whether the first of some keys is found at a place, and none before it.
pub open spec fn first_found(
    attributes: Seq<(String, AttributeValue)>,
    keys: Seq<Seq<char>>,
    place: int,
) -> bool {
    &&& 0 <= place < keys.len()
    &&& attribute(attributes, keys[place]) is Some
    &&& forall|i: int| 0 <= i < place ==> attribute(attributes, #[trigger] keys[i]) is None
}

proof fn lemma_first_found(
    attributes: Seq<(String, AttributeValue)>,
    keys: Seq<Seq<char>>,
    place: int,
)
    requires
        first_found(attributes, keys, place),
    ensures
        first_attribute(attributes, keys) == attribute(attributes, keys[place]),
    decreases keys.len(),
{
    if place > 0 {
        assert(attribute(attributes, keys[0]) is None);
        let rest = keys.drop_first();
        assert forall|i: int| 0 <= i < place - 1 implies attribute(
            attributes,
            #[trigger] rest[i],
        ) is None by {
            assert(rest[i] == keys[i + 1]);
        }
        assert(rest[place - 1] == keys[place]);
        lemma_first_found(attributes, rest, place - 1);
    }
}

/// A span's role is the role that its attributes name, then the agent's name,
/// and its operation the first that is named.
pub proof fn roles_are_named_before_agents(span: SpanRow, place: int)
    ensures
        first_found(
            span.attributes@,
            seq![
                "agent.role"@,
                "gen_ai.agent.role"@,
                "openinference.agent.role"@,
                "agent.name"@,
                "gen_ai.agent.name"@,
                "openinference.agent.name"@,
            ],
            place,
        ) ==> span_role(span) == humanized(
            attribute(
                span.attributes@,
                seq![
                    "agent.role"@,
                    "gen_ai.agent.role"@,
                    "openinference.agent.role"@,
                    "agent.name"@,
                    "gen_ai.agent.name"@,
                    "openinference.agent.name"@,
                ][place],
            )->0,
        ),
        first_found(
            span.attributes@,
            seq![
                "gen_ai.operation.name"@,
                "agent.operation"@,
                "tool.operation"@,
                "operation.name"@,
            ],
            place,
        ) ==> span_operation(span) == humanized(
            attribute(
                span.attributes@,
                seq![
                    "gen_ai.operation.name"@,
                    "agent.operation"@,
                    "tool.operation"@,
                    "operation.name"@,
                ][place],
            )->0,
        ),
{
    if first_found(span.attributes@, role_keys(), place) {
        lemma_first_found(span.attributes@, role_keys(), place);
    }
    if first_found(span.attributes@, operation_keys(), place) {
        lemma_first_found(span.attributes@, operation_keys(), place);
    }
}

/// A span without attributes is told by its category.
pub proof fn plain_spans_are_told_by_category(span: SpanRow)
    requires
        span.attributes@.len() == 0,
    ensures
        span.category@ == "llm"@ || span.category@ == "model"@ ==> span_role(span) == "Model"@,
        span.category@ == "tool"@ ==> span_role(span) == "Tool"@,
        category_role("llm"@) == "Model"@,
        category_role("model"@) == "Model"@,
        category_role("tool"@) == "Tool"@,
        category_role("agent"@) == "Agent"@,
        category_role("chain"@) == "Chain"@,
        span_operation(span) == humanized(span.category@),
{
    reveal_with_fuel(first_attribute, 7);
    reveal_strlit("llm");
    reveal_strlit("model");
    reveal_strlit("tool");
    reveal_strlit("agent");
    reveal_strlit("chain");
    assert("tool"@.len() == 4 && "llm"@.len() == 3 && "model"@.len() == 5);
    assert("agent"@[0] == 'a' && "model"@[0] == 'm' && "chain"@[0] == 'c');
}

/// The part that a step plays is found in its role, and else in its category.
pub proof fn parts_are_found_in_roles(role: Seq<char>, category: Seq<char>)
    ensures
        text::occurs_in(role, "planner"@) ==> role_kind(role, category) == ExecutionRole::Planner,
        !text::occurs_in(role, "planner"@) && text::occurs_in(role, "browser"@) ==> role_kind(
            role,
            category,
        ) == ExecutionRole::Browser,
        !text::occurs_in(role, "planner"@) && !text::occurs_in(role, "browser"@) && (
        text::occurs_in(role, "verifier"@) || text::occurs_in(role, "verify"@)) ==> role_kind(
            role,
            category,
        ) == ExecutionRole::Verifier,
        !text::occurs_in(role, "planner"@) && !text::occurs_in(role, "browser"@)
            && !text::occurs_in(role, "verifier"@) && !text::occurs_in(role, "verify"@) ==> {
            &&& category == "llm"@ || category == "model"@ ==> role_kind(role, category)
                == ExecutionRole::Model
            &&& category != "llm"@ && category != "model"@ ==> role_kind(role, category)
                == ExecutionRole::Tool
        },
{
}

/// A duration is shown in milliseconds, to the nearest tenth.
pub proof fn durations_are_shown_to_a_tenth(duration_nano: u64)
    requires
        0 < duration_nano <= 0x1000_0000_0000,
    ensures
        milliseconds(duration_nano) == text::one_decimal(millisecond_tenths(duration_nano)),
        2 * (millisecond_tenths(duration_nano) * 100_000 - duration_nano) <= 100_001,
        2 * (duration_nano - millisecond_tenths(duration_nano) * 100_000) <= 100_001,
{
    let (d, a) = (duration_nano as nat, 1_000_000nat);
    binary64::shares_are_close(d, a);
    let share = binary64::quotient(binary64::of_integer(d), binary64::of_integer(a));
    binary64::parts_are_close(share, 10);
    let c = binary64::to_parts(share, 10) as int;
    let w = binary64::one() as int;
    vstd::arithmetic::power2::lemma_pow2_pos(0x2000);
    let s = binary64::measure(share) as int;
    let (cw, dw) = (c * w, d * w);
    let sa = s * 1_000_000;
    assert(0x2_0000_0000_0000 * (sa - dw) <= dw && 0x2_0000_0000_0000 * (dw - sa) <= dw);
    assert(2 * (cw - 10 * s) <= w && 2 * (10 * s - cw) <= w);
    assert(dw <= 0x1000_0000_0000 * w && dw >= 0) by (nonlinear_arith)
        requires
            dw == d * w,
            0 <= d <= 0x1000_0000_0000,
            w > 0,
    ;
    assert(2 * (cw * 100_000 - dw) <= 100_001 * w && 2 * (dw - cw * 100_000) <= 100_001 * w);
    assert(2 * (c * 100_000 - d) <= 100_001 && 2 * (d - c * 100_000) <= 100_001)
        by (nonlinear_arith)
        requires
            2 * (cw * 100_000 - dw) <= 100_001 * w,
            2 * (dw - cw * 100_000) <= 100_001 * w,
            cw == c * w,
            dw == d * w,
            w > 0,
    {
        assert((2 * (c * 100_000 - d)) * w <= 100_001 * w);
        assert((2 * (d - c * 100_000)) * w <= 100_001 * w);
    }
}

/// A row stands out where it is selected, then where it is evidence, then where
/// it matches, and its label says whether children are shown.
pub proof fn rows_stand_out_by_their_state(
    state: FullTraceRowState,
    span: SpanRow,
)
    ensures
        state.selected ==> tree_surface(state) == Theme::SELECTED,
        !state.selected && state.evidence ==> tree_surface(state) == Theme::WARNING_SURFACE,
        !state.selected && !state.evidence && state.search_match ==> tree_surface(state)
            == Theme::INFO_SURFACE,
        !state.selected && !state.evidence && !state.search_match ==> tree_surface(state)
            == Theme::BG,
        children_note(true, true) == "children expanded"@,
        children_note(true, false) == "children collapsed"@,
        children_note(false, true) == "no children"@,
        children_note(false, false) == "no children"@,
        evidence_note(true) == "; evidence"@,
        evidence_note(false).len() == 0,
        tree_row_label(span, state, true) == span.name@ + "; role "@ + span_role(span)
            + "; operation "@ + span_operation(span) + "; status "@ + status_label(
            span.status_code,
        ).0 + "; "@ + milliseconds(span.duration_nano) + " milliseconds; "@ + children_note(
            span.has_children,
            true,
        ) + evidence_note(state.evidence),
        timeline_row_label(span, state) == span.name@ + "; role "@ + span_role(span)
            + "; status "@ + status_label(span.status_code).0 + "; "@ + milliseconds(
            span.duration_nano,
        ) + " milliseconds"@ + evidence_note(state.evidence),
{
    reveal_strlit("");
}

/// The spoken form of a recurrence gives its period, the affected of all
/// eligible runs, the findings and the rate of each bucket.
pub proof fn recurrences_are_told_in_full(series: FailureRecurrenceSeriesV1)
    ensures
        recurrence_label(series) == "Recurrence from "@ + text::decimal(
            series.started_at_unix_nano as nat,
        ) + " through "@ + text::decimal(series.ended_at_unix_nano as nat) + ": "@ + text::decimal(
            affected_runs(series.buckets@),
        ) + " affected of "@ + text::decimal(eligible_runs(series.buckets@))
            + " eligible runs, "@ + text::decimal(
            sum(counts(series.buckets@, BucketCount::Findings)),
        ) + " findings across "@ + text::decimal(series.buckets@.len())
            + " equal buckets. Bucket rates: "@ + bucket_rates(series.buckets@),
{
    lemma_runs(series.buckets@);
}

/// A fact is headed by its label in capitals.
pub proof fn facts_are_headed_in_capitals(label: Seq<char>, value: Seq<char>, tint: u32)
    ensures
        fact(label, value, tint).heading == text::uppercase_text_of(label),
        fact(label, value, tint).value == value,
        fact(label, value, tint).tint == tint,
{
}

/// The runs of a recurrence are the sum of those of its buckets.
pub proof fn runs_are_added_up(buckets: Seq<FailureRecurrenceBucketV1>)
    ensures
        sum(counts(buckets, BucketCount::Affected)) == affected_runs(buckets),
        sum(counts(buckets, BucketCount::Eligible)) == eligible_runs(buckets),
{
    lemma_runs(buckets);
}

/// The rates that are known are those of the buckets that have one, in order.
pub proof fn known_rates_keep_their_order(
    buckets: Seq<FailureRecurrenceBucketV1>,
    bucket: FailureRecurrenceBucketV1,
)
    ensures
        known_rates(Seq::empty()).len() == 0,
        bucket.recurrence_rate_basis_points is Some ==> known_rates(buckets.push(bucket))
            == known_rates(buckets).push(bucket.recurrence_rate_basis_points->0),
        bucket.recurrence_rate_basis_points is None ==> known_rates(buckets.push(bucket))
            == known_rates(buckets),
{
    assert(buckets.push(bucket).drop_last() =~= buckets);
}

/// A sparkline is labelled and tinted by its trend; that of a recurrence also
/// counts the affected of all eligible runs, and has a bar for each bucket.
pub proof fn sparklines_show_their_trend(
    line: TrendSparkline,
    values: Seq<u64>,
    series: FailureRecurrenceSeriesV1,
)
    ensures
        shows_counts(line, values) ==> line.label@ == trend(values).0 && line.tint == trend(
            values,
        ).1 && line.accessible_label@ == "Occurrence trend: "@ + trend(values).0 && line.bars@
            == count_bars(values, trend(values).1),
        shows_recurrence(line, series) ==> {
            &&& line.label@ == recurrence_trend(series.buckets@).0 + " · "@ + text::decimal(
                affected_runs(series.buckets@),
            ) + " / "@ + text::decimal(eligible_runs(series.buckets@)) + " runs"@
            &&& line.tint == recurrence_trend(series.buckets@).1
            &&& line.accessible_label@ == recurrence_label(series)
            &&& line.bars@.len() == series.buckets@.len()
            &&& forall|i: int|
                0 <= i < series.buckets@.len() ==> #[trigger] line.bars@[i] == bucket_bar(
                    series.buckets@[i],
                )
        },
        bucket_rates(series.buckets@) == text::joined(
            series.buckets@.map_values(|bucket: FailureRecurrenceBucketV1| bucket_rate(bucket)),
            ", "@,
        ),
{
    lemma_runs(series.buckets@);
}

/// The part that a span plays is found in the lower case of its role.
pub proof fn spans_play_the_part_of_their_role(span: SpanRow)
    ensures
        text::occurs_in(text::lowercase_of(span_role(span)), "planner"@) ==> span_role_kind(span)
            == ExecutionRole::Planner,
        span_role_kind(span) == role_kind(text::lowercase_of(span_role(span)), span.category@),
{
}

} // verus!
