//! Ordering of a committed update stream.

use vstd::prelude::*;

verus! {

/// How an update relates to the ones seen before.
#[derive(Debug, Clone, Copy, PartialEq, Eq, Structural)]
pub enum SequenceStatus {
    InOrder,
    Duplicate,
    Gap { expected: u64, received: u64 },
}

/// Tracks the last committed update.
#[derive(Debug, Clone, Copy, PartialEq, Eq, Structural)]
pub struct SequenceTracker {
    last_committed: u64,
}

impl View for SequenceTracker {
    type V = u64;

    closed spec fn view(&self) -> u64 {
        self.last_committed
    }
}

/// What is reported of update `sequence` when `last` was the last committed one.
pub open spec fn sequence_status(last: u64, sequence: u64) -> SequenceStatus {
    if sequence <= last {
        SequenceStatus::Duplicate
    } else if sequence == last + 1 {
        SequenceStatus::InOrder
    } else {
        SequenceStatus::Gap { expected: (last + 1) as u64, received: sequence }
    }
}

/// The last committed update after `sequence` was observed.
pub open spec fn sequence_after(last: u64, sequence: u64) -> u64 {
    if sequence <= last {
        last
    } else {
        sequence
    }
}

impl Default for SequenceTracker {
    fn default() -> (tracker: Self)
        ensures
            tracker@ == 0,
    {
        SequenceTracker { last_committed: 0 }
    }
}

impl SequenceTracker {
    /// A tracker that starts behind a snapshot.
    pub fn from_snapshot(sequence: u64) -> (tracker: Self)
        ensures
            tracker@ == sequence,
    {
        SequenceTracker { last_committed: sequence }
    }

    /// The last committed update.
    pub fn last_committed(&self) -> (sequence: u64)
        ensures
            sequence == self@,
    {
        self.last_committed
    }

    /// Takes note of an update and says how it relates to the ones before.
    pub fn observe(&mut self, sequence: u64) -> (status: SequenceStatus)
        ensures
            status == sequence_status(old(self)@, sequence),
            final(self)@ == sequence_after(old(self)@, sequence),
    {
        if sequence <= self.last_committed {
            return SequenceStatus::Duplicate;
        }
        let expected = self.last_committed.saturating_add(1);
        self.last_committed = sequence;
        if sequence == expected {
            SequenceStatus::InOrder
        } else {
            SequenceStatus::Gap { expected, received: sequence }
        }
    }

    /// Continues behind a new snapshot.
    pub fn resync(&mut self, sequence: u64)
        ensures
            final(self)@ == sequence,
    {
        self.last_committed = sequence;
    }
}

/// The last committed update never moves back, and an update seen once is a
/// duplicate from then on.
pub proof fn observation_is_monotone(last: u64, sequence: u64)
    ensures
        last <= sequence_after(last, sequence),
        sequence <= sequence_after(last, sequence),
        sequence_status(sequence_after(last, sequence), sequence) is Duplicate,
        sequence_after(sequence_after(last, sequence), sequence) == sequence_after(last, sequence),
{
}

/// Whether one update number lies below another.
pub open spec fn lies_below(low: u64, high: u64) -> bool {
    low < high
}

/// A gap is reported exactly when at least one update is missing in between.
pub proof fn gaps_are_exact(last: u64, sequence: u64)
    ensures
        sequence_status(last, sequence) is Gap <==> (exists|missing: u64|
            last < missing && #[trigger] lies_below(missing, sequence)),
{
    if last + 1 < sequence {
        let missing = (last + 1) as u64;
        assert(lies_below(missing, sequence));
    }
}

/// A commit follows the last one, repeats an earlier one or leaves a gap, and
/// the last commit seen is the highest.
pub proof fn commits_follow_repeat_or_skip(last: u64, sequence: u64)
    ensures
        sequence <= last ==> sequence_status(last, sequence) == SequenceStatus::Duplicate
            && sequence_after(last, sequence) == last,
        sequence == last + 1 ==> sequence_status(last, sequence) == SequenceStatus::InOrder,
        sequence > last + 1 ==> sequence_status(last, sequence) == (SequenceStatus::Gap {
            expected: (last + 1) as u64,
            received: sequence,
        }),
        sequence > last ==> sequence_after(last, sequence) == sequence,
{
}

} // verus!
