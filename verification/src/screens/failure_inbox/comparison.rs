//! Comparing two examples of a failure group.

use super::investigation_state::{self, find_finding};
use super::model::{FailureOccurrence, FindingEvidence};
use super::state::{
    FailureInbox, FailureInboxEvent, Inspector, Investigation, RunComparisonRequestV1,
};
use crate::text::same_text;
use vstd::prelude::*;
use vstd::string::*;

verus! {

/// Whether two occurrences are the same revision of the same run.
pub open spec fn same_revision(left: FailureOccurrence, right: FailureOccurrence) -> bool {
    left.logical_trace_id@ == right.logical_trace_id@ && left.revision == right.revision
}

/// Whether two examples can be compared: they are of one project and one
/// scope, and not the same revision of the same run.
pub open spec fn comparable(baseline: FailureOccurrence, candidate: FailureOccurrence) -> bool {
    &&& baseline.project_id@ == candidate.project_id@
    &&& baseline.scope@ == candidate.scope@
    &&& !same_revision(baseline, candidate)
}

/// The request that compares two examples.
pub open spec fn request_of(
    baseline: FailureOccurrence,
    candidate: FailureOccurrence,
) -> RunComparisonRequestV1 {
    RunComparisonRequestV1 {
        scope: baseline.scope,
        baseline_trace_id: baseline.logical_trace_id,
        baseline_revision: baseline.revision,
        candidate_trace_id: candidate.logical_trace_id,
        candidate_revision: candidate.revision,
    }
}

/// The request that compares two examples, where they can be compared.
pub fn comparison_request(
    baseline: &FailureOccurrence,
    candidate: &FailureOccurrence,
) -> (request: Option<RunComparisonRequestV1>)
    ensures
        request == (if comparable(*baseline, *candidate) {
            Some(request_of(*baseline, *candidate))
        } else {
            None
        }),
{
    if baseline.project_id != candidate.project_id || !baseline.scope.same(&candidate.scope) || (
    baseline.logical_trace_id == candidate.logical_trace_id && baseline.revision
        == candidate.revision) {
        return None;
    }
    Some(
        RunComparisonRequestV1 {
            scope: baseline.scope.copy(),
            baseline_trace_id: baseline.logical_trace_id.clone(),
            baseline_revision: baseline.revision,
            candidate_trace_id: candidate.logical_trace_id.clone(),
            candidate_revision: candidate.revision,
        },
    )
}

/// Whether a page has another finding in another run than the shown one.
pub open spec fn has_other_example(
    evidence: Option<FindingEvidence>,
    occurrences: Seq<FailureOccurrence>,
) -> bool {
    match evidence {
        Some(evidence) => exists|i: int|
            0 <= i < occurrences.len() && differs(#[trigger] occurrences[i], evidence.occurrence),
        None => false,
    }
}

/// Whether an occurrence is another finding in another run.
pub open spec fn differs(occurrence: FailureOccurrence, current: FailureOccurrence) -> bool {
    occurrence.finding.finding_id@ != current.finding.finding_id@ && !same_revision(
        occurrence,
        current,
    )
}

fn any_differs(occurrences: &Vec<FailureOccurrence>, current: &FailureOccurrence) -> (found: bool)
    ensures
        found == exists|i: int|
            0 <= i < occurrences@.len() && differs(#[trigger] occurrences@[i], *current),
{
    let mut index: usize = 0;
    while index < occurrences.len()
        invariant
            index <= occurrences@.len(),
            forall|i: int| 0 <= i < index ==> !differs(#[trigger] occurrences@[i], *current),
        decreases occurrences@.len() - index,
    {
        let occurrence = &occurrences[index];
        if occurrence.finding.finding_id != current.finding.finding_id && (
        occurrence.logical_trace_id != current.logical_trace_id || occurrence.revision
            != current.revision) {
            assert(differs(occurrences@[index as int], *current));
            return true;
        }
        index += 1;
    }
    false
}

/// The base of a comparison, where there is one on the page.
pub open spec fn base_place(investigation: Investigation) -> Option<int> {
    match investigation.compare_base_finding_id {
        Some(base_id) => investigation_state::place_of_finding(
            investigation.occurrences@,
            base_id@,
        ),
        None => None,
    }
}

/// The request that compares the base with a finding of the page.
pub open spec fn request_with(investigation: Investigation, finding_id: Seq<char>) -> Option<
    RunComparisonRequestV1,
> {
    match (
        base_place(investigation),
        investigation_state::place_of_finding(investigation.occurrences@, finding_id),
    ) {
        (Some(base), Some(candidate)) => if comparable(
            investigation.occurrences@[base],
            investigation.occurrences@[candidate],
        ) {
            Some(
                request_of(
                    investigation.occurrences@[base],
                    investigation.occurrences@[candidate],
                ),
            )
        } else {
            None
        },
        _ => None,
    }
}

impl FailureInbox {
    /// Whether there is another example to compare the shown one with.
    pub fn can_compare_examples(&self) -> (can: bool)
        ensures
            can == has_other_example(
                self.investigation.evidence,
                self.investigation.occurrences@,
            ),
    {
        match &self.investigation.evidence {
            Some(evidence) => any_differs(&self.investigation.occurrences, &evidence.occurrence),
            None => false,
        }
    }

    /// Starts to choose an example to compare the shown one with. The
    /// inspector makes room for the examples, which is reported.
    pub fn begin_compare_examples(&mut self) -> (event: Option<FailureInboxEvent>)
        ensures
            !has_other_example(
                old(self).investigation.evidence,
                old(self).investigation.occurrences@,
            ) ==> *final(self) == *old(self) && event is None,
            has_other_example(
                old(self).investigation.evidence,
                old(self).investigation.occurrences@,
            ) ==> {
                &&& *final(self) == (FailureInbox {
                    investigation: Investigation {
                        compare_base_finding_id: old(self).investigation.finding_id,
                        group_details_open: true,
                        ..old(self).investigation
                    },
                    inspector: Inspector { open: false, ..old(self).inspector },
                    ..*old(self)
                })
                &&& event == (if old(self).inspector.open {
                    Some(
                        FailureInboxEvent::InspectorVisibilityChanged {
                            visible: false,
                            auto_open_suppressed: old(self).inspector.auto_open_suppressed,
                        },
                    )
                } else {
                    None
                })
            },
    {
        if !self.can_compare_examples() {
            return None;
        }
        self.investigation.compare_base_finding_id =
        super::model::copy_optional(&self.investigation.finding_id);
        self.investigation.group_details_open = true;
        if self.inspector.open {
            self.inspector.open = false;
            Some(self.inspector_preference())
        } else {
            None
        }
    }

    /// Stops choosing an example to compare with.
    pub fn cancel_compare_examples(&mut self)
        ensures
            *final(self) == (FailureInbox {
                investigation: Investigation {
                    compare_base_finding_id: None,
                    ..old(self).investigation
                },
                ..*old(self)
            }),
    {
        self.investigation.compare_base_finding_id = None;
    }

    /// Compares the base with a finding, where that can be done.
    pub fn compare_with_occurrence(&mut self, candidate_finding_id: &str) -> (event: Option<
        FailureInboxEvent,
    >)
        ensures
            match request_with(old(self).investigation, candidate_finding_id@) {
                Some(request) => {
                    &&& *final(self) == (FailureInbox {
                        investigation: Investigation {
                            compare_base_finding_id: None,
                            group_details_open: false,
                            ..old(self).investigation
                        },
                        ..*old(self)
                    })
                    &&& event == Some(FailureInboxEvent::OpenCompare(request))
                },
                None => *final(self) == *old(self) && event is None,
            },
    {
        let base = match self.comparison_base() {
            Some(base) => base,
            None => {
                return None;
            },
        };
        let candidate = match find_finding(&self.investigation.occurrences, candidate_finding_id) {
            Some(candidate) => candidate,
            None => {
                return None;
            },
        };
        let request = comparison_request(
            &self.investigation.occurrences[base],
            &self.investigation.occurrences[candidate],
        );
        match request {
            Some(request) => {
                self.investigation.compare_base_finding_id = None;
                self.investigation.group_details_open = false;
                Some(FailureInboxEvent::OpenCompare(request))
            },
            None => None,
        }
    }

    fn comparison_base(&self) -> (place: Option<usize>)
        ensures
            place is Some <==> base_place(self.investigation) is Some,
            place is Some ==> place->0 < self.investigation.occurrences@.len() && place->0 as int
                == base_place(self.investigation)->0,
    {
        match &self.investigation.compare_base_finding_id {
            Some(base_id) => find_finding(&self.investigation.occurrences, base_id.as_str()),
            None => None,
        }
    }

    /// Whether a finding is the base of the comparison.
    pub fn is_comparison_base(&self, finding_id: &str) -> (base: bool)
        ensures
            base == (super::model::optional_text(self.investigation.compare_base_finding_id)
                == Some(finding_id@)),
    {
        match &self.investigation.compare_base_finding_id {
            Some(base_id) => same_text(base_id.as_str(), finding_id),
            None => false,
        }
    }

    /// Whether an example can be compared with the base.
    pub fn is_compatible_comparison_target(&self, candidate: &FailureOccurrence) -> (compatible:
        bool)
        ensures
            compatible == (match base_place(self.investigation) {
                Some(base) => comparable(self.investigation.occurrences@[base], *candidate),
                None => false,
            }),
    {
        match self.comparison_base() {
            Some(base) => comparison_request(
                &self.investigation.occurrences[base],
                candidate,
            ).is_some(),
            None => false,
        }
    }
}

/// Comparability does not depend on which example is the base, and no example
/// can be compared with itself.
pub proof fn comparison_is_symmetric(left: FailureOccurrence, right: FailureOccurrence)
    ensures
        comparable(left, right) == comparable(right, left),
        !comparable(left, left),
{
}

/// Two examples can be compared exactly where they are of one project and scope
/// and not the same revision of the same trace.
pub proof fn examples_of_one_scope_are_compared(
    baseline: FailureOccurrence,
    candidate: FailureOccurrence,
)
    ensures
        comparable(baseline, candidate) <==> {
            &&& baseline.project_id@ == candidate.project_id@
            &&& baseline.scope@ == candidate.scope@
            &&& (baseline.logical_trace_id@ != candidate.logical_trace_id@ || baseline.revision
                != candidate.revision)
        },
        request_of(baseline, candidate).scope == baseline.scope,
        request_of(baseline, candidate).baseline_trace_id == baseline.logical_trace_id,
        request_of(baseline, candidate).baseline_revision == baseline.revision,
        request_of(baseline, candidate).candidate_trace_id == candidate.logical_trace_id,
        request_of(baseline, candidate).candidate_revision == candidate.revision,
{
}

/// There is another example exactly where one is of another finding and of
/// another trace or revision than the one that is shown.
pub proof fn other_examples_are_of_other_runs(
    evidence: FindingEvidence,
    occurrences: Seq<FailureOccurrence>,
)
    ensures
        !has_other_example(None, occurrences),
        has_other_example(Some(evidence), occurrences) <==> exists|i: int|
            {
                &&& 0 <= i < occurrences.len()
                &&& (#[trigger] occurrences[i]).finding.finding_id@
                    != evidence.occurrence.finding.finding_id@
                &&& (occurrences[i].logical_trace_id@ != evidence.occurrence.logical_trace_id@
                    || occurrences[i].revision != evidence.occurrence.revision)
            },
{
    if has_other_example(Some(evidence), occurrences) {
        let i = choose|i: int|
            0 <= i < occurrences.len() && differs(#[trigger] occurrences[i], evidence.occurrence);
        assert(occurrences[i].finding.finding_id@ != evidence.occurrence.finding.finding_id@);
    }
}

/// A comparison is from the example that was marked to the chosen one, where
/// both are listed and comparable.
pub proof fn comparisons_go_from_the_marked_example(
    investigation: Investigation,
    finding_id: Seq<char>,
)
    ensures
        investigation.compare_base_finding_id is None ==> request_with(investigation, finding_id)
            is None,
        request_with(investigation, finding_id) is Some ==> exists|base: int, candidate: int|
            {
                let occurrences = investigation.occurrences@;
                &&& 0 <= base < occurrences.len() && 0 <= candidate < occurrences.len()
                &&& investigation.occurrences@[base].finding.finding_id@
                    == investigation.compare_base_finding_id->0@
                &&& investigation.occurrences@[candidate].finding.finding_id@ == finding_id
                &&& comparable(occurrences[base], occurrences[candidate])
                &&& request_with(investigation, finding_id) == Some(
                    request_of(
                        #[trigger] investigation.occurrences@[base],
                        #[trigger] investigation.occurrences@[candidate],
                    ),
                )
            },
{
    match investigation.compare_base_finding_id {
        Some(base_id) => {
            investigation_state::lemma_place_of_finding(investigation.occurrences@, base_id@);
            investigation_state::lemma_place_of_finding(investigation.occurrences@, finding_id);
            if request_with(investigation, finding_id) is Some {
                let base = base_place(investigation)->0;
                let candidate = investigation_state::place_of_finding(
                    investigation.occurrences@,
                    finding_id,
                )->0;
                assert(request_with(investigation, finding_id) == Some(
                    request_of(
                        investigation.occurrences@[base],
                        investigation.occurrences@[candidate],
                    ),
                ));
            }
        },
        None => {},
    }
}

} // verus!
