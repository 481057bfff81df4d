//! The group under investigation, and the example of it that is shown.

use super::model::{
    optional_text, FailureGroupDetail, FailureOccurrence,
    FindingEvidence, QueryScopeCriteriaV1, QueryScopeV1, SpanRow,
};
use super::selection::{self, find_group, occurrence_navigation_state};
use super::state::{
    self, following_request, FailureInbox, FailureInboxEvent, FullTrace, Inspector, InspectorTab,
    Investigation, OCCURRENCE_PAGE_SIZE,
};
use crate::text::same_text;
use vstd::prelude::*;
use vstd::string::*;

verus! {

/// A request for a group and a page of its occurrences.
#[derive(Debug)]
pub struct GroupRequest {
    pub generation: u64,
    pub scope: QueryScopeV1,
    pub group_id: String,
    pub occurrence_offset: u64,
    pub limit: u32,
    pub preferred_finding_id: Option<String>,
}

/// A request for the evidence of a finding.
#[derive(Debug)]
pub struct EvidenceRequest {
    pub generation: u64,
    pub scope: QueryScopeV1,
    pub group_id: String,
    pub finding_id: String,
}

/// A request for another page of occurrences.
#[derive(Debug)]
pub struct OccurrencePageRequest {
    pub generation: u64,
    pub scope: QueryScopeV1,
    pub group_id: String,
    pub offset: u64,
    pub limit: u32,
    pub forward: bool,
}

/// What stepping to another example takes.
#[derive(Debug)]
pub enum OccurrenceStep {
    /// There is no such example.
    Nowhere,
    /// The example is on the loaded page.
    Evidence(EvidenceRequest),
    /// The example is on another page.
    Page(OccurrencePageRequest),
}

/// The first place of a finding on a page.
pub open spec fn place_of_finding(
    occurrences: Seq<FailureOccurrence>,
    finding_id: Seq<char>,
) -> Option<int>
    decreases occurrences.len(),
{
    if occurrences.len() == 0 {
        None
    } else if occurrences[0].finding.finding_id@ == finding_id {
        Some(0)
    } else {
        match place_of_finding(occurrences.drop_first(), finding_id) {
            Some(place) => Some(place + 1),
            None => None,
        }
    }
}

/// The first place of a finding holds it, and no earlier place does.
pub proof fn lemma_place_of_finding(occurrences: Seq<FailureOccurrence>, finding_id: Seq<char>)
    ensures
        match place_of_finding(occurrences, finding_id) {
            Some(place) => {
                &&& 0 <= place < occurrences.len()
                &&& occurrences[place].finding.finding_id@ == finding_id
                &&& forall|i: int|
                    0 <= i < place ==> (#[trigger] occurrences[i]).finding.finding_id@
                        != finding_id
            },
            None => forall|i: int|
                0 <= i < occurrences.len() ==> (#[trigger] occurrences[i]).finding.finding_id@
                    != finding_id,
        },
    decreases occurrences.len(),
{
    if occurrences.len() > 0 && occurrences[0].finding.finding_id@ != finding_id {
        let rest = occurrences.drop_first();
        lemma_place_of_finding(rest, finding_id);
        assert forall|i: int| 0 < i < occurrences.len() implies occurrences[i] == rest[i - 1] by {}
        match place_of_finding(rest, finding_id) {
            Some(place) => {
                assert forall|i: int| 0 <= i < place + 1 implies (
                #[trigger] occurrences[i]).finding.finding_id@ != finding_id by {
                    if i > 0 {
                        assert(rest[i - 1].finding.finding_id@ != finding_id);
                    }
                }
            },
            None => {
                assert forall|i: int| 0 <= i < occurrences.len() implies (
                #[trigger] occurrences[i]).finding.finding_id@ != finding_id by {
                    if i > 0 {
                        assert(rest[i - 1].finding.finding_id@ != finding_id);
                    }
                }
            },
        }
    }
}

/// The first place of a finding on a page.
pub fn find_finding(occurrences: &Vec<FailureOccurrence>, finding_id: &str) -> (found: Option<usize>)
    ensures
        found is Some <==> place_of_finding(occurrences@, finding_id@) is Some,
        found is Some ==> found->0 < occurrences@.len() && found->0 as int == place_of_finding(
            occurrences@,
            finding_id@,
        )->0,
{
    let mut index: usize = 0;
    while index < occurrences.len()
        invariant
            index <= occurrences@.len(),
            forall|i: int|
                0 <= i < index ==> (#[trigger] occurrences@[i]).finding.finding_id@ != finding_id@,
        decreases occurrences@.len() - index,
    {
        if same_text(occurrences[index].finding.finding_id.as_str(), finding_id) {
            proof {
                lemma_place_of_finding(occurrences@, finding_id@);
            }
            return Some(index);
        }
        index += 1;
    }
    proof {
        lemma_place_of_finding(occurrences@, finding_id@);
    }
    None
}

/// What opening a group does: its investigation is shown, and asked for
/// unless it is the one that was loaded last.
pub open spec fn opens(
    before: FailureInbox,
    after: FailureInbox,
    key: (String, String),
    request: Option<GroupRequest>,
) -> bool {
    if is_group(before.investigation.group, key.0@, key.1@) {
        after == before.investigating(key) && request is None
    } else {
        &&& after == before.investigating(key).group_requested(0, None)
        &&& request == Some(
            GroupRequest {
                generation: state::next_request(before.investigation.generation),
                scope: before.group_scope(key.0, key.1@),
                group_id: key.1,
                occurrence_offset: 0,
                limit: OCCURRENCE_PAGE_SIZE,
                preferred_finding_id: None,
            },
        )
    }
}

/// The first of the given steps with an identity.
pub open spec fn span_with_id(spans: Seq<SpanRow>, span_id: Seq<char>) -> Option<SpanRow>
    decreases spans.len(),
{
    if spans.len() == 0 {
        None
    } else if spans[0].span_id@ == span_id {
        Some(spans[0])
    } else {
        span_with_id(spans.drop_first(), span_id)
    }
}

/// The first of the given steps with an identity.
pub fn find_span(spans: &Vec<SpanRow>, span_id: &str) -> (found: Option<SpanRow>)
    ensures
        found == span_with_id(spans@, span_id@),
{
    let mut index: usize = 0;
    assert(spans@.skip(0) =~= spans@);
    while index < spans.len()
        invariant
            index <= spans@.len(),
            span_with_id(spans@, span_id@) == span_with_id(spans@.skip(index as int), span_id@),
        decreases spans@.len() - index,
    {
        proof {
            assert(spans@.skip(index as int)[0] == spans@[index as int]);
            assert(spans@.skip(index as int).drop_first() =~= spans@.skip(index + 1));
        }
        if same_text(spans[index].span_id.as_str(), span_id) {
            return Some(spans[index].copy());
        }
        index += 1;
    }
    None
}

/// The step of the evidence with an identity.
pub open spec fn evidence_span(
    evidence: Option<FindingEvidence>,
    span_id: Option<String>,
) -> Option<SpanRow> {
    match (evidence, span_id) {
        (Some(evidence), Some(span_id)) => span_with_id(evidence.spans@, span_id@),
        _ => None,
    }
}

/// The step of the evidence with an identity.
pub fn find_evidence_span(evidence: &Option<FindingEvidence>, span_id: &Option<String>) -> (found:
    Option<SpanRow>)
    ensures
        found == evidence_span(*evidence, *span_id),
{
    match (evidence, span_id) {
        (Some(evidence), Some(span_id)) => find_span(&evidence.spans, span_id.as_str()),
        _ => None,
    }
}

/// The finding to show of a page: the preferred one where it is there, else
/// the first one.
pub open spec fn finding_to_show(
    occurrences: Seq<FailureOccurrence>,
    preferred: Option<String>,
) -> Option<String> {
    let first = if occurrences.len() == 0 {
        None
    } else {
        Some(occurrences[0].finding.finding_id)
    };
    match preferred {
        Some(finding_id) => if place_of_finding(occurrences, finding_id@) is Some {
            Some(finding_id)
        } else {
            first
        },
        None => first,
    }
}

/// The message of an example that is gone.
pub open spec fn example_gone() -> Seq<char> {
    "The selected example is no longer available in this failure-group snapshot. The previous example is still shown; refresh the group to reconcile live analysis updates."@
}

/// Whether a group is the given one.
pub open spec fn is_group(
    group: Option<FailureGroupDetail>,
    project_id: Seq<char>,
    group_id: Seq<char>,
) -> bool {
    match group {
        Some(group) => group.summary.project_id@ == project_id && group.summary.group_id@
            == group_id,
        None => false,
    }
}

fn group_is(group: &Option<FailureGroupDetail>, project_id: &str, group_id: &str) -> (same: bool)
    ensures
        same == is_group(*group, project_id@, group_id@),
{
    match group {
        Some(group) => same_text(group.summary.project_id.as_str(), project_id) && same_text(
            group.summary.group_id.as_str(),
            group_id,
        ),
        None => false,
    }
}

impl FailureInbox {
    /// The scope in which a group is looked up: its own where the group is
    /// listed or shown, else that of the filters in its project.
    pub open spec fn group_scope(
        self,
        project_id: String,
        group_id: Seq<char>,
    ) -> QueryScopeV1 {
        match selection::place_of_group(self.list.groups@, (project_id@, group_id)) {
            Some(place) => self.list.groups@[place].scope,
            None => if is_group(self.investigation.group, project_id@, group_id) {
                self.investigation.group->0.summary.scope
            } else {
                QueryScopeV1 {
                    criteria: QueryScopeCriteriaV1 {
                        project_id: Some(project_id),
                        ..self.filters.scope.criteria
                    },
                }
            },
        }
    }

    /// The scope in which a group is looked up.
    pub fn scope_for_group(&self, project_id: String, group_id: &str) -> (scope: QueryScopeV1)
        ensures
            scope == self.group_scope(project_id, group_id@),
    {
        match find_group(&self.list.groups, project_id.as_str(), group_id) {
            Some(place) => self.list.groups[place].scope.copy(),
            None => {
                if let Some(group) = &self.investigation.group {
                    if same_text(group.summary.project_id.as_str(), project_id.as_str())
                        && same_text(group.summary.group_id.as_str(), group_id) {
                        return group.summary.scope.copy();
                    }
                }
                let mut criteria = self.filters.scope.criteria.copy();
                criteria.project_id = Some(project_id);
                QueryScopeV1::new(criteria)
            },
        }
    }

    /// The state after asking for a group.
    pub open spec fn group_requested(
        self,
        occurrence_offset: u64,
        preferred_span_id: Option<String>,
    ) -> FailureInbox {
        FailureInbox {
            investigation: Investigation {
                occurrence_offset,
                compare_base_finding_id: None,
                actions_open: false,
                review_open: false,
                loading: true,
                generation: state::next_request(self.investigation.generation),
                evidence_loading: false,
                evidence_generation: state::next_request(self.investigation.evidence_generation),
                pending_span_id: preferred_span_id,
                ..self.investigation
            },
            load_error: None,
            ..self
        }
    }

    /// Asks for a group and its occurrences from `occurrence_offset` on.
    pub fn request_group(
        &mut self,
        project_id: String,
        group_id: String,
        occurrence_offset: u64,
        preferred_finding_id: Option<String>,
        preferred_span_id: Option<String>,
    ) -> (request: GroupRequest)
        ensures
            *final(self) == old(self).group_requested(occurrence_offset, preferred_span_id),
            request == (GroupRequest {
                generation: state::next_request(old(self).investigation.generation),
                scope: old(self).group_scope(project_id, group_id@),
                group_id,
                occurrence_offset,
                limit: OCCURRENCE_PAGE_SIZE,
                preferred_finding_id,
            }),
    {
        self.investigation.occurrence_offset = occurrence_offset;
        self.investigation.compare_base_finding_id = None;
        self.investigation.actions_open = false;
        self.investigation.review_open = false;
        self.investigation.loading = true;
        self.investigation.evidence_loading = false;
        self.investigation.evidence_generation =
        following_request(self.investigation.evidence_generation);
        self.investigation.pending_span_id = preferred_span_id;
        self.load_error = None;
        let scope = self.scope_for_group(project_id, group_id.as_str());
        self.investigation.generation = following_request(self.investigation.generation);
        GroupRequest {
            generation: self.investigation.generation,
            scope,
            group_id,
            occurrence_offset,
            limit: OCCURRENCE_PAGE_SIZE,
            preferred_finding_id,
        }
    }

    /// Asks for a group and its first occurrences.
    pub fn load_group(&mut self, project_id: String, group_id: String) -> (request: GroupRequest)
        ensures
            *final(self) == old(self).group_requested(0, None),
            request == (GroupRequest {
                generation: state::next_request(old(self).investigation.generation),
                scope: old(self).group_scope(project_id, group_id@),
                group_id,
                occurrence_offset: 0,
                limit: OCCURRENCE_PAGE_SIZE,
                preferred_finding_id: None,
            }),
    {
        self.request_group(project_id, group_id, 0, None, None)
    }

    /// The state after asking for the evidence of a finding.
    pub open spec fn evidence_requested(self) -> FailureInbox {
        FailureInbox {
            investigation: Investigation {
                evidence_loading: true,
                evidence_generation: state::next_request(self.investigation.evidence_generation),
                ..self.investigation
            },
            inspector: Inspector { payload: None, ..self.inspector },
            eval: super::eval_generation::EvalBatch { candidate: None, ..self.eval },
            ..self
        }
    }

    /// Asks for the evidence of a finding of the group that is shown.
    pub fn load_occurrence(&mut self, finding_id: String) -> (request: Option<EvidenceRequest>)
        ensures
            match old(self).investigation.group {
                None => *final(self) == *old(self) && request is None,
                Some(group) => {
                    &&& *final(self) == old(self).evidence_requested()
                    &&& request == Some(
                        EvidenceRequest {
                            generation: state::next_request(
                                old(self).investigation.evidence_generation,
                            ),
                            scope: group.summary.scope,
                            group_id: group.summary.group_id,
                            finding_id,
                        },
                    )
                },
            },
    {
        let (scope, group_id) = match &self.investigation.group {
            Some(group) => (group.summary.scope.copy(), group.summary.group_id.clone()),
            None => {
                return None;
            },
        };
        self.investigation.evidence_loading = true;
        self.investigation.evidence_generation =
        following_request(self.investigation.evidence_generation);
        self.eval.candidate = None;
        self.inspector.payload = None;
        Some(
            EvidenceRequest {
                generation: self.investigation.evidence_generation,
                scope,
                group_id,
                finding_id,
            },
        )
    }

    /// Takes a group and its occurrences, and asks for the evidence of the
    /// finding to show. An answer to an earlier request changes nothing.
    pub fn finish_group(
        &mut self,
        generation: u64,
        preferred_finding_id: Option<String>,
        answer: Result<(Option<FailureGroupDetail>, Vec<FailureOccurrence>), String>,
    ) -> (next: Option<EvidenceRequest>)
        ensures
            generation != old(self).investigation.generation ==> *final(self) == *old(self)
                && next is None,
            generation == old(self).investigation.generation ==> match answer {
                Err(error) => {
                    &&& *final(self) == (FailureInbox {
                        investigation: Investigation {
                            loading: false,
                            ..old(self).investigation
                        },
                        load_error: Some(error),
                        ..*old(self)
                    })
                    &&& next is None
                },
                Ok(found) => {
                    let loaded = FailureInbox {
                        investigation: Investigation {
                            loading: false,
                            group: found.0,
                            occurrences: found.1,
                            ..old(self).investigation
                        },
                        load_error: None,
                        ..*old(self)
                    };
                    match (finding_to_show(found.1@, preferred_finding_id), found.0) {
                        (Some(finding_id), Some(group)) => {
                            &&& *final(self) == loaded.evidence_requested()
                            &&& next == Some(
                                EvidenceRequest {
                                    generation: state::next_request(
                                        old(self).investigation.evidence_generation,
                                    ),
                                    scope: group.summary.scope,
                                    group_id: group.summary.group_id,
                                    finding_id,
                                },
                            )
                        },
                        (Some(_), None) => *final(self) == loaded && next is None,
                        (None, _) => {
                            &&& *final(self) == (FailureInbox {
                                investigation: Investigation {
                                    finding_id: None,
                                    evidence: None,
                                    pending_span_id: None,
                                    ..loaded.investigation
                                },
                                inspector: Inspector {
                                    span_id: None,
                                    span: None,
                                    ..loaded.inspector
                                },
                                ..loaded
                            })
                            &&& next is None
                        },
                    }
                },
            },
    {
        if generation != self.investigation.generation {
            return None;
        }
        self.investigation.loading = false;
        match answer {
            Err(error) => {
                self.load_error = Some(error);
                None
            },
            Ok(found) => {
                let (group, occurrences) = found;
                let first = if occurrences.len() == 0 {
                    None
                } else {
                    Some(occurrences[0].finding.finding_id.clone())
                };
                let finding_id = match preferred_finding_id {
                    Some(finding_id) => if find_finding(&occurrences, finding_id.as_str()).is_some() {
                        Some(finding_id)
                    } else {
                        first
                    },
                    None => first,
                };
                self.investigation.group = group;
                self.investigation.occurrences = occurrences;
                self.load_error = None;
                match finding_id {
                    Some(finding_id) => self.load_occurrence(finding_id),
                    None => {
                        self.investigation.finding_id = None;
                        self.investigation.evidence = None;
                        self.inspector.span_id = None;
                        self.inspector.span = None;
                        self.investigation.pending_span_id = None;
                        None
                    },
                }
            },
        }
    }

    /// Takes the evidence of a finding. An answer to an earlier request
    /// changes nothing; where the example is gone, the previous one stays.
    pub fn finish_occurrence(
        &mut self,
        generation: u64,
        finding_id: String,
        answer: Result<Option<FindingEvidence>, String>,
    )
        ensures
            generation != old(self).investigation.evidence_generation ==> *final(self) == *old(self),
            generation == old(self).investigation.evidence_generation ==> match answer {
                Err(error) => *final(self) == (FailureInbox {
                    investigation: Investigation {
                        evidence_loading: false,
                        ..old(self).investigation
                    },
                    load_error: Some(error),
                    ..*old(self)
                }),
                Ok(None) => {
                    &&& *final(self) == (FailureInbox {
                        investigation: Investigation {
                            evidence_loading: false,
                            pending_span_id: None,
                            ..old(self).investigation
                        },
                        load_error: final(self).load_error,
                        ..*old(self)
                    })
                    &&& optional_text(final(self).load_error) == Some(example_gone())
                },
                Ok(Some(evidence)) => {
                    let span_id = match old(self).investigation.pending_span_id {
                        Some(span_id) => Some(span_id),
                        None => if evidence.evidence_span_ids@.len() == 0 {
                            None
                        } else {
                            Some(evidence.evidence_span_ids@[0])
                        },
                    };
                    *final(self) == (FailureInbox {
                        investigation: Investigation {
                            evidence_loading: false,
                            finding_id: Some(finding_id),
                            evidence: Some(evidence),
                            pending_span_id: None,
                            ..old(self).investigation
                        },
                        inspector: Inspector {
                            span_id,
                            span: evidence_span(Some(evidence), span_id),
                            tab: InspectorTab::Finding,
                            ..old(self).inspector
                        },
                        load_error: None,
                        ..*old(self)
                    })
                },
            },
    {
        if generation != self.investigation.evidence_generation {
            return;
        }
        self.investigation.evidence_loading = false;
        match answer {
            Err(error) => {
                self.load_error = Some(error);
            },
            Ok(None) => {
                self.investigation.pending_span_id = None;
                self.load_error =
                Some(
                    "The selected example is no longer available in this failure-group snapshot. The previous example is still shown; refresh the group to reconcile live analysis updates.".to_owned(),
                );
            },
            Ok(Some(evidence)) => {
                let span_id = match self.investigation.pending_span_id.take() {
                    Some(span_id) => Some(span_id),
                    None => if evidence.evidence_span_ids.len() == 0 {
                        None
                    } else {
                        Some(evidence.evidence_span_ids[0].clone())
                    },
                };
                self.investigation.finding_id = Some(finding_id);
                self.investigation.evidence = Some(evidence);
                self.load_error = None;
                self.inspector.span = find_evidence_span(&self.investigation.evidence, &span_id);
                self.inspector.span_id = span_id;
                self.inspector.tab = InspectorTab::Finding;
            },
        }
    }

    /// Shows the list of groups.
    pub fn show_inbox(&mut self)
        ensures
            *final(self) == (FailureInbox {
                showing_inbox: true,
                investigation: Investigation {
                    target: None,
                    compare_base_finding_id: None,
                    actions_open: false,
                    review_open: false,
                    ..old(self).investigation
                },
                trace: FullTrace { open: false, ..old(self).trace },
                ..*old(self)
            }),
    {
        self.showing_inbox = true;
        self.investigation.target = None;
        self.trace.open = false;
        self.investigation.compare_base_finding_id = None;
        self.investigation.actions_open = false;
        self.investigation.review_open = false;
    }

    /// The state that shows the investigation of a group.
    pub open spec fn investigating(self, target: (String, String)) -> FailureInbox {
        FailureInbox {
            showing_inbox: false,
            investigation: Investigation { target: Some(target), ..self.investigation },
            trace: FullTrace { open: false, ..self.trace },
            ..self
        }
    }

    /// Shows the investigation of a group, which is asked for unless it is
    /// the one that is loaded.
    pub fn show_investigation(&mut self, project_id: String, group_id: String) -> (request: Option<
        GroupRequest,
    >)
        ensures
            is_group(old(self).investigation.group, project_id@, group_id@) ==> {
                &&& *final(self) == old(self).investigating((project_id, group_id))
                &&& request is None
            },
            !is_group(old(self).investigation.group, project_id@, group_id@) ==> {
                &&& *final(self) == old(self).investigating((project_id, group_id)).group_requested(
                    0,
                    None,
                )
                &&& request == Some(
                    GroupRequest {
                        generation: state::next_request(old(self).investigation.generation),
                        scope: old(self).group_scope(project_id, group_id@),
                        group_id,
                        occurrence_offset: 0,
                        limit: OCCURRENCE_PAGE_SIZE,
                        preferred_finding_id: None,
                    },
                )
            },
    {
        self.showing_inbox = false;
        self.trace.open = false;
        self.investigation.target = Some((project_id.clone(), group_id.clone()));
        if !group_is(&self.investigation.group, project_id.as_str(), group_id.as_str()) {
            Some(self.load_group(project_id, group_id))
        } else {
            None
        }
    }

    /// Goes back to an example: the group is asked for again.
    pub fn restore_investigation_context(
        &mut self,
        project_id: String,
        group_id: String,
        finding_id: Option<String>,
        occurrence_offset: u64,
        span_id: Option<String>,
    ) -> (request: GroupRequest)
        ensures
            *final(self) == old(self).investigating((project_id, group_id)).group_requested(
                occurrence_offset,
                span_id,
            ),
            request == (GroupRequest {
                generation: state::next_request(old(self).investigation.generation),
                scope: old(self).group_scope(project_id, group_id@),
                group_id,
                occurrence_offset,
                limit: OCCURRENCE_PAGE_SIZE,
                preferred_finding_id: finding_id,
            }),
    {
        self.showing_inbox = false;
        self.trace.open = false;
        self.investigation.target = Some((project_id.clone(), group_id.clone()));
        self.request_group(project_id, group_id, occurrence_offset, finding_id, span_id)
    }

    /// Shows the investigation of a group and tells the workbench.
    pub fn open_group(&mut self, project_id: String, group_id: String) -> (opened: (
        Option<GroupRequest>,
        FailureInboxEvent,
    ))
        ensures
            opened.1 == (FailureInboxEvent::OpenInvestigation { project_id, group_id }),
            opens(*old(self), *final(self), (project_id, group_id), opened.0),
    {
        let request = self.show_investigation(project_id.clone(), group_id.clone());
        (request, FailureInboxEvent::OpenInvestigation { project_id, group_id })
    }

    /// Opens the group that has the focus, while the list is shown.
    pub fn open_focused_group(&mut self) -> (opened: Option<
        (Option<GroupRequest>, FailureInboxEvent),
    >)
        ensures
            match old(self).selection.focused {
                Some(key) => if old(self).showing_inbox {
                    match opened {
                        Some((request, event)) => {
                            &&& event == (FailureInboxEvent::OpenInvestigation {
                                project_id: key.0,
                                group_id: key.1,
                            })
                            &&& opens(*old(self), *final(self), key, request)
                        },
                        None => false,
                    }
                } else {
                    opened is None && *final(self) == *old(self)
                },
                None => opened is None && *final(self) == *old(self),
            },
    {
        if !self.showing_inbox {
            return None;
        }
        let key = match &self.selection.focused {
            Some(key) => (key.0.clone(), key.1.clone()),
            None => {
                return None;
            },
        };
        Some(self.open_group(key.0, key.1))
    }

    /// Shows an example of the group, from its first evidence on.
    pub fn select_occurrence(&mut self, finding_id: String) -> (request: Option<EvidenceRequest>)
        ensures
            match old(self).investigation.group {
                None => {
                    &&& *final(self) == (FailureInbox {
                        investigation: Investigation {
                            pending_span_id: None,
                            ..old(self).investigation
                        },
                        ..*old(self)
                    })
                    &&& request is None
                },
                Some(group) => {
                    let cleared = FailureInbox {
                        investigation: Investigation {
                            pending_span_id: None,
                            ..old(self).investigation
                        },
                        ..*old(self)
                    };
                    &&& *final(self) == cleared.evidence_requested()
                    &&& request == Some(
                        EvidenceRequest {
                            generation: state::next_request(
                                old(self).investigation.evidence_generation,
                            ),
                            scope: group.summary.scope,
                            group_id: group.summary.group_id,
                            finding_id,
                        },
                    )
                },
            },
    {
        self.investigation.pending_span_id = None;
        self.load_occurrence(finding_id)
    }
}

impl Investigation {
    /// The place of the shown example on the loaded page.
    pub open spec fn selected_place(self) -> Option<int> {
        match self.finding_id {
            Some(finding_id) => place_of_finding(self.occurrences@, finding_id@),
            None => None,
        }
    }

    /// How many occurrences the group has.
    pub open spec fn occurrence_total(self) -> u64 {
        match self.group {
            Some(group) => group.summary.occurrence_count,
            None => 0,
        }
    }

    /// The place of the shown example on the loaded page.
    pub fn selected_occurrence_index(&self) -> (index: Option<usize>)
        ensures
            index is Some <==> self.selected_place() is Some,
            index is Some ==> index->0 < self.occurrences@.len() && index->0 as int
                == self.selected_place()->0,
    {
        match &self.finding_id {
            Some(finding_id) => find_finding(&self.occurrences, finding_id.as_str()),
            None => None,
        }
    }

    /// How many occurrences the group has.
    pub fn total(&self) -> (total: u64)
        ensures
            total == self.occurrence_total(),
    {
        match &self.group {
            Some(group) => group.summary.occurrence_count,
            None => 0,
        }
    }

    /// The number of the shown example in the whole group, counted from one.
    pub fn occurrence_position(&self) -> (position: Option<u64>)
        requires
            self.occurrence_offset + self.occurrences@.len() <= u64::MAX,
        ensures
            position is Some <==> self.selected_place() is Some,
            position is Some ==> position->0 == self.occurrence_offset + self.selected_place()->0
                + 1,
    {
        match self.selected_occurrence_index() {
            Some(index) => Some(self.occurrence_offset + index as u64 + 1),
            None => None,
        }
    }

    /// Whether there is an example before the shown one, and one after it.
    pub open spec fn neighbours(self) -> (bool, bool) {
        match self.selected_place() {
            Some(place) => if self.loading || self.evidence_loading {
                (false, false)
            } else {
                (
                    self.occurrence_offset > 0 || place > 0,
                    place + 1 < self.occurrences@.len() || self.occurrence_offset
                        + self.occurrences@.len() < self.occurrence_total(),
                )
            },
            None => (false, false),
        }
    }

    /// Whether there is an example to step to.
    pub fn can_navigate_occurrence(&self, forward: bool) -> (can: bool)
        requires
            self.occurrence_offset + self.occurrences@.len() <= u64::MAX,
        ensures
            can == (if forward {
                self.neighbours().1
            } else {
                self.neighbours().0
            }),
    {
        if self.loading || self.evidence_loading {
            return false;
        }
        let index = match self.selected_occurrence_index() {
            Some(index) => index,
            None => {
                return false;
            },
        };
        let (previous, next) = occurrence_navigation_state(
            self.occurrence_offset,
            index,
            self.occurrences.len(),
            self.total(),
        );
        if forward {
            next
        } else {
            previous
        }
    }

    /// The page to load to step past the loaded one.
    pub open spec fn page_beyond(self, forward: bool) -> Option<u64> {
        if forward {
            if self.occurrence_offset + self.occurrences@.len() < self.occurrence_total() {
                Some((self.occurrence_offset + self.occurrences@.len()) as u64)
            } else {
                None
            }
        } else if self.occurrence_offset == 0 {
            None
        } else if self.occurrence_offset < OCCURRENCE_PAGE_SIZE {
            Some(0)
        } else {
            Some((self.occurrence_offset - OCCURRENCE_PAGE_SIZE) as u64)
        }
    }

    /// The place to step to on the loaded page.
    pub open spec fn next_place(self, forward: bool) -> Option<int> {
        match self.selected_place() {
            Some(place) => if forward {
                if place + 1 < self.occurrences@.len() {
                    Some(place + 1)
                } else {
                    None
                }
            } else if place > 0 {
                Some(place - 1)
            } else {
                None
            },
            None => None,
        }
    }
}

impl FailureInbox {
    /// Steps to the next or the previous example of the group, on the loaded
    /// page or on the page beyond it.
    pub fn navigate_occurrence(&mut self, forward: bool) -> (step: OccurrenceStep)
        requires
            old(self).investigation.occurrence_offset + old(self).investigation.occurrences@.len() <= u64::MAX,
        ensures
            match (old(self).investigation.group, old(self).investigation.selected_place()) {
                (Some(group), Some(_)) => match (
                    old(self).investigation.next_place(forward),
                    old(self).investigation.page_beyond(forward),
                ) {
                    (Some(place), _) => {
                        let cleared = FailureInbox {
                            investigation: Investigation {
                                pending_span_id: None,
                                ..old(self).investigation
                            },
                            ..*old(self)
                        };
                        &&& *final(self) == cleared.evidence_requested()
                        &&& step == OccurrenceStep::Evidence(
                            EvidenceRequest {
                                generation: state::next_request(
                                    old(self).investigation.evidence_generation,
                                ),
                                scope: group.summary.scope,
                                group_id: group.summary.group_id,
                                finding_id: old(self).investigation.occurrences@[place].finding.finding_id,
                            },
                        )
                    },
                    (None, Some(offset)) => {
                        &&& *final(self) == (FailureInbox {
                            investigation: Investigation {
                                loading: true,
                                generation: state::next_request(
                                    old(self).investigation.generation,
                                ),
                                ..old(self).investigation
                            },
                            ..*old(self)
                        })
                        &&& step == OccurrenceStep::Page(
                            OccurrencePageRequest {
                                generation: state::next_request(
                                    old(self).investigation.generation,
                                ),
                                scope: group.summary.scope,
                                group_id: group.summary.group_id,
                                offset,
                                limit: OCCURRENCE_PAGE_SIZE,
                                forward,
                            },
                        )
                    },
                    (None, None) => *final(self) == *old(self) && step
                        == OccurrenceStep::Nowhere,
                },
                _ => *final(self) == *old(self) && step == OccurrenceStep::Nowhere,
            },
    {
        let (scope, group_id) = match &self.investigation.group {
            Some(group) => (group.summary.scope.copy(), group.summary.group_id.clone()),
            None => {
                return OccurrenceStep::Nowhere;
            },
        };
        let index = match self.investigation.selected_occurrence_index() {
            Some(index) => index,
            None => {
                return OccurrenceStep::Nowhere;
            },
        };
        let next_index = if forward {
            if self.investigation.occurrences.len() - index > 1 {
                Some(index + 1)
            } else {
                None
            }
        } else if index > 0 {
            Some(index - 1)
        } else {
            None
        };
        if let Some(next_index) = next_index {
            let finding_id = self.investigation.occurrences[next_index].finding.finding_id.clone();
            self.investigation.pending_span_id = None;
            return match self.load_occurrence(finding_id) {
                Some(request) => OccurrenceStep::Evidence(request),
                None => OccurrenceStep::Nowhere,
            };
        }
        let total = self.investigation.total();
        let new_offset: Option<u64> = if forward {
            let offset: u64 = self.investigation.occurrence_offset
                + self.investigation.occurrences.len() as u64;
            if offset < total {
                Some(offset)
            } else {
                None
            }
        } else if self.investigation.occurrence_offset > 0 {
            Some(
                self.investigation.occurrence_offset.saturating_sub(OCCURRENCE_PAGE_SIZE as u64),
            )
        } else {
            None
        };
        match new_offset {
            Some(offset) => {
                self.investigation.loading = true;
                self.investigation.generation = following_request(self.investigation.generation);
                OccurrenceStep::Page(
                    OccurrencePageRequest {
                        generation: self.investigation.generation,
                        scope,
                        group_id,
                        offset,
                        limit: OCCURRENCE_PAGE_SIZE,
                        forward,
                    },
                )
            },
            None => OccurrenceStep::Nowhere,
        }
    }

    /// Takes another page of occurrences: its first example is shown when
    /// stepping forward, its last one when stepping back. An answer to an
    /// earlier request changes nothing.
    pub fn finish_navigation(
        &mut self,
        generation: u64,
        offset: u64,
        forward: bool,
        answer: Result<Vec<FailureOccurrence>, String>,
    ) -> (next: Option<EvidenceRequest>)
        ensures
            generation != old(self).investigation.generation ==> *final(self) == *old(self)
                && next is None,
            generation == old(self).investigation.generation ==> match answer {
                Err(error) => {
                    &&& *final(self) == (FailureInbox {
                        investigation: Investigation {
                            loading: false,
                            ..old(self).investigation
                        },
                        load_error: Some(error),
                        ..*old(self)
                    })
                    &&& next is None
                },
                Ok(occurrences) => {
                    let loaded = FailureInbox {
                        investigation: Investigation {
                            loading: false,
                            occurrence_offset: offset,
                            occurrences,
                            ..old(self).investigation
                        },
                        ..*old(self)
                    };
                    if occurrences@.len() == 0 {
                        *final(self) == loaded && next is None
                    } else {
                        let cleared = FailureInbox {
                            investigation: Investigation {
                                pending_span_id: None,
                                ..loaded.investigation
                            },
                            ..loaded
                        };
                        let shown = if forward {
                            occurrences@[0]
                        } else {
                            occurrences@.last()
                        };
                        match old(self).investigation.group {
                            Some(group) => {
                                &&& *final(self) == cleared.evidence_requested()
                                &&& next == Some(
                                    EvidenceRequest {
                                        generation: state::next_request(
                                            old(self).investigation.evidence_generation,
                                        ),
                                        scope: group.summary.scope,
                                        group_id: group.summary.group_id,
                                        finding_id: shown.finding.finding_id,
                                    },
                                )
                            },
                            None => *final(self) == cleared && next is None,
                        }
                    }
                },
            },
    {
        if generation != self.investigation.generation {
            return None;
        }
        self.investigation.loading = false;
        match answer {
            Err(error) => {
                self.load_error = Some(error);
                None
            },
            Ok(occurrences) => {
                let finding_id = if occurrences.len() == 0 {
                    None
                } else if forward {
                    Some(occurrences[0].finding.finding_id.clone())
                } else {
                    Some(occurrences[occurrences.len() - 1].finding.finding_id.clone())
                };
                self.investigation.occurrence_offset = offset;
                self.investigation.occurrences = occurrences;
                match finding_id {
                    Some(finding_id) => {
                        self.investigation.pending_span_id = None;
                        self.load_occurrence(finding_id)
                    },
                    None => None,
                }
            },
        }
    }
}

/// Stepping goes where the toolbar says that it can: there is an example to
/// step to if and only if it is on the loaded page or on the page beyond it.
pub proof fn stepping_agrees_with_navigation(investigation: Investigation, forward: bool)
    requires
        !investigation.loading,
        !investigation.evidence_loading,
        investigation.selected_place() is Some,
    ensures
        (if forward {
            investigation.neighbours().1
        } else {
            investigation.neighbours().0
        }) == (investigation.next_place(forward) is Some || investigation.page_beyond(forward)
            is Some),
{
    lemma_place_of_finding(investigation.occurrences@, investigation.finding_id->0@);
}

/// Opening a group that is shown asks for nothing; any other is asked for from
/// its first hundred examples, in the scope of the list.
pub proof fn opened_groups_are_loaded_once(
    before: FailureInbox,
    after: FailureInbox,
    key: (String, String),
    request: Option<GroupRequest>,
)
    requires
        opens(before, after, key, request),
    ensures
        after.investigation.target == Some(key),
        !after.showing_inbox,
        !after.trace.open,
        before.investigation.group is Some && before.investigation.group->0.summary.project_id@
            == key.0@ && before.investigation.group->0.summary.group_id@ == key.1@ ==> request
            is None && after.investigation.loading == before.investigation.loading,
        before.investigation.group is None || before.investigation.group->0.summary.project_id@
            != key.0@ || before.investigation.group->0.summary.group_id@ != key.1@ ==> {
            &&& request is Some
            &&& request->0.group_id == key.1
            &&& request->0.occurrence_offset == 0
            &&& request->0.limit == 100
            &&& request->0.preferred_finding_id is None
            &&& request->0.generation == after.investigation.generation
            &&& request->0.generation != before.investigation.generation
            &&& request->0.scope == before.group_scope(key.0, key.1@)
            &&& after.investigation.loading
            &&& after.investigation.occurrence_offset == 0
            &&& after.load_error is None
        },
{
}

/// A group is asked for in the scope that the list gives it, then in that of
/// the group that is shown, and else in the filters' scope of its project.
pub proof fn groups_are_asked_for_in_their_scope(
    inbox: FailureInbox,
    project_id: String,
    group_id: Seq<char>,
)
    ensures
        ({
            let scope = inbox.group_scope(project_id, group_id);
            match selection::place_of_group(inbox.list.groups@, (project_id@, group_id)) {
                Some(place) => scope == inbox.list.groups@[place].scope,
                None => if inbox.investigation.group is Some
                    && inbox.investigation.group->0.summary.project_id@ == project_id@
                    && inbox.investigation.group->0.summary.group_id@ == group_id {
                    scope == inbox.investigation.group->0.summary.scope
                } else {
                    &&& scope.criteria.project_id == Some(project_id)
                    &&& scope.criteria.environment == inbox.filters.scope.criteria.environment
                    &&& scope.criteria.build_id == inbox.filters.scope.criteria.build_id
                    &&& scope.criteria.session_id == inbox.filters.scope.criteria.session_id
                    &&& scope.criteria.service_name == inbox.filters.scope.criteria.service_name
                },
            }
        }),
{
}

/// A span is found at the first place that has its identity, and not at all
/// where none has it.
pub proof fn spans_are_found_by_identity(spans: Seq<SpanRow>, span_id: Seq<char>)
    ensures
        match span_with_id(spans, span_id) {
            Some(span) => exists|i: int|
                {
                    &&& 0 <= i < spans.len()
                    &&& #[trigger] spans[i] == span
                    &&& span.span_id@ == span_id
                    &&& forall|j: int| 0 <= j < i ==> (#[trigger] spans[j]).span_id@ != span_id
                },
            None => forall|i: int|
                0 <= i < spans.len() ==> (#[trigger] spans[i]).span_id@ != span_id,
        },
    decreases spans.len(),
{
    if spans.len() > 0 && spans[0].span_id@ != span_id {
        let rest = spans.drop_first();
        spans_are_found_by_identity(rest, span_id);
        match span_with_id(rest, span_id) {
            Some(span) => {
                let i = choose|i: int|
                    {
                        &&& 0 <= i < rest.len()
                        &&& #[trigger] rest[i] == span
                        &&& span.span_id@ == span_id
                        &&& forall|j: int| 0 <= j < i ==> (#[trigger] rest[j]).span_id@ != span_id
                    };
                assert(spans[i + 1] == rest[i]);
                assert forall|j: int| 0 <= j < i + 1 implies (#[trigger] spans[j]).span_id@
                    != span_id by {
                    if j > 0 {
                        assert(rest[j - 1] == spans[j]);
                    }
                }
            },
            None => {
                assert forall|i: int| 0 <= i < spans.len() implies (#[trigger] spans[i]).span_id@
                    != span_id by {
                    if i > 0 {
                        assert(rest[i - 1] == spans[i]);
                    }
                }
            },
        }
    }
}

/// The preferred example is shown where it is listed, and else the first one.
pub proof fn preferred_examples_are_shown_where_listed(
    occurrences: Seq<FailureOccurrence>,
    preferred: String,
    place: int,
)
    ensures
        0 <= place < occurrences.len() && occurrences[place].finding.finding_id@ == preferred@
            ==> finding_to_show(occurrences, Some(preferred)) == Some(preferred),
        occurrences.len() > 0 ==> finding_to_show(occurrences, None) == Some(
            occurrences[0].finding.finding_id,
        ),
        occurrences.len() > 0 && (forall|i: int|
            0 <= i < occurrences.len() ==> (#[trigger] occurrences[i]).finding.finding_id@
                != preferred@) ==> finding_to_show(occurrences, Some(preferred)) == Some(
            occurrences[0].finding.finding_id,
        ),
        occurrences.len() == 0 ==> finding_to_show(occurrences, Some(preferred)) is None
            && finding_to_show(occurrences, None) is None,
{
    lemma_place_of_finding(occurrences, preferred@);
}

/// There is an example before the shown one unless it is the first of all, and
/// one after it unless it is the last of all; none can be stepped to while
/// anything loads.
pub proof fn steps_reach_every_example(investigation: Investigation)
    requires
        investigation.selected_place() is Some,
    ensures
        ({
            let place = investigation.selected_place()->0;
            let number = investigation.occurrence_offset + place;
            let listed = investigation.occurrences@.len();
            let total = match investigation.group {
                Some(group) => group.summary.occurrence_count as int,
                None => 0int,
            };
            let idle = !investigation.loading && !investigation.evidence_loading;
            &&& investigation.neighbours().0 <==> idle && number > 0
            &&& total >= investigation.occurrence_offset + listed ==> (
            investigation.neighbours().1 <==> idle && number + 1 < total || idle && place + 1
                < listed)
            &&& place + 1 < listed ==> investigation.next_place(true) == Some(place + 1)
            &&& place + 1 >= listed ==> investigation.next_place(true) is None
            &&& place > 0 ==> investigation.next_place(false) == Some(place - 1)
            &&& place == 0 ==> investigation.next_place(false) is None
            &&& investigation.page_beyond(true) is Some <==> investigation.occurrence_offset
                + listed < total
            &&& investigation.page_beyond(true) is Some ==> investigation.page_beyond(true)->0
                == investigation.occurrence_offset + listed
            &&& investigation.page_beyond(false) is Some <==> investigation.occurrence_offset > 0
            &&& investigation.occurrence_offset >= 100 ==> investigation.page_beyond(false)->0
                == investigation.occurrence_offset - 100
            &&& 0 < investigation.occurrence_offset < 100 ==> investigation.page_beyond(false)
                == Some(0u64)
        }),
        investigation.finding_id is Some,
        investigation.occurrences@[investigation.selected_place()->0].finding.finding_id@
            == investigation.finding_id->0@,
{
    lemma_place_of_finding(investigation.occurrences@, investigation.finding_id->0@);
}

/// Asking for a page closes what is open on the group and supersedes what was
/// asked for before; asking for evidence drops what depends on the evidence.
pub proof fn requests_close_what_they_replace(
    inbox: FailureInbox,
    offset: u64,
    span_id: Option<String>,
)
    ensures
        ({
            let after = inbox.group_requested(offset, span_id);
            &&& after.investigation.occurrence_offset == offset
            &&& after.investigation.pending_span_id == span_id
            &&& after.investigation.loading && !after.investigation.evidence_loading
            &&& !after.investigation.actions_open && !after.investigation.review_open
            &&& after.investigation.compare_base_finding_id is None
            &&& after.investigation.generation != inbox.investigation.generation
            &&& after.investigation.evidence_generation != inbox.investigation.evidence_generation
            &&& after.investigation.target == inbox.investigation.target
            &&& after.investigation.finding_id == inbox.investigation.finding_id
            &&& after.load_error is None
        }),
        inbox.evidence_requested().investigation.evidence_loading,
        inbox.evidence_requested().investigation.evidence_generation
            != inbox.investigation.evidence_generation,
        inbox.evidence_requested().inspector.payload is None,
        inbox.evidence_requested().eval.candidate is None,
        inbox.evidence_requested().investigation.generation == inbox.investigation.generation,
        inbox.evidence_requested().load_error == inbox.load_error,
{
}

/// An example that is gone is said to be, and that the previous one is still
/// shown.
pub proof fn gone_examples_are_said_so()
    ensures
        example_gone()
            == "The selected example is no longer available in this failure-group snapshot. The previous example is still shown; refresh the group to reconcile live analysis updates."@,
{
}

/// The span that is looked at is the evidence's span of its identity.
pub proof fn looked_at_spans_are_of_the_evidence(
    evidence: FindingEvidence,
    span_id: String,
)
    ensures
        evidence_span(None, Some(span_id)) is None,
        evidence_span(Some(evidence), None) is None,
        evidence_span(Some(evidence), Some(span_id)) == span_with_id(
            evidence.spans@,
            span_id@,
        ),
{
}

/// Investigating a group leaves the list and closes the trace.
pub proof fn investigations_leave_the_list(inbox: FailureInbox, target: (String, String))
    ensures
        !inbox.investigating(target).showing_inbox,
        !inbox.investigating(target).trace.open,
        inbox.investigating(target).investigation.target == Some(target),
        inbox.investigating(target).investigation.group == inbox.investigation.group,
        inbox.investigating(target).list == inbox.list,
        inbox.investigating(target).selection == inbox.selection,
{
}

} // verus!
