//! Live updates, changes of scope, and recovery from errors.

use super::filter_menu;
use super::full_trace_state::TraceLoads;
use super::groups::GroupPageRequest;
use super::investigation_state::GroupRequest;
use super::model::{copy_optional, QueryScopeCriteriaV1, QueryScopeV1, SourceHealth};
use super::state::{
    self, FailureInbox, GroupPages, Inspector, Investigation, LiveState, ProjectScope,
    QueryScope, OCCURRENCE_PAGE_SIZE,
};
use vstd::prelude::*;
use vstd::string::*;

verus! {

/// What a change of the trace data is about.
#[derive(Debug, Clone, Copy, PartialEq, Eq, Structural)]
pub enum TraceChangeKind {
    FindingsCommitted,
    Reanalyzing,
    AnalysisFailed,
    Other,
}

/// A change of the trace data.
#[derive(Debug, Clone, Copy, PartialEq, Eq, Structural)]
pub struct TraceDelta {
    pub commit_sequence: u64,
    pub change: TraceChangeKind,
}

/// Whether a change affects the findings.
pub open spec fn affects_findings(change: TraceChangeKind) -> bool {
    change != TraceChangeKind::Other
}

/// What is known of the data after a change: one that does not follow the
/// last one directly shows that others are missing.
pub open spec fn after_delta(live: LiveState, delta: TraceDelta) -> LiveState {
    LiveState {
        last_sequence: if delta.commit_sequence > live.last_sequence {
            delta.commit_sequence
        } else {
            live.last_sequence
        },
        delayed: live.delayed || delta.commit_sequence > live.last_sequence + 1,
        ..live
    }
}

/// What is known of the data after a batch of changes, which are looked at
/// up to the first one that affects the findings; and whether there is one.
pub open spec fn after_deltas(live: LiveState, deltas: Seq<TraceDelta>) -> (LiveState, bool)
    decreases deltas.len(),
{
    if deltas.len() == 0 {
        (live, false)
    } else {
        let next = after_delta(live, deltas[0]);
        if affects_findings(deltas[0].change) {
            (next, true)
        } else {
            after_deltas(next, deltas.drop_first())
        }
    }
}

/// What follows from a batch of changes.
#[derive(Debug)]
pub struct DeltaEffect {
    /// Whether the number of runs and the groups are to be read again.
    pub refresh: bool,
    /// Whether the workbench is told that trace data changed.
    pub trace_data_changed: bool,
}

impl FailureInbox {
    /// Takes a batch of changes.
    pub fn apply_deltas(&mut self, deltas: &Vec<TraceDelta>) -> (effect: DeltaEffect)
        ensures
            *final(self) == (FailureInbox {
                live: after_deltas(old(self).live, deltas@).0,
                ..*old(self)
            }),
            effect.refresh == after_deltas(old(self).live, deltas@).1,
            effect.trace_data_changed == (deltas@.len() > 0),
    {
        let trace_data_changed = deltas.len() > 0;
        let mut index: usize = 0;
        assert(deltas@.skip(0) =~= deltas@);
        while index < deltas.len()
            invariant
                index <= deltas@.len(),
                trace_data_changed == (deltas@.len() > 0),
                *self == (FailureInbox { live: self.live, ..*old(self) }),
                after_deltas(old(self).live, deltas@) == after_deltas(
                    self.live,
                    deltas@.skip(index as int),
                ),
            decreases deltas@.len() - index,
        {
            let delta = deltas[index];
            proof {
                assert(deltas@.skip(index as int)[0] == delta);
                assert(deltas@.skip(index as int).drop_first() =~= deltas@.skip(index + 1));
            }
            if delta.commit_sequence != self.live.last_sequence.saturating_add(1)
                && delta.commit_sequence > self.live.last_sequence {
                self.live.delayed = true;
            }
            if delta.commit_sequence > self.live.last_sequence {
                self.live.last_sequence = delta.commit_sequence;
            }
            let affects = match delta.change {
                TraceChangeKind::Other => false,
                _ => true,
            };
            if affects {
                return DeltaEffect { refresh: true, trace_data_changed };
            }
            index += 1;
        }
        DeltaEffect { refresh: false, trace_data_changed }
    }

    /// Takes the number of runs, where it could be read.
    pub fn set_run_count(&mut self, run_count: Option<u64>)
        ensures
            *final(self) == (FailureInbox {
                live: LiveState {
                    run_count: match run_count {
                        Some(run_count) => run_count,
                        None => old(self).live.run_count,
                    },
                    ..old(self).live
                },
                ..*old(self)
            }),
    {
        if let Some(run_count) = run_count {
            self.live.run_count = run_count;
        }
    }

    /// Takes what the analysis is busy with, where it could be read.
    pub fn set_health(&mut self, health: Option<SourceHealth>)
        ensures
            *final(self) == (FailureInbox {
                live: LiveState {
                    health: match health {
                        Some(health) => health,
                        None => old(self).live.health,
                    },
                    ..old(self).live
                },
                ..*old(self)
            }),
    {
        if let Some(health) = health {
            self.live.health = health;
        }
    }

    /// Starts over from a snapshot after changes were missed.
    pub fn resynchronize(
        &mut self,
        health: SourceHealth,
        run_count: u64,
        commit_sequence: u64,
        top_index: usize,
    ) -> (request: GroupPageRequest)
        ensures
            *final(self) == (FailureInbox {
                live: LiveState {
                    health,
                    run_count,
                    last_sequence: commit_sequence,
                    delayed: false,
                },
                list: GroupPages {
                    loading: true,
                    generation: state::next_request(old(self).list.generation),
                    ..old(self).list
                },
                ..*old(self)
            }),
            request == filter_menu::reload_request(*old(self), top_index as nat),
    {
        self.live = LiveState { health, run_count, last_sequence: commit_sequence, delayed: false };
        self.reload_groups(top_index)
    }

    /// Takes that no snapshot could be had.
    pub fn lose_updates(&mut self, error: String)
        ensures
            *final(self) == (FailureInbox {
                live: LiveState { delayed: true, ..old(self).live },
                load_error: Some(error),
                ..*old(self)
            }),
    {
        self.live.delayed = true;
        self.load_error = Some(error);
    }

    /// Shows another scope, which starts at `started_after_unix_nano`: what
    /// was chosen and loaded in the old one is dropped.
    pub fn set_query_scope(
        &mut self,
        scope: QueryScope,
        started_after_unix_nano: Option<u64>,
        top_index: usize,
    ) -> (request: Option<GroupPageRequest>)
        requires
            old(self).wf(),
        ensures
            final(self).wf(),
            old(self).query_scope@ == scope@ ==> request is None && *final(self) == *old(self),
            old(self).query_scope@ != scope@ ==> {
                let filters = super::model::FailureFiltersV1 {
                    scope: QueryScopeV1 {
                        criteria: QueryScopeCriteriaV1 {
                            project_id: match scope.project {
                                ProjectScope::Project(project_id) => Some(project_id),
                                ProjectScope::AllProjects => None,
                            },
                            environment: scope.environment,
                            build_id: scope.build,
                            session_id: scope.session,
                            service_name: old(self).filters.scope.criteria.service_name,
                            started_after_unix_nano,
                            started_before_unix_nano: None,
                        },
                    },
                    ..old(self).filters
                };
                &&& *final(self) == (FailureInbox {
                    query_scope: scope,
                    filters,
                    selection: final(self).selection,
                    investigation: Investigation {
                        group: None,
                        occurrences: final(self).investigation.occurrences,
                        evidence: None,
                        ..old(self).investigation
                    },
                    inspector: Inspector { span_id: None, span: None, ..old(self).inspector },
                    eval: super::eval_generation::EvalBatch {
                        preview: None,
                        job: None,
                        ..old(self).eval
                    },
                    list: GroupPages {
                        loading: true,
                        generation: state::next_request(old(self).list.generation),
                        ..old(self).list
                    },
                    ..*old(self)
                })
                &&& final(self).selection@ == (super::selection::SelectionState {
                    focused: None,
                    selected: Set::empty(),
                    anchor: None,
                })
                &&& final(self).investigation.occurrences@.len() == 0
                &&& request == Some(
                    GroupPageRequest {
                        filters,
                        previous_focus: None,
                        ..filter_menu::reload_request(*old(self), top_index as nat)
                    },
                )
            },
    {
        if self.query_scope.same(&scope) {
            return None;
        }
        let project_id = match &scope.project {
            ProjectScope::Project(project_id) => Some(project_id.clone()),
            ProjectScope::AllProjects => None,
        };
        self.filters.scope =
        QueryScopeV1::new(
            QueryScopeCriteriaV1 {
                project_id,
                environment: copy_optional(&scope.environment),
                build_id: copy_optional(&scope.build),
                session_id: copy_optional(&scope.session),
                service_name: copy_optional(&self.filters.scope.criteria.service_name),
                started_after_unix_nano,
                started_before_unix_nano: None,
            },
        );
        self.query_scope = scope;
        self.selection.clear();
        self.investigation.group = None;
        self.investigation.occurrences = Vec::new();
        self.investigation.evidence = None;
        self.inspector.span_id = None;
        self.inspector.span = None;
        self.eval.preview = None;
        self.eval.job = None;
        Some(self.reload_groups(top_index))
    }

    /// Forgets the error.
    pub fn dismiss_load_error(&mut self)
        ensures
            *final(self) == (FailureInbox { load_error: None, ..*old(self) }),
    {
        self.load_error = None;
    }

    /// The group that is shown or was asked for last.
    pub open spec fn group_in_view(self) -> Option<(String, String)> {
        match self.investigation.target {
            Some(target) => Some(target),
            None => match self.investigation.group {
                Some(group) => Some((group.summary.project_id, group.summary.group_id)),
                None => None,
            },
        }
    }

    /// Asks again for what is shown: the trace, the groups, or the group.
    pub fn retry_current_view(&mut self, top_index: usize) -> (retry: Retry)
        requires
            old(self).wf(),
        ensures
            final(self).wf(),
            ({
                let cleared = FailureInbox { load_error: None, ..*old(self) };
                if old(self).trace.open {
                    match (old(self).trace.identity, retry) {
                        (None, Retry::Nothing) => *final(self) == cleared,
                        (Some(identity), Retry::Trace(loads)) => {
                            let origin = old(self).trace.origin;
                            let focused = cleared.in_context(origin).with_chosen_span(
                                old(self).inspector.span_id,
                            );
                            &&& loads.context == cleared.context_request(origin)
                            &&& *final(self) == (FailureInbox {
                                trace: final(self).trace,
                                ..focused
                            })
                            &&& final(self).trace.asked_for(focused.trace, identity, origin)
                            &&& loads.trace == Some(
                                super::full_trace_state::TraceRequest {
                                    generation: state::next_request(old(self).trace.generation),
                                    trace_id: identity.0,
                                    revision: identity.1,
                                },
                            )
                        },
                        _ => false,
                    }
                } else if old(self).showing_inbox {
                    &&& *final(self) == (FailureInbox {
                        list: GroupPages {
                            loading: true,
                            generation: state::next_request(old(self).list.generation),
                            ..old(self).list
                        },
                        ..cleared
                    })
                    &&& retry == Retry::Groups(
                        filter_menu::reload_request(*old(self), top_index as nat),
                    )
                } else {
                    match old(self).group_in_view() {
                        Some(key) => {
                            &&& *final(self) == cleared.group_requested(
                                old(self).investigation.occurrence_offset,
                                old(self).inspector.span_id,
                            )
                            &&& retry == Retry::Group(
                                GroupRequest {
                                    generation: state::next_request(
                                        old(self).investigation.generation,
                                    ),
                                    scope: cleared.group_scope(key.0, key.1@),
                                    group_id: key.1,
                                    occurrence_offset: old(self).investigation.occurrence_offset,
                                    limit: OCCURRENCE_PAGE_SIZE,
                                    preferred_finding_id: old(self).investigation.finding_id,
                                },
                            )
                        },
                        None => *final(self) == cleared && retry == Retry::Nothing,
                    }
                }
            }),
    {
        self.load_error = None;
        if self.trace.open {
            let identity = match &self.trace.identity {
                Some(identity) => (identity.0.clone(), identity.1),
                None => {
                    return Retry::Nothing;
                },
            };
            self.trace.tree.clear();
            let origin = self.trace.origin.copy();
            let span_id = copy_optional(&self.inspector.span_id);
            proof {
                assert(!self.trace.tree@.has_page(super::full_trace_state::root_page()));
            }
            let loads = self.show_full_trace(identity.0, identity.1, origin, span_id);
            Retry::Trace(loads)
        } else if self.showing_inbox {
            Retry::Groups(self.reload_groups(top_index))
        } else {
            let key = match &self.investigation.target {
                Some(target) => Some((target.0.clone(), target.1.clone())),
                None => match &self.investigation.group {
                    Some(group) => Some(
                        (group.summary.project_id.clone(), group.summary.group_id.clone()),
                    ),
                    None => None,
                },
            };
            match key {
                Some(key) => {
                    let finding_id = copy_optional(&self.investigation.finding_id);
                    let span_id = copy_optional(&self.inspector.span_id);
                    Retry::Group(
                        self.request_group(
                            key.0,
                            key.1,
                            self.investigation.occurrence_offset,
                            finding_id,
                            span_id,
                        ),
                    )
                },
                None => Retry::Nothing,
            }
        }
    }
}

/// What is asked for again.
#[derive(Debug)]
pub enum Retry {
    Nothing,
    Trace(TraceLoads),
    Groups(GroupPageRequest),
    Group(GroupRequest),
}

/// The last seen change never goes back, and a delay is noticed if a change
/// is skipped and never forgotten within a batch.
pub proof fn updates_are_monotone(live: LiveState, deltas: Seq<TraceDelta>)
    ensures
        after_deltas(live, deltas).0.last_sequence >= live.last_sequence,
        live.delayed ==> after_deltas(live, deltas).0.delayed,
        deltas.len() > 0 && deltas[0].commit_sequence > live.last_sequence + 1 ==> after_deltas(
            live,
            deltas,
        ).0.delayed,
        after_deltas(live, deltas).1 == exists|i: int|
            0 <= i < deltas.len() && affects_findings((#[trigger] deltas[i]).change),
    decreases deltas.len(),
{
    if deltas.len() > 0 {
        let rest = deltas.drop_first();
        let next = after_delta(live, deltas[0]);
        updates_are_monotone(next, rest);
        if affects_findings(deltas[0].change) {
            assert(affects_findings(deltas[0].change));
        } else {
            if after_deltas(next, rest).1 {
                let i = choose|i: int|
                    0 <= i < rest.len() && affects_findings((#[trigger] rest[i]).change);
                assert(affects_findings(deltas[i + 1].change));
            }
            assert forall|i: int|
                0 <= i < deltas.len() && affects_findings(
                    (#[trigger] deltas[i]).change,
                ) implies after_deltas(live, deltas).1 by {
                assert(affects_findings(rest[i - 1].change));
            }
        }
    }
}

/// A change advances the last commit seen and never takes it back; one that
/// skips a commit marks the view as delayed, which it stays.
pub proof fn skipped_commits_delay_the_view(live: LiveState, delta: TraceDelta)
    ensures
        ({
            let after = after_delta(live, delta);
            &&& after.last_sequence >= live.last_sequence
            &&& after.last_sequence >= delta.commit_sequence
            &&& after.last_sequence == live.last_sequence || after.last_sequence
                == delta.commit_sequence
            &&& after.delayed <==> live.delayed || delta.commit_sequence >= live.last_sequence + 2
        }),
{
}

/// Changes are taken in turn up to the first that affects findings, which asks
/// for a reload; without one nothing is reloaded.
pub proof fn reloads_follow_changes_of_findings(live: LiveState, deltas: Seq<TraceDelta>)
    ensures
        after_deltas(live, deltas).1 <==> exists|i: int|
            0 <= i < deltas.len() && (#[trigger] deltas[i]).change != TraceChangeKind::Other,
        deltas.len() == 0 ==> after_deltas(live, deltas).0 == live,
        deltas.len() == 1 ==> after_deltas(live, deltas).0 == after_delta(live, deltas[0]),
        forall|i: int|
            0 <= i < deltas.len() && !after_deltas(live, deltas).1 ==> after_deltas(
                live,
                deltas,
            ).0.last_sequence >= (#[trigger] deltas[i]).commit_sequence,
        after_deltas(live, deltas).0.last_sequence >= live.last_sequence,
    decreases deltas.len(),
{
    if deltas.len() > 0 {
        let next = after_delta(live, deltas[0]);
        let rest = deltas.drop_first();
        reveal_with_fuel(after_deltas, 2);
        reloads_follow_changes_of_findings(next, rest);
        if affects_findings(deltas[0].change) {
            assert(deltas[0].change != TraceChangeKind::Other);
        } else {
            assert forall|i: int|
                0 <= i < deltas.len() && !after_deltas(live, deltas).1 implies after_deltas(
                live,
                deltas,
            ).0.last_sequence >= (#[trigger] deltas[i]).commit_sequence by {
                if i > 0 {
                    assert(rest[i - 1] == deltas[i]);
                }
            }
            if exists|i: int|
                0 <= i < deltas.len() && (#[trigger] deltas[i]).change != TraceChangeKind::Other {
                let i = choose|i: int|
                    0 <= i < deltas.len() && (#[trigger] deltas[i]).change
                        != TraceChangeKind::Other;
                assert(rest[i - 1] == deltas[i]);
            }
            if after_deltas(next, rest).1 {
                let i = choose|i: int|
                    0 <= i < rest.len() && (#[trigger] rest[i]).change != TraceChangeKind::Other;
                assert(deltas[i + 1] == rest[i]);
            }
        }
    }
}

/// The group in view is the one that was opened, and before it is loaded as
/// well as after; without an opened one it is the one that is shown.
pub proof fn opened_groups_are_in_view(inbox: FailureInbox)
    ensures
        inbox.investigation.target is Some ==> inbox.group_in_view() == inbox.investigation.target,
        inbox.investigation.target is None && inbox.investigation.group is Some
            ==> inbox.group_in_view() == Some(
            (
                inbox.investigation.group->0.summary.project_id,
                inbox.investigation.group->0.summary.group_id,
            ),
        ),
        inbox.investigation.target is None && inbox.investigation.group is None
            ==> inbox.group_in_view() is None,
{
}

} // verus!
