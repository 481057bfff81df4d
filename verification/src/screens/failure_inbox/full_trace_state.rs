//! Opening the full trace, and loading its pages.

use super::full_trace_timeline::{self, TIMELINE_PAGE_SIZE};
use super::full_trace_tree::{TreePageId, TreePageKey, TreeState, TREE_PAGE_SIZE};
use super::investigation_state::{self, find_evidence_span, GroupRequest};
use super::model::{copy_optional, optional_text, same_optional, SpanRow, SpanTreePageV1};
use super::state::{
    self, following_request, FailureInbox, FailureInboxEvent, FullTrace, FullTraceMode,
    FullTraceOrigin, Inspector, Investigation, OCCURRENCE_PAGE_SIZE,
};
use crate::controllers::bounded_cache;
use crate::text::same_text;
use vstd::prelude::*;
use vstd::string::*;

verus! {

/// A request for a trace: its size, the first pages, and its times.
#[derive(Debug)]
pub struct TraceRequest {
    pub generation: u64,
    pub trace_id: String,
    pub revision: u64,
}

/// What opening a trace loads: the group that it was opened from, and the
/// trace itself.
#[derive(Debug)]
pub struct TraceLoads {
    pub context: Option<GroupRequest>,
    pub trace: Option<TraceRequest>,
}

/// A request for a page of the tree.
#[derive(Debug)]
pub struct TreePageRequest {
    pub generation: u64,
    pub trace_id: String,
    pub revision: u64,
    pub parent_span_id: Option<String>,
    pub offset: u64,
}

/// A request for a page of the timeline.
#[derive(Debug)]
pub struct TimelinePageRequest {
    pub generation: u64,
    pub trace_id: String,
    pub revision: u64,
    pub page: u64,
    pub offset: u64,
}

/// When a revision of a run started and ended.
#[derive(Debug, Clone, Copy, PartialEq, Eq, Structural)]
pub struct RunTimes {
    pub revision: u64,
    pub start_time_unix_nano: u64,
    pub end_time_unix_nano: u64,
}

/// A trace as it is first loaded.
#[derive(Debug)]
pub struct LoadedTrace {
    pub span_count: u64,
    pub first_page: SpanTreePageV1,
    pub timeline: Vec<SpanRow>,
    pub run: Option<RunTimes>,
}

/// The first page of the roots.
pub open spec fn root_page() -> TreePageId {
    TreePageId { parent: None, page: 0 }
}

/// When a trace ends: after it starts.
pub open spec fn end_after_start(times: RunTimes) -> u64 {
    let least = if times.start_time_unix_nano == u64::MAX {
        u64::MAX
    } else {
        (times.start_time_unix_nano + 1) as u64
    };
    if times.end_time_unix_nano > least {
        times.end_time_unix_nano
    } else {
        least
    }
}

impl FullTrace {
    /// Whether a revision of a run is shown and its roots are loaded.
    pub open spec fn shows(self, trace_id: Seq<char>, revision: u64) -> bool {
        &&& self.open
        &&& match self.identity {
            Some(identity) => identity.0@ == trace_id && identity.1 == revision,
            None => false,
        }
        &&& self.tree@.has_page(root_page())
    }

    /// Whether a revision of a run is shown and its roots are loaded.
    pub fn is_showing(&self, trace_id: &str, revision: u64) -> (shows: bool)
        ensures
            shows == self.shows(trace_id@, revision),
    {
        let same = match &self.identity {
            Some(identity) => same_text(identity.0.as_str(), trace_id) && identity.1 == revision,
            None => false,
        };
        let root = TreePageKey::new(None, 0);
        assert(root@ == root_page());
        self.open && same && self.tree.has_page(&root)
    }

    /// What the trace is right after it was asked for anew.
    pub open spec fn asked_for(
        self,
        before: FullTrace,
        identity: (String, u64),
        origin: FullTraceOrigin,
    ) -> bool {
        &&& self == (FullTrace {
            open: true,
            tree: self.tree,
            timeline: self.timeline,
            identity: Some(identity),
            origin,
            span_count: 0,
            loading: true,
            mode: before.mode,
            errors_only: false,
            generation: state::next_request(before.generation),
            start_unix_nano: 0,
            end_unix_nano: 1,
            search: self.search,
        })
        &&& self.tree@ == (TreeState {
            pages: Seq::empty(),
            expanded: Set::empty(),
            loading: Set::empty(),
            ..before.tree@
        })
        &&& self.timeline@ == (full_trace_timeline::TimelineState {
            pages: Seq::empty(),
            loading: Set::empty(),
            total: 0,
            ..before.timeline@
        })
        &&& self.search.retyped(before.search, Seq::empty())
    }
}

impl FailureInbox {
    /// The investigation that a trace was opened from: without one nothing
    /// of a finding is shown; an example that is not loaded is asked for.
    pub open spec fn in_context(self, origin: FullTraceOrigin) -> FailureInbox {
        match origin {
            FullTraceOrigin::Runs => FailureInbox {
                investigation: Investigation { evidence: None, ..self.investigation },
                inspector: Inspector { span_id: None, span: None, ..self.inspector },
                ..self
            },
            FullTraceOrigin::FailureInvestigation {
                project_id,
                group_id,
                finding_id,
                occurrence_offset,
                span_id,
            } => if !self.has_context(project_id@, group_id@, optional_text(finding_id)) {
                self.investigating((project_id, group_id)).group_requested(
                    occurrence_offset,
                    span_id,
                )
            } else if span_id is Some {
                FailureInbox {
                    inspector: Inspector {
                        span_id,
                        span: investigation_state::evidence_span(
                            self.investigation.evidence,
                            span_id,
                        ),
                        ..self.inspector
                    },
                    ..self
                }
            } else {
                self
            },
        }
    }

    /// Whether the evidence of a finding is loaded.
    pub open spec fn has_context(
        self,
        project_id: Seq<char>,
        group_id: Seq<char>,
        finding_id: Option<Seq<char>>,
    ) -> bool {
        &&& investigation_state::is_group(self.investigation.group, project_id, group_id)
        &&& optional_text(self.investigation.finding_id) == finding_id
        &&& self.investigation.evidence is Some
    }

    /// The request for the group that a trace was opened from.
    pub open spec fn context_request(self, origin: FullTraceOrigin) -> Option<GroupRequest> {
        match origin {
            FullTraceOrigin::Runs => None,
            FullTraceOrigin::FailureInvestigation {
                project_id,
                group_id,
                finding_id,
                occurrence_offset,
                span_id,
            } => if self.has_context(project_id@, group_id@, optional_text(finding_id)) {
                None
            } else {
                Some(
                    GroupRequest {
                        generation: state::next_request(self.investigation.generation),
                        scope: self.group_scope(project_id, group_id@),
                        group_id,
                        occurrence_offset,
                        limit: OCCURRENCE_PAGE_SIZE,
                        preferred_finding_id: finding_id,
                    },
                )
            },
        }
    }

    /// The state with a chosen span, of which nothing is known yet.
    pub open spec fn with_chosen_span(self, span_id: Option<String>) -> FailureInbox {
        if span_id is Some {
            FailureInbox {
                inspector: Inspector { span_id, span: None, ..self.inspector },
                ..self
            }
        } else {
            self
        }
    }

    fn restore_context(&mut self, origin: &FullTraceOrigin) -> (request: Option<GroupRequest>)
        ensures
            *final(self) == old(self).in_context(*origin),
            request == old(self).context_request(*origin),
    {
        match origin {
            FullTraceOrigin::Runs => {
                self.investigation.evidence = None;
                self.inspector.span_id = None;
                self.inspector.span = None;
                None
            },
            FullTraceOrigin::FailureInvestigation {
                project_id,
                group_id,
                finding_id,
                occurrence_offset,
                span_id,
            } => {
                let same_group = match &self.investigation.group {
                    Some(group) => group.summary.project_id == *project_id
                        && group.summary.group_id == *group_id,
                    None => false,
                };
                let loaded = same_group && same_optional(&self.investigation.finding_id, finding_id)
                    && self.investigation.evidence.is_some();
                if !loaded {
                    Some(
                        self.restore_investigation_context(
                            project_id.clone(),
                            group_id.clone(),
                            copy_optional(finding_id),
                            *occurrence_offset,
                            copy_optional(span_id),
                        ),
                    )
                } else {
                    if span_id.is_some() {
                        self.inspector.span =
                        find_evidence_span(&self.investigation.evidence, span_id);
                        self.inspector.span_id = copy_optional(span_id);
                    }
                    None
                }
            },
        }
    }

    /// Shows a trace. One that is shown already is not asked for again.
    pub fn show_full_trace(
        &mut self,
        trace_id: String,
        revision: u64,
        origin: FullTraceOrigin,
        selected_span_id: Option<String>,
    ) -> (loads: TraceLoads)
        requires
            old(self).wf(),
        ensures
            final(self).wf(),
            loads.context == old(self).context_request(origin),
            ({
                let focused = old(self).in_context(origin).with_chosen_span(selected_span_id);
                if focused.trace.shows(trace_id@, revision) {
                    &&& *final(self) == (FailureInbox {
                        trace: FullTrace { origin, ..focused.trace },
                        ..focused
                    })
                    &&& loads.trace is None
                } else {
                    &&& *final(self) == (FailureInbox { trace: final(self).trace, ..focused })
                    &&& final(self).trace.asked_for(focused.trace, (trace_id, revision), origin)
                    &&& loads.trace == Some(
                        TraceRequest {
                            generation: state::next_request(old(self).trace.generation),
                            trace_id,
                            revision,
                        },
                    )
                }
            }),
    {
        let context = self.restore_context(&origin);
        if selected_span_id.is_some() {
            self.inspector.span_id = selected_span_id;
            self.inspector.span = None;
        }
        if self.trace.is_showing(trace_id.as_str(), revision) {
            self.trace.origin = origin;
            return TraceLoads { context, trace: None };
        }
        self.trace.errors_only = false;
        self.clear_trace_search();
        self.trace.tree.clear();
        self.trace.timeline.clear();
        self.trace.start_unix_nano = 0;
        self.trace.end_unix_nano = 1;
        self.trace.identity = Some((trace_id.clone(), revision));
        self.trace.origin = origin;
        self.trace.span_count = 0;
        self.trace.loading = true;
        self.trace.generation = following_request(self.trace.generation);
        self.trace.open = true;
        TraceLoads {
            context,
            trace: Some(
                TraceRequest { generation: self.trace.generation, trace_id, revision },
            ),
        }
    }

    fn clear_trace_search(&mut self)
        ensures
            *final(self) == (FailureInbox {
                trace: FullTrace { search: final(self).trace.search, ..old(self).trace },
                ..*old(self)
            }),
            final(self).trace.search.retyped(old(self).trace.search, Seq::empty()),
    {
        proof {
            reveal_strlit("");
            assert(""@ =~= Seq::<char>::empty());
        }
        self.trace.search.set_text("");
    }

    /// The identity of the shown group.
    pub open spec fn shown_group_id(self) -> String {
        self.investigation.group->0.summary.group_id
    }

    /// Shows the trace of the example that is shown, and tells the workbench.
    pub fn open_full_trace(&mut self) -> (opened: Option<(TraceLoads, FailureInboxEvent)>)
        requires
            old(self).wf(),
        ensures
            final(self).wf(),
            match (old(self).investigation.evidence, opened) {
                (None, _) => opened is None && *final(self) == *old(self),
                (Some(_), None) => false,
                (Some(evidence), Some((loads, event))) => match event {
                    FailureInboxEvent::OpenFullTrace {
                        project_id,
                        logical_trace_id,
                        revision,
                        origin,
                    } => {
                        &&& project_id == evidence.occurrence.project_id
                        &&& logical_trace_id == evidence.occurrence.logical_trace_id
                        &&& revision == evidence.occurrence.revision
                        &&& match origin {
                            FullTraceOrigin::FailureInvestigation { group_id, .. } => {
                                &&& origin == (FullTraceOrigin::FailureInvestigation {
                                    project_id,
                                    group_id,
                                    finding_id: old(self).investigation.finding_id,
                                    occurrence_offset: old(self).investigation.occurrence_offset,
                                    span_id: old(self).inspector.span_id,
                                })
                                &&& old(self).investigation.group is Some ==> group_id == old(self).shown_group_id()
                                &&& old(self).investigation.group is None ==> group_id@.len() == 0
                            },
                            FullTraceOrigin::Runs => false,
                        }
                        &&& loads.context == old(self).context_request(origin)
                        &&& ({
                            let focused = old(self).in_context(origin).with_chosen_span(
                                old(self).inspector.span_id,
                            );
                            if focused.trace.shows(logical_trace_id@, revision) {
                                &&& *final(self) == (FailureInbox {
                                    trace: FullTrace { origin, ..focused.trace },
                                    ..focused
                                })
                                &&& loads.trace is None
                            } else {
                                &&& *final(self) == (FailureInbox {
                                    trace: final(self).trace,
                                    ..focused
                                })
                                &&& final(self).trace.asked_for(
                                    focused.trace,
                                    (logical_trace_id, revision),
                                    origin,
                                )
                                &&& loads.trace == Some(
                                    TraceRequest {
                                        generation: state::next_request(
                                            old(self).trace.generation,
                                        ),
                                        trace_id: logical_trace_id,
                                        revision,
                                    },
                                )
                            }
                        })
                    },
                    _ => false,
                },
            },
    {
        let (project_id, trace_id, revision) = match &self.investigation.evidence {
            Some(evidence) => (
                evidence.occurrence.project_id.clone(),
                evidence.occurrence.logical_trace_id.clone(),
                evidence.occurrence.revision,
            ),
            None => {
                return None;
            },
        };
        let group_id = match &self.investigation.group {
            Some(group) => group.summary.group_id.clone(),
            None => String::new(),
        };
        let origin = FullTraceOrigin::FailureInvestigation {
            project_id: project_id.clone(),
            group_id,
            finding_id: copy_optional(&self.investigation.finding_id),
            occurrence_offset: self.investigation.occurrence_offset,
            span_id: copy_optional(&self.inspector.span_id),
        };
        let span_id = copy_optional(&self.inspector.span_id);
        let loads = self.show_full_trace(trace_id.clone(), revision, origin.copy(), span_id);
        Some(
            (
                loads,
                FailureInboxEvent::OpenFullTrace {
                    project_id,
                    logical_trace_id: trace_id,
                    revision,
                    origin,
                },
            ),
        )
    }

    /// Takes a trace. An answer to an earlier request changes nothing.
    pub fn finish_full_trace(
        &mut self,
        generation: u64,
        revision: u64,
        answer: Result<LoadedTrace, String>,
    )
        requires
            old(self).wf(),
        ensures
            final(self).wf(),
            generation != old(self).trace.generation ==> *final(self) == *old(self),
            generation == old(self).trace.generation ==> match answer {
                Err(error) => *final(self) == (FailureInbox {
                    trace: FullTrace { loading: false, ..old(self).trace },
                    load_error: Some(error),
                    ..*old(self)
                }),
                Ok(loaded) => {
                    let before = old(self).trace;
                    let after = final(self).trace;
                    &&& *final(self) == (FailureInbox { trace: after, ..*old(self) })
                    &&& after == (FullTrace {
                        loading: false,
                        span_count: loaded.span_count,
                        tree: after.tree,
                        timeline: after.timeline,
                        start_unix_nano: after.start_unix_nano,
                        end_unix_nano: after.end_unix_nano,
                        ..before
                    })
                    &&& after.timeline@ == (full_trace_timeline::TimelineState {
                        pages: bounded_cache::inserted(
                            before.timeline@.pages,
                            before.timeline@.capacity,
                            0u64,
                            loaded.timeline,
                        ),
                        loading: before.timeline@.loading.remove(0u64),
                        total: loaded.span_count,
                        ..before.timeline@
                    })
                    &&& after.tree@ == ({
                        let key = TreePageId {
                            parent: None,
                            page: loaded.first_page.offset / TREE_PAGE_SIZE,
                        };
                        TreeState {
                            pages: bounded_cache::inserted(
                                before.tree@.pages,
                                before.tree@.capacity,
                                key,
                                loaded.first_page,
                            ),
                            loading: before.tree@.loading.remove(key),
                            ..before.tree@
                        }
                    })
                    &&& match loaded.run {
                        Some(run) => if run.revision == revision {
                            &&& after.start_unix_nano == run.start_time_unix_nano
                            &&& after.end_unix_nano == end_after_start(run)
                        } else {
                            &&& after.start_unix_nano == before.start_unix_nano
                            &&& after.end_unix_nano == before.end_unix_nano
                        },
                        None => {
                            &&& after.start_unix_nano == before.start_unix_nano
                            &&& after.end_unix_nano == before.end_unix_nano
                        },
                    }
                },
            },
    {
        if generation != self.trace.generation {
            return;
        }
        self.trace.loading = false;
        match answer {
            Err(error) => {
                self.load_error = Some(error);
            },
            Ok(loaded) => {
                self.trace.span_count = loaded.span_count;
                self.trace.timeline.set_total(loaded.span_count);
                self.trace.timeline.finish_load(0, loaded.timeline);
                let key = TreePageKey::new(None, loaded.first_page.offset);
                self.trace.tree.finish_load(&key, loaded.first_page);
                if let Some(run) = loaded.run {
                    if run.revision == revision {
                        let least = run.start_time_unix_nano.saturating_add(1);
                        self.trace.start_unix_nano = run.start_time_unix_nano;
                        self.trace.end_unix_nano = if run.end_time_unix_nano > least {
                            run.end_time_unix_nano
                        } else {
                            least
                        };
                    }
                }
            },
        }
    }

    /// Asks for a page of the tree, unless it is loaded or asked for.
    pub fn ensure_full_trace_tree_page(
        &mut self,
        parent_span_id: Option<String>,
        offset: u64,
    ) -> (request: Option<TreePageRequest>)
        requires
            old(self).wf(),
        ensures
            final(self).wf(),
            *final(self) == (FailureInbox {
                trace: FullTrace { tree: final(self).trace.tree, ..old(self).trace },
                ..*old(self)
            }),
            ({
                let tree = old(self).trace.tree@;
                let id = TreeState::id(parent_span_id, offset / TREE_PAGE_SIZE);
                if tree.has_page(id) || tree.loading.contains(id) {
                    &&& final(self).trace.tree@ == tree
                    &&& request is None
                } else {
                    match old(self).trace.identity {
                        None => final(self).trace.tree@ == tree && request is None,
                        Some(identity) => {
                            &&& final(self).trace.tree@ == (TreeState {
                                loading: tree.loading.insert(id),
                                ..tree
                            })
                            &&& request == Some(
                                TreePageRequest {
                                    generation: old(self).trace.generation,
                                    trace_id: identity.0,
                                    revision: identity.1,
                                    parent_span_id,
                                    offset,
                                },
                            )
                        },
                    }
                }
            }),
    {
        let key = TreePageKey::new(copy_optional(&parent_span_id), offset);
        let ghost tree = self.trace.tree@;
        let again = TreePageKey::new(copy_optional(&parent_span_id), offset);
        if !self.trace.tree.begin_load(key) {
            assert(self.trace.tree@.loading =~= tree.loading);
            return None;
        }
        match &self.trace.identity {
            None => {
                self.trace.tree.fail_load(&again);
                assert(self.trace.tree@.loading =~= tree.loading);
                None
            },
            Some(identity) => Some(
                TreePageRequest {
                    generation: self.trace.generation,
                    trace_id: identity.0.clone(),
                    revision: identity.1,
                    parent_span_id,
                    offset,
                },
            ),
        }
    }

    /// Takes a page of the tree. An answer for another trace changes nothing.
    pub fn finish_tree_page(
        &mut self,
        request: TreePageRequest,
        answer: Result<SpanTreePageV1, String>,
    )
        requires
            old(self).wf(),
        ensures
            final(self).wf(),
            request.generation != old(self).trace.generation ==> *final(self) == *old(self),
            request.generation == old(self).trace.generation ==> {
                let tree = old(self).trace.tree@;
                let id = TreeState::id(request.parent_span_id, request.offset / TREE_PAGE_SIZE);
                match answer {
                    Ok(page) => {
                        &&& *final(self) == (FailureInbox {
                            trace: FullTrace { tree: final(self).trace.tree, ..old(self).trace },
                            ..*old(self)
                        })
                        &&& final(self).trace.tree@ == (TreeState {
                            pages: bounded_cache::inserted(tree.pages, tree.capacity, id, page),
                            loading: tree.loading.remove(id),
                            ..tree
                        })
                    },
                    Err(error) => {
                        &&& *final(self) == (FailureInbox {
                            trace: FullTrace { tree: final(self).trace.tree, ..old(self).trace },
                            load_error: Some(error),
                            ..*old(self)
                        })
                        &&& final(self).trace.tree@ == (TreeState {
                            loading: tree.loading.remove(id),
                            ..tree
                        })
                    },
                }
            },
    {
        if request.generation != self.trace.generation {
            return;
        }
        let key = TreePageKey::new(request.parent_span_id, request.offset);
        match answer {
            Ok(page) => {
                self.trace.tree.finish_load(&key, page);
            },
            Err(error) => {
                self.trace.tree.fail_load(&key);
                self.load_error = Some(error);
            },
        }
    }

    /// Asks for the page of the timeline that holds a place, unless it is
    /// loaded or asked for.
    pub fn ensure_full_trace_timeline_page(&mut self, index: usize) -> (request: Option<
        TimelinePageRequest,
    >)
        requires
            old(self).wf(),
        ensures
            final(self).wf(),
            *final(self) == (FailureInbox {
                trace: FullTrace { timeline: final(self).trace.timeline, ..old(self).trace },
                ..*old(self)
            }),
            ({
                let timeline = old(self).trace.timeline@;
                let page = index as u64 / TIMELINE_PAGE_SIZE;
                if timeline.has_page(page) || timeline.loading.contains(page) {
                    &&& final(self).trace.timeline@ == timeline
                    &&& request is None
                } else {
                    match old(self).trace.identity {
                        None => final(self).trace.timeline@ == timeline && request is None,
                        Some(identity) => {
                            &&& final(self).trace.timeline@
                                == (full_trace_timeline::TimelineState {
                                loading: timeline.loading.insert(page),
                                ..timeline
                            })
                            &&& request == Some(
                                TimelinePageRequest {
                                    generation: old(self).trace.generation,
                                    trace_id: identity.0,
                                    revision: identity.1,
                                    page,
                                    offset: (page * 500) as u64,
                                },
                            )
                        },
                    }
                }
            }),
    {
        let page: u64 = index as u64 / TIMELINE_PAGE_SIZE;
        let ghost timeline = self.trace.timeline@;
        if !self.trace.timeline.begin_load(page) {
            assert(self.trace.timeline@.loading =~= timeline.loading);
            return None;
        }
        match &self.trace.identity {
            None => {
                self.trace.timeline.fail_load(page);
                assert(self.trace.timeline@.loading =~= timeline.loading);
                None
            },
            Some(identity) => Some(
                TimelinePageRequest {
                    generation: self.trace.generation,
                    trace_id: identity.0.clone(),
                    revision: identity.1,
                    page,
                    offset: page * 500,
                },
            ),
        }
    }

    /// Takes a page of the timeline. An answer for another trace changes
    /// nothing.
    pub fn finish_timeline_page(
        &mut self,
        generation: u64,
        page: u64,
        answer: Result<Vec<SpanRow>, String>,
    )
        requires
            old(self).wf(),
        ensures
            final(self).wf(),
            generation != old(self).trace.generation ==> *final(self) == *old(self),
            generation == old(self).trace.generation ==> {
                let timeline = old(self).trace.timeline@;
                match answer {
                    Ok(rows) => {
                        &&& *final(self) == (FailureInbox {
                            trace: FullTrace {
                                timeline: final(self).trace.timeline,
                                ..old(self).trace
                            },
                            ..*old(self)
                        })
                        &&& final(self).trace.timeline@ == (full_trace_timeline::TimelineState {
                            pages: bounded_cache::inserted(
                                timeline.pages,
                                timeline.capacity,
                                page,
                                rows,
                            ),
                            loading: timeline.loading.remove(page),
                            ..timeline
                        })
                    },
                    Err(error) => {
                        &&& *final(self) == (FailureInbox {
                            trace: FullTrace {
                                timeline: final(self).trace.timeline,
                                ..old(self).trace
                            },
                            load_error: Some(error),
                            ..*old(self)
                        })
                        &&& final(self).trace.timeline@ == (full_trace_timeline::TimelineState {
                            loading: timeline.loading.remove(page),
                            ..timeline
                        })
                    },
                }
            },
    {
        if generation != self.trace.generation {
            return;
        }
        match answer {
            Ok(rows) => {
                self.trace.timeline.finish_load(page, rows);
            },
            Err(error) => {
                self.trace.timeline.fail_load(page);
                self.load_error = Some(error);
            },
        }
    }

    /// Expands every span that is loaded and has children.
    pub fn expand_all_loaded_trace_spans(&mut self)
        requires
            old(self).wf(),
        ensures
            final(self).wf(),
            *final(self) == (FailureInbox {
                trace: FullTrace { tree: final(self).trace.tree, ..old(self).trace },
                ..*old(self)
            }),
            final(self).trace.tree@ == (TreeState {
                expanded: old(self).trace.tree@.expanded.union(
                    super::full_trace_tree::expandable(old(self).trace.tree@.spans()),
                ),
                ..old(self).trace.tree@
            }),
    {
        self.trace.tree.expand_all_loaded();
    }

    /// Expands or collapses a span that has children, and asks for them where
    /// they are not loaded; a span without children is shown in the inspector.
    pub fn toggle_full_trace_span(&mut self, span_id: String, has_children: bool) -> (asked: (
        Option<TreePageRequest>,
        Option<FailureInboxEvent>,
    ))
        requires
            old(self).wf(),
        ensures
            final(self).wf(),
            !has_children ==> {
                &&& *final(self) == old(self).with_span(
                    span_id,
                    investigation_state::evidence_span(
                        old(self).investigation.evidence,
                        Some(span_id),
                    ),
                ).with_inspector_shown()
                &&& asked.0 is None
                &&& asked.1 == old(self).shown_event()
            },
            has_children ==> {
                let tree = old(self).trace.tree@;
                let id = TreeState::id(Some(span_id), 0);
                let collapses = tree.expanded.contains(span_id@);
                let asks = !collapses && !tree.has_page(id) && !tree.loading.contains(id) && old(self).trace.identity is Some;
                &&& asked.1 is None
                &&& *final(self) == (FailureInbox {
                    trace: FullTrace { tree: final(self).trace.tree, ..old(self).trace },
                    ..*old(self)
                })
                &&& final(self).trace.tree@ == (TreeState {
                    expanded: if collapses {
                        tree.expanded.remove(span_id@)
                    } else {
                        tree.expanded.insert(span_id@)
                    },
                    loading: if asks {
                        tree.loading.insert(id)
                    } else {
                        tree.loading
                    },
                    ..tree
                })
                &&& asked.0 == (if asks {
                    Some(
                        TreePageRequest {
                            generation: old(self).trace.generation,
                            trace_id: old(self).trace.identity.unwrap().0,
                            revision: old(self).trace.identity.unwrap().1,
                            parent_span_id: Some(span_id),
                            offset: 0,
                        },
                    )
                } else {
                    None
                })
            },
    {
        if !has_children {
            let event = self.focus_evidence_span(span_id);
            return (None, event);
        }
        let expanded = self.trace.tree.toggle(span_id.as_str());
        if expanded {
            let request = self.ensure_full_trace_tree_page(Some(span_id), 0);
            (request, None)
        } else {
            (None, None)
        }
    }

    /// Shows the tree or the timeline.
    pub fn set_full_trace_mode(&mut self, mode: FullTraceMode)
        ensures
            *final(self) == (FailureInbox {
                trace: FullTrace { mode, ..old(self).trace },
                ..*old(self)
            }),
    {
        self.trace.mode = mode;
    }

    /// Shows only errors, or everything.
    pub fn toggle_full_trace_errors(&mut self)
        ensures
            *final(self) == (FailureInbox {
                trace: FullTrace { errors_only: !old(self).trace.errors_only, ..old(self).trace },
                ..*old(self)
            }),
    {
        self.trace.errors_only = !self.trace.errors_only;
    }

    /// Shows everything again.
    pub fn reset_full_trace_filters(&mut self)
        ensures
            *final(self) == (FailureInbox {
                trace: FullTrace {
                    errors_only: false,
                    search: final(self).trace.search,
                    ..old(self).trace
                },
                ..*old(self)
            }),
            final(self).trace.search.retyped(old(self).trace.search, Seq::empty()),
    {
        self.trace.errors_only = false;
        self.clear_trace_search();
    }
}

/// A trace takes some time: it ends after it starts, unless it starts at the
/// last moment that can be told.
pub proof fn traces_take_time(times: RunTimes)
    ensures
        times.start_time_unix_nano < u64::MAX ==> end_after_start(times)
            > times.start_time_unix_nano,
        end_after_start(times) >= times.end_time_unix_nano,
{
}

/// A trace is shown exactly where it is open at the revision and its first
/// roots are loaded.
pub proof fn traces_are_shown_at_their_revision(trace: FullTrace, trace_id: Seq<char>, revision: u64)
    ensures
        trace.shows(trace_id, revision) ==> {
            &&& trace.open
            &&& match trace.identity {
                Some((shown_id, shown_revision)) => shown_id@ == trace_id && shown_revision
                    == revision,
                None => false,
            }
        },
        root_page().parent is None,
        root_page().page == 0,
{
}

/// Asking for a trace opens it empty, without filters, and supersedes what was
/// asked for before; the mode stays.
pub proof fn traces_open_empty(
    after: FullTrace,
    before: FullTrace,
    identity: (String, u64),
    origin: FullTraceOrigin,
)
    requires
        after.asked_for(before, identity, origin),
    ensures
        after.open && after.loading,
        after.identity == Some(identity),
        after.origin == origin,
        after.mode == before.mode,
        !after.errors_only,
        after.search@.text.len() == 0,
        after.generation != before.generation,
        after.span_count == 0,
        after.tree@.pages.len() == 0,
        after.timeline@.pages.len() == 0,
        after.timeline@.total == 0,
{
}

/// A trace that was opened from the runs has no failure context; one that was
/// opened from a finding keeps the finding's, or loads it where it is another.
pub proof fn traces_keep_their_failure_context(inbox: FailureInbox, origin: FullTraceOrigin)
    ensures
        origin is Runs ==> {
            &&& inbox.in_context(origin).investigation.evidence is None
            &&& inbox.in_context(origin).inspector.span_id is None
            &&& inbox.in_context(origin).inspector.span is None
            &&& inbox.context_request(origin) is None
        },
        origin is FailureInvestigation ==> {
            let known = inbox.investigation.group is Some
                && inbox.investigation.group->0.summary.project_id@ == origin->project_id@
                && inbox.investigation.group->0.summary.group_id@ == origin->group_id@
                && optional_text(inbox.investigation.finding_id) == optional_text(
                origin->finding_id,
            ) && inbox.investigation.evidence is Some;
            &&& known ==> inbox.context_request(origin) is None
                && inbox.in_context(origin).investigation == inbox.investigation
            &&& known && origin->span_id is Some
                ==> inbox.in_context(origin).inspector.span_id == origin->span_id
            &&& known && origin->span_id is None ==> inbox.in_context(origin) == inbox
            &&& !known ==> {
                &&& inbox.context_request(origin) is Some
                &&& inbox.context_request(origin)->0.group_id == origin->group_id
                &&& inbox.context_request(origin)->0.occurrence_offset
                    == origin->occurrence_offset
                &&& inbox.context_request(origin)->0.limit == 100
                &&& inbox.context_request(origin)->0.preferred_finding_id == origin->finding_id
                &&& inbox.in_context(origin).investigation.generation == inbox.context_request(
                    origin,
                )->0.generation
                &&& inbox.in_context(origin).investigation.target == Some(
                    (origin->project_id, origin->group_id),
                )
                &&& inbox.in_context(origin).investigation.pending_span_id == origin->span_id
                &&& inbox.in_context(origin).investigation.loading
            }
        },
{
}

/// A run ends after its start, at its own end where that is later.
pub proof fn runs_end_after_their_start(times: RunTimes)
    ensures
        times.end_time_unix_nano > times.start_time_unix_nano ==> end_after_start(times)
            == times.end_time_unix_nano,
        times.end_time_unix_nano <= times.start_time_unix_nano && times.start_time_unix_nano
            < 0xffff_ffff_ffff_ffff ==> end_after_start(times) == times.start_time_unix_nano + 1,
{
}

/// A chosen span is inspected; without one the inspector stays.
pub proof fn chosen_spans_are_inspected(inbox: FailureInbox, span_id: Option<String>)
    ensures
        span_id is None ==> inbox.with_chosen_span(span_id) == inbox,
        span_id is Some ==> inbox.with_chosen_span(span_id).inspector.span_id == span_id
            && inbox.with_chosen_span(span_id).inspector.span is None
            && inbox.with_chosen_span(span_id).inspector.open == inbox.inspector.open
            && inbox.with_chosen_span(span_id).investigation == inbox.investigation,
{
}

} // verus!
