//! Which parts of the inbox are shown.

use super::inspector;
use super::model::FailureInboxSort;
use super::state::{FailureInbox, InboxFilterMenu};
use crate::text::{self, append_decimal, concat2, concat3, length_text};
use vstd::prelude::*;
use vstd::string::*;

verus! {

/// What the inbox shows.
#[derive(Debug, Clone, Copy, PartialEq, Eq, Structural)]
pub enum InboxContent {
    /// The preview of draft evals.
    EvalBatch,
    /// That examples are being chosen.
    Selecting,
    /// The full trace, with the inspector or without it.
    FullTrace { inspector: bool },
    /// The inspector alone.
    Inspector,
    /// The list of groups.
    Groups,
    /// The details of the group alone.
    GroupDetail,
    /// The evidence, with the details and the inspector or without them.
    Evidence { details: bool, inspector: bool },
}

impl FailureInbox {
    /// What the inbox shows: a narrow window shows one part at a time.
    pub open spec fn shown_content(self, compact: bool) -> InboxContent {
        if self.eval.preview is Some {
            InboxContent::EvalBatch
        } else if self.eval.loading {
            InboxContent::Selecting
        } else if self.trace.open {
            if compact && self.inspector.open {
                InboxContent::Inspector
            } else {
                InboxContent::FullTrace { inspector: self.inspector.open }
            }
        } else if self.showing_inbox {
            InboxContent::Groups
        } else if compact {
            if self.investigation.group_details_open {
                InboxContent::GroupDetail
            } else if self.inspector.open {
                InboxContent::Inspector
            } else {
                InboxContent::Evidence { details: false, inspector: false }
            }
        } else {
            InboxContent::Evidence {
                details: self.investigation.group_details_open,
                inspector: self.inspector.open,
            }
        }
    }

    /// What the inbox shows.
    pub fn content(&self, compact: bool) -> (content: InboxContent)
        ensures
            content == self.shown_content(compact),
    {
        if self.eval.preview.is_some() {
            InboxContent::EvalBatch
        } else if self.eval.loading {
            InboxContent::Selecting
        } else if self.trace.open {
            if compact && self.inspector.open {
                InboxContent::Inspector
            } else {
                InboxContent::FullTrace { inspector: self.inspector.open }
            }
        } else if self.showing_inbox {
            InboxContent::Groups
        } else if compact {
            if self.investigation.group_details_open {
                InboxContent::GroupDetail
            } else if self.inspector.open {
                InboxContent::Inspector
            } else {
                InboxContent::Evidence { details: false, inspector: false }
            }
        } else {
            InboxContent::Evidence {
                details: self.investigation.group_details_open,
                inspector: self.inspector.open,
            }
        }
    }
}

/// What stands above the list of groups in a narrow window.
#[derive(Debug)]
pub struct CompactHeader {
    pub status: String,
    pub filters_label: String,
    pub filters_hint: String,
    pub filters_active: bool,
    pub filters_open: bool,
    pub organize_open: bool,
    /// How to order the groups, while none is selected.
    pub organize: Option<(String, bool)>,
    /// How to generate evals of the selected groups.
    pub generate: Option<GenerateButton>,
}

/// How to generate evals of the selected groups.
#[derive(Debug)]
pub struct GenerateButton {
    pub label: String,
    pub hint: String,
    pub enabled: bool,
}

impl FailureInbox {
    /// What stands above the list of groups in a narrow window.
    pub fn render_compact_group_header(&self, unassigned_project_id: &str) -> (header:
        CompactHeader)
        requires
            self.wf(),
        ensures
            header.status@ == text::decimal(self.list.groups@.len()) + " of "@ + text::decimal(
                self.list.total as nat,
            ) + " groups"@,
            header.filters_label@ == super::render::filters_button(*self),
            header.filters_hint@ == "Open failure filters; "@ + text::decimal(
                super::filter_menu::set_filters(self.filters),
            ) + " active"@,
            header.filters_active == (super::filter_menu::set_filters(self.filters) > 0),
            header.filters_open == (self.open_filter_menu == Some(InboxFilterMenu::Filters)),
            header.organize_open == (self.open_filter_menu == Some(InboxFilterMenu::Organize)),
            match header.organize {
                Some(organize) => {
                    &&& self.selection@.selected.len() == 0
                    &&& organize.0@ == "Organize · "@ + self.preferences.current.sort.name()
                    &&& organize.1 == (self.preferences.current.sort != FailureInboxSort::Priority
                        || self.preferences.active_saved_view_id is Some)
                },
                None => self.selection@.selected.len() > 0,
            },
            match header.generate {
                Some(generate) => {
                    let count = self.selection@.selected.len();
                    &&& count > 0
                    &&& generate.label@ == "Generate evals · "@ + text::decimal(count)
                        + " groups"@
                    &&& generate.hint@ == "Generate eval candidates for "@ + text::decimal(count)
                        + " selected failure groups"@
                    &&& generate.enabled == inspector::can_generate(
                        self.filters.scope,
                        unassigned_project_id@,
                    )
                },
                None => self.selection@.selected.len() == 0,
            },
    {
        let mut status = concat2(length_text(self.list.groups.len()).as_str(), " of ");
        append_decimal(&mut status, self.list.total);
        status.append(" groups");
        let filters = self.active_group_filter_count();
        let count = self.selection.selected.len();
        let (filters_open, organize_open) = match self.open_filter_menu {
            Some(InboxFilterMenu::Filters) => (true, false),
            Some(InboxFilterMenu::Organize) => (false, true),
            None => (false, false),
        };
        let organize = if count == 0 {
            Some(
                (
                    concat2("Organize · ", self.preferences.current.sort.label()),
                    self.preferences.current.sort != FailureInboxSort::Priority
                        || self.preferences.active_saved_view_id.is_some(),
                ),
            )
        } else {
            None
        };
        let generate = if count == 0 {
            None
        } else {
            Some(
                GenerateButton {
                    label: concat3("Generate evals · ", length_text(count).as_str(), " groups"),
                    hint: concat3(
                        "Generate eval candidates for ",
                        length_text(count).as_str(),
                        " selected failure groups",
                    ),
                    enabled: self.can_generate_eval(unassigned_project_id),
                },
            )
        };
        CompactHeader {
            status,
            filters_label: self.filters_label(),
            filters_hint: concat3(
                "Open failure filters; ",
                length_text(filters).as_str(),
                " active",
            ),
            filters_active: filters > 0,
            filters_open,
            organize_open,
            organize,
            generate,
        }
    }
}

/// A narrow window shows one part of the investigation at a time.
pub proof fn narrow_windows_show_one_part(inbox: FailureInbox)
    ensures
        match inbox.shown_content(true) {
            InboxContent::FullTrace { inspector } => !inspector,
            InboxContent::Evidence { details, inspector } => !details && !inspector,
            _ => true,
        },
{
}

/// A batch is shown before anything else, then a trace, then the list of groups
/// and then the investigation.
pub proof fn batches_are_shown_before_traces(inbox: FailureInbox, compact: bool)
    ensures
        inbox.eval.preview is Some ==> inbox.shown_content(compact) == InboxContent::EvalBatch,
        inbox.eval.preview is None && inbox.eval.loading ==> inbox.shown_content(compact)
            == InboxContent::Selecting,
        inbox.eval.preview is None && !inbox.eval.loading && inbox.trace.open
            ==> inbox.shown_content(false) == (InboxContent::FullTrace {
            inspector: inbox.inspector.open,
        }),
        inbox.eval.preview is None && !inbox.eval.loading && inbox.trace.open
            && inbox.inspector.open ==> inbox.shown_content(true) == InboxContent::Inspector,
        inbox.eval.preview is None && !inbox.eval.loading && inbox.trace.open
            && !inbox.inspector.open ==> inbox.shown_content(true) == (InboxContent::FullTrace {
            inspector: false,
        }),
        inbox.eval.preview is None && !inbox.eval.loading && !inbox.trace.open
            && inbox.showing_inbox ==> inbox.shown_content(compact) == InboxContent::Groups,
        inbox.eval.preview is None && !inbox.eval.loading && !inbox.trace.open
            && !inbox.showing_inbox ==> {
            &&& inbox.shown_content(false) == (InboxContent::Evidence {
                details: inbox.investigation.group_details_open,
                inspector: inbox.inspector.open,
            })
            &&& inbox.investigation.group_details_open ==> inbox.shown_content(true)
                == InboxContent::GroupDetail
            &&& !inbox.investigation.group_details_open && inbox.inspector.open
                ==> inbox.shown_content(true) == InboxContent::Inspector
            &&& !inbox.investigation.group_details_open && !inbox.inspector.open
                ==> inbox.shown_content(true) == (InboxContent::Evidence {
                details: false,
                inspector: false,
            })
        },
{
}

} // verus!
