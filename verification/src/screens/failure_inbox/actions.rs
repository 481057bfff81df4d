//! What can be done about the example that is shown.

use super::comparison;
use super::model::FindingDispositionStateV1;
use super::state::{FailureInbox, Investigation};
use vstd::prelude::*;
use vstd::string::*;

verus! {

/// What the menu of actions offers.
#[derive(Debug, Clone, Copy, PartialEq, Eq, Structural)]
pub enum InvestigationAction {
    ReviewFinding,
    ShowExamples,
    OpenFullTrace,
    AddExample,
    CompareExamples,
    ToggleInspector,
}

/// An entry of the menu of actions.
#[derive(Debug)]
pub struct ActionEntry {
    pub action: InvestigationAction,
    pub label: &'static str,
    pub hint: &'static str,
    pub active: bool,
    pub enabled: bool,
}

/// The content of an entry of the menu of actions.
pub struct ActionContent {
    pub action: InvestigationAction,
    pub label: Seq<char>,
    pub hint: Seq<char>,
    pub active: bool,
    pub enabled: bool,
}

impl View for ActionEntry {
    type V = ActionContent;

    open spec fn view(&self) -> ActionContent {
        ActionContent {
            action: self.action,
            label: self.label@,
            hint: self.hint@,
            active: self.active,
            enabled: self.enabled,
        }
    }
}

/// The content of the menu of actions.
pub open spec fn entries(menu: Seq<ActionEntry>) -> Seq<ActionContent> {
    menu.map_values(|entry: ActionEntry| entry@)
}

/// A decision about a finding that can be taken; none takes it back.
#[derive(Debug)]
pub struct ReviewEntry {
    pub decision: Option<FindingDispositionStateV1>,
    pub label: &'static str,
    pub hint: &'static str,
    pub active: bool,
}

/// The content of a decision that can be taken.
pub struct ReviewContent {
    pub decision: Option<FindingDispositionStateV1>,
    pub label: Seq<char>,
    pub hint: Seq<char>,
    pub active: bool,
}

impl View for ReviewEntry {
    type V = ReviewContent;

    open spec fn view(&self) -> ReviewContent {
        ReviewContent {
            decision: self.decision,
            label: self.label@,
            hint: self.hint@,
            active: self.active,
        }
    }
}

/// The content of the decisions that can be taken.
pub open spec fn decisions(menu: Seq<ReviewEntry>) -> Seq<ReviewContent> {
    menu.map_values(|entry: ReviewEntry| entry@)
}

impl FailureInbox {
    /// Whether another example can be compared with the one that is shown.
    pub open spec fn has_comparable_example(self) -> bool {
        comparison::has_other_example(
            self.investigation.evidence,
            self.investigation.occurrences@,
        )
    }

    /// What the menu of actions offers while it is open.
    pub open spec fn offered_actions(self) -> Seq<ActionContent> {
        let always = |action: InvestigationAction, label: Seq<char>, hint: Seq<char>, active: bool|
            ActionContent { action, label, hint, active, enabled: true };
        if !self.investigation.actions_open {
            Seq::empty()
        } else {
            seq![
                always(
                    InvestigationAction::ReviewFinding,
                    "Review finding"@,
                    "Confirm, dismiss, or request more context"@,
                    self.investigation.review_open,
                ),
                always(
                    InvestigationAction::ShowExamples,
                    "Examples & details"@,
                    "Open failure details and example chooser"@,
                    self.investigation.group_details_open,
                ),
                always(
                    InvestigationAction::OpenFullTrace,
                    "Open full trace"@,
                    "Open the complete trace for this example"@,
                    false,
                ),
                always(
                    InvestigationAction::AddExample,
                    "Add this example"@,
                    "Add this example as an eval candidate"@,
                    false,
                ),
                ActionContent {
                    action: InvestigationAction::CompareExamples,
                    label: "Compare examples"@,
                    hint: if self.has_comparable_example() {
                        "Choose another example to compare with this one"@
                    } else {
                        "Compare unavailable; this group has no other example"@
                    },
                    active: false,
                    enabled: self.has_comparable_example(),
                },
                always(
                    InvestigationAction::ToggleInspector,
                    "Inspector"@,
                    "Toggle investigation inspector"@,
                    self.inspector.open,
                ),
            ]
        }
    }

    /// What the menu of actions offers while it is open.
    pub fn action_menu(&self) -> (menu: Vec<ActionEntry>)
        ensures
            entries(menu@) == self.offered_actions(),
    {
        let mut menu: Vec<ActionEntry> = Vec::new();
        if self.investigation.actions_open {
            let can_compare = self.can_compare_examples();
            menu.push(
                ActionEntry {
                    action: InvestigationAction::ReviewFinding,
                    label: "Review finding",
                    hint: "Confirm, dismiss, or request more context",
                    active: self.investigation.review_open,
                    enabled: true,
                },
            );
            menu.push(
                ActionEntry {
                    action: InvestigationAction::ShowExamples,
                    label: "Examples & details",
                    hint: "Open failure details and example chooser",
                    active: self.investigation.group_details_open,
                    enabled: true,
                },
            );
            menu.push(
                ActionEntry {
                    action: InvestigationAction::OpenFullTrace,
                    label: "Open full trace",
                    hint: "Open the complete trace for this example",
                    active: false,
                    enabled: true,
                },
            );
            menu.push(
                ActionEntry {
                    action: InvestigationAction::AddExample,
                    label: "Add this example",
                    hint: "Add this example as an eval candidate",
                    active: false,
                    enabled: true,
                },
            );
            menu.push(
                ActionEntry {
                    action: InvestigationAction::CompareExamples,
                    label: "Compare examples",
                    hint: if can_compare {
                        "Choose another example to compare with this one"
                    } else {
                        "Compare unavailable; this group has no other example"
                    },
                    active: false,
                    enabled: can_compare,
                },
            );
            menu.push(
                ActionEntry {
                    action: InvestigationAction::ToggleInspector,
                    label: "Inspector",
                    hint: "Toggle investigation inspector",
                    active: self.inspector.open,
                    enabled: true,
                },
            );
        }
        assert(entries(menu@) =~= self.offered_actions());
        menu
    }

    /// Closes the menu of actions, as choosing one of them does first.
    pub fn close_investigation_actions(&mut self)
        ensures
            *final(self) == (FailureInbox {
                investigation: Investigation { actions_open: false, ..old(self).investigation },
                ..*old(self)
            }),
    {
        self.investigation.actions_open = false;
    }
}

/// The decisions that can be taken while the review is open, where
/// `disposition` is the one that holds.
pub open spec fn offered_decisions(
    open: bool,
    disposition: Option<FindingDispositionStateV1>,
) -> Seq<ReviewContent> {
    let choice = |decision: FindingDispositionStateV1, label: Seq<char>, hint: Seq<char>|
        ReviewContent {
            decision: Some(decision),
            label,
            hint,
            active: disposition == Some(decision),
        };
    let undo = ReviewContent {
        decision: None,
        label: "Undo"@,
        hint: "Undo the current finding review"@,
        active: false,
    };
    if !open {
        Seq::empty()
    } else {
        seq![
            choice(
                FindingDispositionStateV1::Confirmed,
                "Confirm"@,
                "Confirm this finding as a real failure"@,
            ),
            choice(
                FindingDispositionStateV1::Dismissed,
                "Dismiss"@,
                "Dismiss this finding as not actionable"@,
            ),
            choice(
                FindingDispositionStateV1::NeedsContext,
                "Needs context"@,
                "Mark this finding as needing more context"@,
            ),
        ] + (if disposition is Some {
            seq![undo]
        } else {
            Seq::empty()
        })
    }
}

/// The decisions that can be taken while the review is open.
pub fn review_menu(open: bool, disposition: Option<FindingDispositionStateV1>) -> (menu: Vec<
    ReviewEntry,
>)
    ensures
        decisions(menu@) == offered_decisions(open, disposition),
{
    let mut menu: Vec<ReviewEntry> = Vec::new();
    if open {
        menu.push(
            ReviewEntry {
                decision: Some(FindingDispositionStateV1::Confirmed),
                label: "Confirm",
                hint: "Confirm this finding as a real failure",
                active: match disposition {
                    Some(FindingDispositionStateV1::Confirmed) => true,
                    _ => false,
                },
            },
        );
        menu.push(
            ReviewEntry {
                decision: Some(FindingDispositionStateV1::Dismissed),
                label: "Dismiss",
                hint: "Dismiss this finding as not actionable",
                active: match disposition {
                    Some(FindingDispositionStateV1::Dismissed) => true,
                    _ => false,
                },
            },
        );
        menu.push(
            ReviewEntry {
                decision: Some(FindingDispositionStateV1::NeedsContext),
                label: "Needs context",
                hint: "Mark this finding as needing more context",
                active: match disposition {
                    Some(FindingDispositionStateV1::NeedsContext) => true,
                    _ => false,
                },
            },
        );
        if disposition.is_some() {
            menu.push(
                ReviewEntry {
                    decision: None,
                    label: "Undo",
                    hint: "Undo the current finding review",
                    active: false,
                },
            );
        }
    }
    assert(decisions(menu@) =~= offered_decisions(open, disposition));
    menu
}

/// At most one decision holds, and there is one to take back exactly where
/// one holds.
pub proof fn one_decision_holds(disposition: Option<FindingDispositionStateV1>)
    ensures
        ({
            let offered = offered_decisions(true, disposition);
            &&& forall|i: int, j: int|
                0 <= i < offered.len() && 0 <= j < offered.len() && (#[trigger] offered[i]).active
                    && (#[trigger] offered[j]).active ==> i == j
            &&& (exists|i: int| 0 <= i < offered.len() && (#[trigger] offered[i]).active)
                <==> disposition is Some
            &&& (exists|i: int|
                0 <= i < offered.len() && (#[trigger] offered[i]).decision is None)
                <==> disposition is Some
        }),
{
    let offered = offered_decisions(true, disposition);
    match disposition {
        Some(FindingDispositionStateV1::Confirmed) => {
            assert(offered[0].active && offered[3].decision is None);
        },
        Some(FindingDispositionStateV1::Dismissed) => {
            assert(offered[1].active && offered[3].decision is None);
        },
        Some(FindingDispositionStateV1::NeedsContext) => {
            assert(offered[2].active && offered[3].decision is None);
        },
        None => {},
    }
}

/// The actions are offered in a fixed order while the menu is open; comparing
/// is possible only where there is another example.
pub proof fn actions_are_offered_in_order(inbox: FailureInbox)
    ensures
        !inbox.investigation.actions_open ==> inbox.offered_actions().len() == 0,
        inbox.investigation.actions_open ==> {
            let list = inbox.offered_actions();
            &&& list.len() == 6
            &&& list[0] == (ActionContent {
                action: InvestigationAction::ReviewFinding,
                label: "Review finding"@,
                hint: "Confirm, dismiss, or request more context"@,
                active: inbox.investigation.review_open,
                enabled: true,
            })
            &&& list[1] == (ActionContent {
                action: InvestigationAction::ShowExamples,
                label: "Examples & details"@,
                hint: "Open failure details and example chooser"@,
                active: inbox.investigation.group_details_open,
                enabled: true,
            })
            &&& list[2] == (ActionContent {
                action: InvestigationAction::OpenFullTrace,
                label: "Open full trace"@,
                hint: "Open the complete trace for this example"@,
                active: false,
                enabled: true,
            })
            &&& list[3] == (ActionContent {
                action: InvestigationAction::AddExample,
                label: "Add this example"@,
                hint: "Add this example as an eval candidate"@,
                active: false,
                enabled: true,
            })
            &&& list[4].action == InvestigationAction::CompareExamples
            &&& list[4].label == "Compare examples"@
            &&& list[4].enabled == comparison::has_other_example(
                inbox.investigation.evidence,
                inbox.investigation.occurrences@,
            )
            &&& list[4].enabled ==> list[4].hint
                == "Choose another example to compare with this one"@
            &&& !list[4].enabled ==> list[4].hint
                == "Compare unavailable; this group has no other example"@
            &&& list[5] == (ActionContent {
                action: InvestigationAction::ToggleInspector,
                label: "Inspector"@,
                hint: "Toggle investigation inspector"@,
                active: inbox.inspector.open,
                enabled: true,
            })
        },
{
}

/// A finding can be confirmed, dismissed or sent for more context while the
/// review is open, the decision that holds is marked, and it can be undone.
pub proof fn decisions_are_marked_and_undone(disposition: Option<FindingDispositionStateV1>)
    ensures
        offered_decisions(false, disposition).len() == 0,
        ({
            let list = offered_decisions(true, disposition);
            &&& list.len() == (if disposition is Some {
                4int
            } else {
                3
            })
            &&& list[0] == (ReviewContent {
                decision: Some(FindingDispositionStateV1::Confirmed),
                label: "Confirm"@,
                hint: "Confirm this finding as a real failure"@,
                active: disposition == Some(FindingDispositionStateV1::Confirmed),
            })
            &&& list[1] == (ReviewContent {
                decision: Some(FindingDispositionStateV1::Dismissed),
                label: "Dismiss"@,
                hint: "Dismiss this finding as not actionable"@,
                active: disposition == Some(FindingDispositionStateV1::Dismissed),
            })
            &&& list[2] == (ReviewContent {
                decision: Some(FindingDispositionStateV1::NeedsContext),
                label: "Needs context"@,
                hint: "Mark this finding as needing more context"@,
                active: disposition == Some(FindingDispositionStateV1::NeedsContext),
            })
            &&& disposition is Some ==> list[3] == (ReviewContent {
                decision: None,
                label: "Undo"@,
                hint: "Undo the current finding review"@,
                active: false,
            })
        }),
{
}

} // verus!
