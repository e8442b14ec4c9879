//! Advancing a workspace by one step, one request at a time.
use std::collections::HashSet;

use vstd::prelude::*;

use super::merge::{merge_plan_from_state, AutopilotMergePlan};
#[allow(unused_imports)]
use super::gates::{fix_gate, law_states_lead_to_plans, review_gate};
#[allow(unused_imports)]
use super::merge::{plan_for, MergePlanView};
#[allow(unused_imports)]
use super::review::decided;
#[allow(unused_imports)]
use super::sessions::{first_of, fixes, implementations, reviews};
#[allow(unused_imports)]
use super::status::status_of;
use super::types::{
    AutopilotAdvanceAction, AutopilotDecision, AutopilotNextAction, ImplicationAutopilotStatus,
    Workspace,
};
#[allow(unused_imports)]
use super::types::{PrStatusView, ProcessRow, StatusView};
use crate::ids::Uuid;
use crate::text::copy_option;
#[allow(unused_imports)]
use crate::text::view_of_option;

verus! {

// ---------------------------------------------------------------------------
// Locks
// ---------------------------------------------------------------------------

/// The workspaces that are being advanced.
#[derive(Debug)]
pub struct AdvanceLocks {
    held: HashSet<u128>,
}

impl View for AdvanceLocks {
    type V = Set<u128>;

    closed spec fn view(&self) -> Set<u128> {
        self.held@
    }
}

impl AdvanceLocks {
    /// No workspace is being advanced.
    pub fn new() -> (r: AdvanceLocks)
        ensures
            r@ == Set::<u128>::empty(),
    {
        broadcast use vstd::std_specs::hash::group_hash_axioms;

        AdvanceLocks { held: HashSet::new() }
    }

    /// Takes hold of a workspace, unless it is held already.
    pub fn try_acquire(&mut self, workspace_id: Uuid) -> (r: bool)
        ensures
            r == !old(self)@.contains(workspace_id.bits),
            final(self)@ == old(self)@.insert(workspace_id.bits),
    {
        broadcast use vstd::std_specs::hash::group_hash_axioms;

        self.held.insert(workspace_id.bits)
    }

    /// Lets go of a workspace.
    pub fn release(&mut self, workspace_id: Uuid)
        ensures
            final(self)@ == old(self)@.remove(workspace_id.bits),
    {
        broadcast use vstd::std_specs::hash::group_hash_axioms;

        self.held.remove(&workspace_id.bits);
    }
}

// ---------------------------------------------------------------------------
// Steps
// ---------------------------------------------------------------------------

/// What is done to advance a workspace.
#[derive(Debug)]
pub enum AdvanceStep {
    /// Start a review; then move the issue that is linked to the workspace to review.
    StartAutoReview { rerun: bool },
    StartReviewFix,
    /// Move the issue to done and archive the workspace.
    ReconcileDone,
    /// Merge the linked pull requests, and go on with what comes of it.
    MergePullRequests,
    /// Nothing is left to do.
    Finish { action: AutopilotAdvanceAction, blocker: Option<String> },
}

/// What a step says.
pub enum AdvanceStepView {
    StartAutoReview { rerun: bool },
    StartReviewFix,
    ReconcileDone,
    MergePullRequests,
    Finish { action: AutopilotAdvanceAction, blocker: Option<Seq<char>> },
}

impl View for AdvanceStep {
    type V = AdvanceStepView;

    open spec fn view(&self) -> AdvanceStepView {
        match self {
            AdvanceStep::StartAutoReview { rerun } => AdvanceStepView::StartAutoReview {
                rerun: *rerun,
            },
            AdvanceStep::StartReviewFix => AdvanceStepView::StartReviewFix,
            AdvanceStep::ReconcileDone => AdvanceStepView::ReconcileDone,
            AdvanceStep::MergePullRequests => AdvanceStepView::MergePullRequests,
            AdvanceStep::Finish { action, blocker } => AdvanceStepView::Finish {
                action: *action,
                blocker: view_of_option(*blocker),
            },
        }
    }
}

/// Nothing is done.
pub open spec fn nothing() -> AdvanceStepView {
    AdvanceStepView::Finish { action: AutopilotAdvanceAction::Noop, blocker: None }
}

/// What is done about a merge in the state `state`.
pub open spec fn merge_step_of(state: Seq<char>) -> AdvanceStepView {
    match plan_for(state) {
        MergePlanView::ReconcileDone => AdvanceStepView::ReconcileDone,
        MergePlanView::AttemptPrMerge => AdvanceStepView::MergePullRequests,
        MergePlanView::Blocked(blocker) => AdvanceStepView::Finish {
            action: AutopilotAdvanceAction::Blocked,
            blocker: Some(blocker),
        },
    }
}

/// What is done to advance a workspace with this status. A review is a rerun where the latest one
/// asked for changes.
pub open spec fn step_of(status: StatusView) -> AdvanceStepView {
    match status.next_action {
        AutopilotNextAction::StartAutoReview => AdvanceStepView::StartAutoReview {
            rerun: status.latest_review_decision == AutopilotDecision::RequestChanges,
        },
        AutopilotNextAction::StartReviewFix => AdvanceStepView::StartReviewFix,
        AutopilotNextAction::ReadyForMerge => merge_step_of(status.pr_merge_state),
        AutopilotNextAction::NoWorkspace => AdvanceStepView::Finish {
            action: AutopilotAdvanceAction::Blocked,
            blocker: status.blocker,
        },
        AutopilotNextAction::InvestigateFailure => AdvanceStepView::Finish {
            action: AutopilotAdvanceAction::Blocked,
            blocker: status.blocker,
        },
        AutopilotNextAction::WaitForImplementation => nothing(),
        AutopilotNextAction::WaitForAutoReview => nothing(),
        AutopilotNextAction::WaitForReviewFix => nothing(),
        AutopilotNextAction::MergeWait => nothing(),
        AutopilotNextAction::Done => nothing(),
    }
}

/// What is done to advance a workspace with this status.
pub fn advance_step(status: &ImplicationAutopilotStatus) -> (r: AdvanceStep)
    ensures
        r@ == step_of(status@),
{
    match status.next_action {
        AutopilotNextAction::StartAutoReview => AdvanceStep::StartAutoReview {
            rerun: status.latest_review_decision == AutopilotDecision::RequestChanges,
        },
        AutopilotNextAction::StartReviewFix => AdvanceStep::StartReviewFix,
        AutopilotNextAction::ReadyForMerge => match merge_plan_from_state(
            status.pr_merge_state.as_str(),
        ) {
            AutopilotMergePlan::ReconcileDone => AdvanceStep::ReconcileDone,
            AutopilotMergePlan::AttemptPrMerge => AdvanceStep::MergePullRequests,
            AutopilotMergePlan::Blocked(blocker) => AdvanceStep::Finish {
                action: AutopilotAdvanceAction::Blocked,
                blocker: Some(blocker),
            },
        },
        AutopilotNextAction::NoWorkspace | AutopilotNextAction::InvestigateFailure => {
            AdvanceStep::Finish {
                action: AutopilotAdvanceAction::Blocked,
                blocker: copy_option(&status.blocker),
            }
        },
        AutopilotNextAction::WaitForImplementation
        | AutopilotNextAction::WaitForAutoReview
        | AutopilotNextAction::WaitForReviewFix
        | AutopilotNextAction::MergeWait
        | AutopilotNextAction::Done => AdvanceStep::Finish {
            action: AutopilotAdvanceAction::Noop,
            blocker: None,
        },
    }
}

/// What is done once the linked pull requests have been dealt with.
pub fn step_after_merge(result: Result<(), String>) -> (r: AdvanceStep)
    ensures
        r@ == (match result {
            Ok(_) => AdvanceStepView::ReconcileDone,
            Err(blocker) => AdvanceStepView::Finish {
                action: AutopilotAdvanceAction::Blocked,
                blocker: Some(blocker@),
            },
        }),
{
    match result {
        Ok(_) => AdvanceStep::ReconcileDone,
        Err(blocker) => AdvanceStep::Finish {
            action: AutopilotAdvanceAction::Blocked,
            blocker: Some(blocker),
        },
    }
}

/// What is reported once a step has been taken: the action and what blocks. A merge is not over
/// with its step.
pub open spec fn report_of(step: AdvanceStepView) -> Option<
    (AutopilotAdvanceAction, Option<Seq<char>>),
> {
    match step {
        AdvanceStepView::StartAutoReview { .. } => Some(
            (AutopilotAdvanceAction::StartedAutoReview, None),
        ),
        AdvanceStepView::StartReviewFix => Some((AutopilotAdvanceAction::StartedReviewFix, None)),
        AdvanceStepView::ReconcileDone => Some((AutopilotAdvanceAction::Noop, None)),
        AdvanceStepView::MergePullRequests => None,
        AdvanceStepView::Finish { action, blocker } => Some((action, blocker)),
    }
}

/// What a report says.
pub open spec fn view_of_report(
    report: Option<(AutopilotAdvanceAction, Option<String>)>,
) -> Option<(AutopilotAdvanceAction, Option<Seq<char>>)> {
    match report {
        Some((action, blocker)) => Some((action, view_of_option(blocker))),
        None => None,
    }
}

/// What is reported once a step has been taken.
pub fn advance_report(step: AdvanceStep) -> (r: Option<(AutopilotAdvanceAction, Option<String>)>)
    ensures
        view_of_report(r) == report_of(step@),
{
    match step {
        AdvanceStep::StartAutoReview { .. } => Some(
            (AutopilotAdvanceAction::StartedAutoReview, None),
        ),
        AdvanceStep::StartReviewFix => Some((AutopilotAdvanceAction::StartedReviewFix, None)),
        AdvanceStep::ReconcileDone => Some((AutopilotAdvanceAction::Noop, None)),
        AdvanceStep::MergePullRequests => None,
        AdvanceStep::Finish { action, blocker } => Some((action, blocker)),
    }
}

/// What is reported of a workspace that is being advanced already: nothing was done.
pub fn busy_report() -> (r: (AutopilotAdvanceAction, Option<String>))
    ensures
        Some((r.0, view_of_option(r.1))) == report_of(nothing()),
{
    (AutopilotAdvanceAction::Noop, None)
}

/// Whether a workspace whose work is merged is archived: unless it is pinned.
pub fn archives_when_done(workspace: &Workspace) -> (r: bool)
    ensures
        r == !workspace.pinned,
{
    !workspace.pinned
}

// ---------------------------------------------------------------------------
// Laws
// ---------------------------------------------------------------------------

/// A workspace is advanced by one request at a time: while one holds it, no other takes hold, and
/// once it lets go, the next one may.
pub proof fn law_one_advance_at_a_time(held: Set<u128>, id: u128)
    ensures
        held.insert(id).contains(id),
        !held.remove(id).contains(id),
        !held.contains(id) ==> held.insert(id).remove(id) == held,
{
    if !held.contains(id) {
        assert(held.insert(id).remove(id) =~= held);
    }
}

/// Taking hold of one workspace does not touch another.
pub proof fn law_locks_are_apart(held: Set<u128>, id: u128, other: u128)
    requires
        id != other,
    ensures
        held.insert(id).contains(other) == held.contains(other),
        held.remove(id).contains(other) == held.contains(other),
{
}

/// A step that starts a session is the step of a status whose next action is that session; a
/// merged pull request never leads to one.
pub proof fn law_steps_follow_the_next_action(status: StatusView)
    ensures
        step_of(status) is StartAutoReview <==> status.next_action
            == AutopilotNextAction::StartAutoReview,
        step_of(status) is StartReviewFix <==> status.next_action
            == AutopilotNextAction::StartReviewFix,
        step_of(status) is MergePullRequests || step_of(status) is ReconcileDone
            ==> status.next_action == AutopilotNextAction::ReadyForMerge,
{
}

/// What is started to advance a workspace may start: a review that is the next step passes the
/// conditions for a review, with the rerun that the step asks for, and a fix those for a fix.
pub proof fn law_steps_may_be_taken(
    workspace: Workspace,
    rows: Seq<ProcessRow>,
    text: Seq<char>,
    pr: Option<PrStatusView>,
    state: Seq<char>,
)
    ensures
        ({
            let step = step_of(status_of(workspace, rows, text, pr, state));
            let (decision, _, review) = decided(rows.filter(reviews()), text);
            let implementation = first_of(rows, implementations());
            let fix = first_of(rows, fixes());
            &&& step matches AdvanceStepView::StartAutoReview { rerun } ==> review_gate(
                workspace,
                implementation,
                decision,
                review,
                fix,
                state,
                rerun,
            ) is Ok
            &&& step is StartReviewFix ==> fix_gate(
                workspace,
                implementation,
                decision,
                review,
                fix,
            ) is Ok
        }),
{
}

/// What is done follows the next action and the state of the merge: merged work is reconciled, an
/// open pull request is merged; what is blocked is reported with its reason; what is waited for and
/// what is over is left alone; and a review is a rerun exactly where changes were asked for.
pub proof fn law_steps_are_told_by_action_and_state(status: StatusView)
    ensures
        ({
            let step = step_of(status);
            let ready = status.next_action == AutopilotNextAction::ReadyForMerge;
            let state = status.pr_merge_state;
            &&& step is ReconcileDone <==> ready && state == "merged_pending_done"@
            &&& step is MergePullRequests <==> ready && (state == "pr_open_pending_merge"@ || state
                == "review_passed_merge_status_unknown"@)
            &&& ready && state != "merged_pending_done"@ && state != "pr_open_pending_merge"@
                && state != "review_passed_merge_status_unknown"@ ==> (step matches
                AdvanceStepView::Finish { action, blocker } && action
                == AutopilotAdvanceAction::Blocked && blocker is Some)
            &&& step matches AdvanceStepView::StartAutoReview { rerun } ==> (rerun
                <==> status.latest_review_decision == AutopilotDecision::RequestChanges)
            &&& status.next_action == AutopilotNextAction::NoWorkspace || status.next_action
                == AutopilotNextAction::InvestigateFailure ==> step == (AdvanceStepView::Finish {
                action: AutopilotAdvanceAction::Blocked,
                blocker: status.blocker,
            })
            &&& status.next_action == AutopilotNextAction::WaitForImplementation
                || status.next_action == AutopilotNextAction::WaitForAutoReview
                || status.next_action == AutopilotNextAction::WaitForReviewFix
                || status.next_action == AutopilotNextAction::MergeWait || status.next_action
                == AutopilotNextAction::Done ==> step == (AdvanceStepView::Finish {
                action: AutopilotAdvanceAction::Noop,
                blocker: None,
            })
        }),
{
    law_states_lead_to_plans(status.pr_merge_state);
}

/// What is reported of a step is what was started, nothing where work was reconciled, and what
/// blocks where something does; a merge is reported only by what comes of it.
pub proof fn law_reports_tell_the_step(
    rerun: bool,
    action: AutopilotAdvanceAction,
    blocker: Option<Seq<char>>,
)
    ensures
        report_of(AdvanceStepView::StartAutoReview { rerun }) == Some(
            (AutopilotAdvanceAction::StartedAutoReview, None::<Seq<char>>),
        ),
        report_of(AdvanceStepView::StartReviewFix) == Some(
            (AutopilotAdvanceAction::StartedReviewFix, None::<Seq<char>>),
        ),
        report_of(AdvanceStepView::ReconcileDone) == Some(
            (AutopilotAdvanceAction::Noop, None::<Seq<char>>),
        ),
        report_of(AdvanceStepView::MergePullRequests) is None,
        report_of(AdvanceStepView::Finish { action, blocker }) == Some((action, blocker)),
        report_of(nothing()) == Some((AutopilotAdvanceAction::Noop, None::<Seq<char>>)),
{
}

} // verus!
