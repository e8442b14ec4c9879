//! The next step of a workspace, and the gates before review and fix sessions.
use vstd::prelude::*;

use super::merge::{merge_plan_from_state, AutopilotMergePlan};
#[allow(unused_imports)]
use super::merge::{plan_for, MergePlanView};
#[allow(unused_imports)]
use super::types::row_of;
use super::types::{
    AutopilotDecision, AutopilotNextAction, AutopilotPrStatus, AutopilotTokenSafetyState,
    AutopilotWorkflowState, ExecutionProcessStatus, ProcessRow, Workspace,
};
#[allow(unused_imports)]
use crate::ids::{id_text, law_id_text_injective, law_id_text_shape};
use crate::text::{is_after, owned, same_text};
#[allow(unused_imports)]
use crate::text::{text_after, view_of_option, view_of_slice};

verus! {

// ---------------------------------------------------------------------------
// Times
// ---------------------------------------------------------------------------

/// The point in time that `text` writes in the form of RFC 3339, as seconds since the Unix epoch
/// and nanoseconds since that second.
pub uninterp spec fn rfc3339_instant(text: Seq<char>) -> Option<(i64, u32)>;

/// `chrono::DateTime::parse_from_rfc3339` reads a point in time: its seconds by `timestamp`, its
/// nanoseconds by `timestamp_subsec_nanos`, which go past a full second in a leap second. Which
/// point it is, or that there is none, depends on the text alone.
#[verifier::external_body]
fn parse_rfc3339(text: &str) -> (r: Option<(i64, u32)>)
    ensures
        r == rfc3339_instant(text@),
{
    let time = chrono::DateTime::parse_from_rfc3339(text).ok()?;
    Some((time.timestamp(), time.timestamp_subsec_nanos()))
}

/// One point in time is after another.
pub open spec fn instant_after(candidate: (i64, u32), reference: (i64, u32)) -> bool {
    candidate.0 > reference.0 || (candidate.0 == reference.0 && candidate.1 > reference.1)
}

/// `candidate` is after `reference`: as points in time where both are such, else as texts.
pub open spec fn time_after(candidate: Seq<char>, reference: Seq<char>) -> bool {
    match (rfc3339_instant(candidate), rfc3339_instant(reference)) {
        (Some(candidate), Some(reference)) => instant_after(candidate, reference),
        _ => text_after(candidate, reference),
    }
}

/// Whether one point in time is after another.
pub fn is_instant_after(candidate: (i64, u32), reference: (i64, u32)) -> (r: bool)
    ensures
        r == instant_after(candidate, reference),
{
    candidate.0 > reference.0 || (candidate.0 == reference.0 && candidate.1 > reference.1)
}

/// Whether `candidate` is after `reference`.
pub fn process_time_after(candidate: &str, reference: &str) -> (r: bool)
    ensures
        r == time_after(candidate@, reference@),
{
    match (parse_rfc3339(candidate), parse_rfc3339(reference)) {
        (Some(candidate), Some(reference)) => is_instant_after(candidate, reference),
        _ => is_after(candidate, reference),
    }
}

/// The time that a fix is held against: when the review ended, or when it started.
pub open spec fn reference_time(review: ProcessRow) -> Seq<char> {
    match review.completed_at {
        Some(completed_at) => completed_at@,
        None => review.started_at@,
    }
}

/// The time that a fix is held against.
pub fn review_reference_time(review: &ProcessRow) -> (r: &str)
    ensures
        r@ == reference_time(*review),
{
    match &review.completed_at {
        Some(completed_at) => completed_at.as_str(),
        None => review.started_at.as_str(),
    }
}

/// The fix was started after the latest review.
pub open spec fn fix_attempted(review_fix: ProcessRow, latest_review: Option<ProcessRow>) -> bool {
    match latest_review {
        None => false,
        Some(review) => time_after(review_fix.started_at@, reference_time(review)),
    }
}

/// The fix was started after the latest review and completed with success.
pub open spec fn fix_completed(review_fix: ProcessRow, latest_review: Option<ProcessRow>) -> bool {
    review_fix.is_clean() && fix_attempted(review_fix, latest_review)
}

/// Whether the fix was started after the latest review.
pub fn review_fix_attempted_after_review(
    review_fix: &ProcessRow,
    latest_review: Option<&ProcessRow>,
) -> (r: bool)
    ensures
        r == fix_attempted(*review_fix, row_of(latest_review)),
{
    match latest_review {
        None => false,
        Some(review) => process_time_after(
            review_fix.started_at.as_str(),
            review_reference_time(review),
        ),
    }
}

/// Whether the fix was started after the latest review and completed with success.
pub fn review_fix_completed_after_review(
    review_fix: &ProcessRow,
    latest_review: Option<&ProcessRow>,
) -> (r: bool)
    ensures
        r == fix_completed(*review_fix, row_of(latest_review)),
{
    review_fix.completed_cleanly() && review_fix_attempted_after_review(review_fix, latest_review)
}

// ---------------------------------------------------------------------------
// The next action
// ---------------------------------------------------------------------------

/// The next action after a review that has passed, with what there is to say of it.
pub open spec fn action_after_pass(state: Seq<char>) -> (AutopilotNextAction, Seq<char>) {
    match plan_for(state) {
        MergePlanView::Blocked(blocker) => if state == "blocked_by_dirty_worktree"@ || state
            == "blocked_by_draft_pr"@ || state == "blocked_by_failing_checks"@ || state
            == "blocked_by_pr_mergeability"@ {
            (AutopilotNextAction::InvestigateFailure, blocker)
        } else if state == "waiting_for_checks"@ {
            (AutopilotNextAction::MergeWait, blocker)
        } else {
            (AutopilotNextAction::ReadyForMerge, blocker)
        },
        MergePlanView::AttemptPrMerge => (
            AutopilotNextAction::ReadyForMerge,
            "Review passed; app advance will attempt the linked PR merge and report GitHub blockers."@,
        ),
        MergePlanView::ReconcileDone => (
            AutopilotNextAction::ReadyForMerge,
            "Review passed; app advance will reconcile merged PR state to Done."@,
        ),
    }
}

/// The next action after a review that asks for changes, with what there is to say of it.
pub open spec fn action_after_request(
    latest_review: Option<ProcessRow>,
    review_fix: Option<ProcessRow>,
) -> (AutopilotNextAction, Option<Seq<char>>) {
    match review_fix {
        None => (AutopilotNextAction::StartReviewFix, None),
        Some(row) => if row.status == ExecutionProcessStatus::Running {
            (AutopilotNextAction::WaitForReviewFix, None)
        } else if fix_completed(row, latest_review) {
            (
                AutopilotNextAction::StartAutoReview,
                Some("Review fix completed; rerun auto-review."@),
            )
        } else if fix_attempted(row, latest_review) {
            (
                AutopilotNextAction::InvestigateFailure,
                Some("Review fix did not complete cleanly."@),
            )
        } else {
            (AutopilotNextAction::StartReviewFix, None)
        },
    }
}

/// Nothing more will happen in a workspace whose merge is in this state.
pub open spec fn is_done(workspace: Workspace, state: Seq<char>) -> bool {
    workspace.is_over() || state == "done_or_archived"@ || state == "merged"@
}

/// The next action of a workspace, with what there is to say of it.
pub open spec fn next_step(
    workspace: Workspace,
    implementation: Option<ProcessRow>,
    decision: AutopilotDecision,
    latest_review: Option<ProcessRow>,
    review_fix: Option<ProcessRow>,
    state: Seq<char>,
) -> (AutopilotNextAction, Option<Seq<char>>) {
    if is_done(workspace, state) {
        (AutopilotNextAction::Done, None)
    } else {
        match implementation {
            None => (
                AutopilotNextAction::NoWorkspace,
                Some("No implementation process was found for this workspace."@),
            ),
            Some(row) => if row.status == ExecutionProcessStatus::Running {
                (AutopilotNextAction::WaitForImplementation, None)
            } else if !row.is_clean() {
                (
                    AutopilotNextAction::InvestigateFailure,
                    Some("Latest implementation process did not complete cleanly."@),
                )
            } else {
                match decision {
                    AutopilotDecision::Missing => (AutopilotNextAction::StartAutoReview, None),
                    AutopilotDecision::Running => (AutopilotNextAction::WaitForAutoReview, None),
                    AutopilotDecision::Failed => (
                        AutopilotNextAction::InvestigateFailure,
                        Some(
                            "Auto-review completed without a usable pass/request-changes decision."@,
                        ),
                    ),
                    AutopilotDecision::RequestChanges => action_after_request(
                        latest_review,
                        review_fix,
                    ),
                    AutopilotDecision::Pass => (
                        action_after_pass(state).0,
                        Some(action_after_pass(state).1),
                    ),
                }
            },
        }
    }
}

/// The next action of a workspace, with what there is to say of it. What the pull request says has
/// gone into the state of the merge and is not read again.
pub fn next_action(
    workspace: &Workspace,
    implementation: Option<&ProcessRow>,
    decision: &AutopilotDecision,
    latest_review: Option<&ProcessRow>,
    review_fix: Option<&ProcessRow>,
    pr_merge_state: &str,
    _pr_status: Option<&AutopilotPrStatus>,
) -> (r: (AutopilotNextAction, Option<String>))
    ensures
        (r.0, view_of_option(r.1)) == next_step(
            *workspace,
            row_of(implementation),
            *decision,
            row_of(latest_review),
            row_of(review_fix),
            pr_merge_state@,
        ),
{
    if workspace.archived || workspace.worktree_deleted || same_text(
        pr_merge_state,
        "done_or_archived",
    ) || same_text(pr_merge_state, "merged") {
        return (AutopilotNextAction::Done, None);
    }
    let implementation = match implementation {
        Some(implementation) => implementation,
        None => {
            return (
                AutopilotNextAction::NoWorkspace,
                Some(owned("No implementation process was found for this workspace.")),
            );
        },
    };
    if implementation.status == ExecutionProcessStatus::Running {
        return (AutopilotNextAction::WaitForImplementation, None);
    }
    if !implementation.completed_cleanly() {
        return (
            AutopilotNextAction::InvestigateFailure,
            Some(owned("Latest implementation process did not complete cleanly.")),
        );
    }
    match decision {
        AutopilotDecision::Missing => (AutopilotNextAction::StartAutoReview, None),
        AutopilotDecision::Running => (AutopilotNextAction::WaitForAutoReview, None),
        AutopilotDecision::Failed => (
            AutopilotNextAction::InvestigateFailure,
            Some(owned("Auto-review completed without a usable pass/request-changes decision.")),
        ),
        AutopilotDecision::RequestChanges => match review_fix {
            None => (AutopilotNextAction::StartReviewFix, None),
            Some(row) => if row.status == ExecutionProcessStatus::Running {
                (AutopilotNextAction::WaitForReviewFix, None)
            } else if review_fix_completed_after_review(row, latest_review) {
                (
                    AutopilotNextAction::StartAutoReview,
                    Some(owned("Review fix completed; rerun auto-review.")),
                )
            } else if review_fix_attempted_after_review(row, latest_review) {
                (
                    AutopilotNextAction::InvestigateFailure,
                    Some(owned("Review fix did not complete cleanly.")),
                )
            } else {
                (AutopilotNextAction::StartReviewFix, None)
            },
        },
        AutopilotDecision::Pass => match merge_plan_from_state(pr_merge_state) {
            AutopilotMergePlan::Blocked(blocker) => if same_text(
                pr_merge_state,
                "blocked_by_dirty_worktree",
            ) || same_text(pr_merge_state, "blocked_by_draft_pr") || same_text(
                pr_merge_state,
                "blocked_by_failing_checks",
            ) || same_text(pr_merge_state, "blocked_by_pr_mergeability") {
                (AutopilotNextAction::InvestigateFailure, Some(blocker))
            } else if same_text(pr_merge_state, "waiting_for_checks") {
                (AutopilotNextAction::MergeWait, Some(blocker))
            } else {
                (AutopilotNextAction::ReadyForMerge, Some(blocker))
            },
            AutopilotMergePlan::AttemptPrMerge => (
                AutopilotNextAction::ReadyForMerge,
                Some(
                    owned(
                        "Review passed; app advance will attempt the linked PR merge and report GitHub blockers.",
                    ),
                ),
            ),
            AutopilotMergePlan::ReconcileDone => (
                AutopilotNextAction::ReadyForMerge,
                Some(owned("Review passed; app advance will reconcile merged PR state to Done.")),
            ),
        },
    }
}

/// The name of an action.
pub open spec fn action_name(action: AutopilotNextAction) -> Seq<char> {
    match action {
        AutopilotNextAction::NoWorkspace => "no_workspace"@,
        AutopilotNextAction::WaitForImplementation => "wait_for_implementation"@,
        AutopilotNextAction::StartAutoReview => "start_auto_review"@,
        AutopilotNextAction::WaitForAutoReview => "wait_for_auto_review"@,
        AutopilotNextAction::StartReviewFix => "start_review_fix"@,
        AutopilotNextAction::WaitForReviewFix => "wait_for_review_fix"@,
        AutopilotNextAction::ReadyForMerge => "ready_for_merge"@,
        AutopilotNextAction::MergeWait => "merge_wait"@,
        AutopilotNextAction::Done => "done"@,
        AutopilotNextAction::InvestigateFailure => "investigate_failure"@,
    }
}

/// The name of an action.
pub fn next_action_name(action: &AutopilotNextAction) -> (r: &'static str)
    ensures
        r@ == action_name(*action),
{
    match action {
        AutopilotNextAction::NoWorkspace => "no_workspace",
        AutopilotNextAction::WaitForImplementation => "wait_for_implementation",
        AutopilotNextAction::StartAutoReview => "start_auto_review",
        AutopilotNextAction::WaitForAutoReview => "wait_for_auto_review",
        AutopilotNextAction::StartReviewFix => "start_review_fix",
        AutopilotNextAction::WaitForReviewFix => "wait_for_review_fix",
        AutopilotNextAction::ReadyForMerge => "ready_for_merge",
        AutopilotNextAction::MergeWait => "merge_wait",
        AutopilotNextAction::Done => "done",
        AutopilotNextAction::InvestigateFailure => "investigate_failure",
    }
}

// ---------------------------------------------------------------------------
// The gates
// ---------------------------------------------------------------------------

/// What a gate says.
pub open spec fn view_of_gate(r: Result<(), String>) -> Result<(), Seq<char>> {
    match r {
        Ok(_) => Ok(()),
        Err(message) => Err(message@),
    }
}

/// Whether a fix session may start.
pub open spec fn fix_gate(
    workspace: Workspace,
    implementation: Option<ProcessRow>,
    decision: AutopilotDecision,
    latest_review: Option<ProcessRow>,
    review_fix: Option<ProcessRow>,
) -> Result<(), Seq<char>> {
    if workspace.is_over() {
        Err("Workspace is archived or deleted."@)
    } else if implementation is None {
        Err("No implementation process was found for this workspace."@)
    } else if implementation->0.status == ExecutionProcessStatus::Running {
        Err("Implementation is still running."@)
    } else if !implementation->0.is_clean() {
        Err("Latest implementation process did not complete cleanly."@)
    } else if decision != AutopilotDecision::RequestChanges {
        Err("Review fix can only start after auto-review requests changes."@)
    } else {
        match review_fix {
            None => Ok(()),
            Some(row) => if row.status == ExecutionProcessStatus::Running {
                Err("Review fix is already running."@)
            } else if fix_completed(row, latest_review) {
                Err("Review fix already completed after the latest review; rerun auto-review next."@)
            } else if fix_attempted(row, latest_review) {
                Err("Review fix already ran after the latest review and did not complete cleanly."@)
            } else {
                Ok(())
            },
        }
    }
}

/// Whether a fix session may start.
pub fn review_fix_start_gate(
    workspace: &Workspace,
    implementation: Option<&ProcessRow>,
    decision: &AutopilotDecision,
    latest_review: Option<&ProcessRow>,
    review_fix: Option<&ProcessRow>,
) -> (r: Result<(), String>)
    ensures
        view_of_gate(r) == fix_gate(
            *workspace,
            row_of(implementation),
            *decision,
            row_of(latest_review),
            row_of(review_fix),
        ),
{
    if workspace.archived || workspace.worktree_deleted {
        return Err(owned("Workspace is archived or deleted."));
    }
    let implementation = match implementation {
        Some(implementation) => implementation,
        None => {
            return Err(owned("No implementation process was found for this workspace."));
        },
    };
    if implementation.status == ExecutionProcessStatus::Running {
        return Err(owned("Implementation is still running."));
    }
    if !implementation.completed_cleanly() {
        return Err(owned("Latest implementation process did not complete cleanly."));
    }
    if *decision != AutopilotDecision::RequestChanges {
        return Err(owned("Review fix can only start after auto-review requests changes."));
    }
    if let Some(row) = review_fix {
        if row.status == ExecutionProcessStatus::Running {
            return Err(owned("Review fix is already running."));
        }
        if review_fix_completed_after_review(row, latest_review) {
            return Err(
                owned(
                    "Review fix already completed after the latest review; rerun auto-review next.",
                ),
            );
        }
        if review_fix_attempted_after_review(row, latest_review) {
            return Err(
                owned(
                    "Review fix already ran after the latest review and did not complete cleanly.",
                ),
            );
        }
    }
    Ok(())
}

/// A fix was completed after the latest review.
pub open spec fn any_fix_completed(
    review_fix: Option<ProcessRow>,
    latest_review: Option<ProcessRow>,
) -> bool {
    review_fix is Some && fix_completed(review_fix->0, latest_review)
}

/// Whether a review session may start.
pub open spec fn review_gate(
    workspace: Workspace,
    implementation: Option<ProcessRow>,
    decision: AutopilotDecision,
    latest_review: Option<ProcessRow>,
    review_fix: Option<ProcessRow>,
    state: Seq<char>,
    rerun: bool,
) -> Result<(), Seq<char>> {
    let (action, blocker) = next_step(
        workspace,
        implementation,
        decision,
        latest_review,
        review_fix,
        state,
    );
    if action != AutopilotNextAction::StartAutoReview {
        Err("Auto-review cannot start while the next action is "@ + action_name(action) + "."@)
    } else if decision == AutopilotDecision::RequestChanges && any_fix_completed(
        review_fix,
        latest_review,
    ) && !rerun {
        Err("Auto-review rerun must be explicit after review fix completes."@)
    } else if blocker is Some && !rerun {
        Err(blocker->0)
    } else {
        Ok(())
    }
}

/// Whether a review session may start.
#[allow(clippy::too_many_arguments)]
pub fn auto_review_start_gate(
    workspace: &Workspace,
    implementation: Option<&ProcessRow>,
    decision: &AutopilotDecision,
    latest_review: Option<&ProcessRow>,
    review_fix: Option<&ProcessRow>,
    pr_merge_state: &str,
    pr_status: Option<&AutopilotPrStatus>,
    rerun: bool,
) -> (r: Result<(), String>)
    ensures
        view_of_gate(r) == review_gate(
            *workspace,
            row_of(implementation),
            *decision,
            row_of(latest_review),
            row_of(review_fix),
            pr_merge_state@,
            rerun,
        ),
{
    let (action, blocker) = next_action(
        workspace,
        implementation,
        decision,
        latest_review,
        review_fix,
        pr_merge_state,
        pr_status,
    );
    if action != AutopilotNextAction::StartAutoReview {
        let mut message = owned("Auto-review cannot start while the next action is ");
        message.append(next_action_name(&action));
        message.append(".");
        return Err(message);
    }
    if *decision == AutopilotDecision::RequestChanges {
        let completed = match review_fix {
            Some(row) => review_fix_completed_after_review(row, latest_review),
            None => false,
        };
        if completed && !rerun {
            return Err(owned("Auto-review rerun must be explicit after review fix completes."));
        }
    }
    match blocker {
        Some(blocker) => if !rerun {
            Err(blocker)
        } else {
            Ok(())
        },
        None => Ok(()),
    }
}

// ---------------------------------------------------------------------------
// What is shown of the next action
// ---------------------------------------------------------------------------

/// A text, or another one where there is none.
pub open spec fn or_else(text: Option<Seq<char>>, other: Seq<char>) -> Seq<char> {
    match text {
        Some(text) => text,
        None => other,
    }
}

/// An owned copy of a text, or of another one where there is none.
fn owned_or(text: Option<&str>, other: &str) -> (r: String)
    ensures
        r@ == or_else(view_of_slice(text), other@),
{
    match text {
        Some(text) => owned(text),
        None => owned(other),
    }
}

/// A process is there and still runs.
pub open spec fn runs(row: Option<ProcessRow>) -> bool {
    row is Some && row->0.status == ExecutionProcessStatus::Running
}

/// Whether a process is there and still runs.
fn is_running_now(row: Option<&ProcessRow>) -> (r: bool)
    ensures
        r == runs(row_of(row)),
{
    match row {
        Some(row) => row.status == ExecutionProcessStatus::Running,
        None => false,
    }
}

/// Whether sessions could spend tokens, and a sentence that says so.
pub open spec fn safety_of(
    action: AutopilotNextAction,
    blocker: Option<Seq<char>>,
    implementation: Option<ProcessRow>,
    auto_review: Option<ProcessRow>,
    review_fix: Option<ProcessRow>,
    decision: AutopilotDecision,
) -> (AutopilotTokenSafetyState, Seq<char>) {
    if runs(implementation) || runs(auto_review) || runs(review_fix) {
        (
            AutopilotTokenSafetyState::Guarded,
            "A single agent session is running. Start controls stay hidden until the server reports the next safe action."@,
        )
    } else if action == AutopilotNextAction::NoWorkspace || action
        == AutopilotNextAction::InvestigateFailure {
        (
            AutopilotTokenSafetyState::Blocked,
            or_else(
                blocker,
                "Autopilot is blocked before any new Codex session can start."@,
            ),
        )
    } else if action == AutopilotNextAction::StartAutoReview && decision
        == AutopilotDecision::RequestChanges {
        (
            AutopilotTokenSafetyState::Guarded,
            "Auto-review reruns are guarded: the server only exposes this explicit rerun after a completed review-fix and while no agent is running."@,
        )
    } else if action == AutopilotNextAction::StartAutoReview {
        (
            AutopilotTokenSafetyState::Guarded,
            "Auto-review starts are guarded: the server blocks duplicate running processes and repeated reruns without a review-fix or updated workflow state."@,
        )
    } else {
        (
            AutopilotTokenSafetyState::Idle,
            "No Codex review or fix session is running. Completed sessions with unseen output are idle and are not spending tokens."@,
        )
    }
}

/// Whether sessions could spend tokens, and a sentence that says so.
pub fn token_safety(
    next_action: &AutopilotNextAction,
    blocker: Option<&str>,
    implementation: Option<&ProcessRow>,
    auto_review: Option<&ProcessRow>,
    review_fix: Option<&ProcessRow>,
    decision: &AutopilotDecision,
) -> (r: (AutopilotTokenSafetyState, String))
    ensures
        (r.0, r.1@) == safety_of(
            *next_action,
            view_of_slice(blocker),
            row_of(implementation),
            row_of(auto_review),
            row_of(review_fix),
            *decision,
        ),
{
    if is_running_now(implementation) || is_running_now(auto_review) || is_running_now(
        review_fix,
    ) {
        return (
            AutopilotTokenSafetyState::Guarded,
            owned(
                "A single agent session is running. Start controls stay hidden until the server reports the next safe action.",
            ),
        );
    }
    if *next_action == AutopilotNextAction::NoWorkspace || *next_action
        == AutopilotNextAction::InvestigateFailure {
        return (
            AutopilotTokenSafetyState::Blocked,
            owned_or(blocker, "Autopilot is blocked before any new Codex session can start."),
        );
    }
    if *next_action == AutopilotNextAction::StartAutoReview && *decision
        == AutopilotDecision::RequestChanges {
        return (
            AutopilotTokenSafetyState::Guarded,
            owned(
                "Auto-review reruns are guarded: the server only exposes this explicit rerun after a completed review-fix and while no agent is running.",
            ),
        );
    }
    if *next_action == AutopilotNextAction::StartAutoReview {
        return (
            AutopilotTokenSafetyState::Guarded,
            owned(
                "Auto-review starts are guarded: the server blocks duplicate running processes and repeated reruns without a review-fix or updated workflow state.",
            ),
        );
    }
    (
        AutopilotTokenSafetyState::Idle,
        owned(
            "No Codex review or fix session is running. Completed sessions with unseen output are idle and are not spending tokens.",
        ),
    )
}

/// The state of the workflow, and a sentence that says why.
pub open spec fn workflow_of(
    action: AutopilotNextAction,
    blocker: Option<Seq<char>>,
    decision: AutopilotDecision,
    latest_review: Option<ProcessRow>,
    review_fix: Option<ProcessRow>,
) -> (AutopilotWorkflowState, Seq<char>) {
    match action {
        AutopilotNextAction::NoWorkspace => (
            AutopilotWorkflowState::Queued,
            or_else(blocker, "Queued until a local workspace is linked."@),
        ),
        AutopilotNextAction::WaitForImplementation => (
            AutopilotWorkflowState::ImplementationRunning,
            "Implementation session is running; no duplicate workspace or review will start."@,
        ),
        AutopilotNextAction::StartAutoReview => (
            AutopilotWorkflowState::ReadyToAdvance,
            if decision == AutopilotDecision::RequestChanges && any_fix_completed(
                review_fix,
                latest_review,
            ) {
                "Review fix completed; app advance may start exactly one re-review."@
            } else {
                "Implementation completed; app advance may promote to In review and start exactly one auto-review."@
            },
        ),
        AutopilotNextAction::WaitForAutoReview => (
            AutopilotWorkflowState::ReviewRunning,
            "One auto-review is already running for this workspace state."@,
        ),
        AutopilotNextAction::StartReviewFix => (
            AutopilotWorkflowState::ReviewRequestedChanges,
            "Latest review requested changes; app advance may start exactly one review-fix session."@,
        ),
        AutopilotNextAction::WaitForReviewFix => (
            AutopilotWorkflowState::ReviewFixRunning,
            "One review-fix session is already running."@,
        ),
        AutopilotNextAction::ReadyForMerge => (
            AutopilotWorkflowState::ReviewPassed,
            or_else(blocker, "Review passed; app advance owns merge/done reconciliation."@),
        ),
        AutopilotNextAction::MergeWait => (
            AutopilotWorkflowState::MergeWaiting,
            "Merge/check work is waiting."@,
        ),
        AutopilotNextAction::Done => (
            AutopilotWorkflowState::Done,
            "Workspace is done or archived."@,
        ),
        AutopilotNextAction::InvestigateFailure => (
            AutopilotWorkflowState::Blocked,
            or_else(
                blocker,
                "Autopilot is blocked before another Codex session can start."@,
            ),
        ),
    }
}

/// The state of the workflow, and a sentence that says why.
pub fn workflow_state(
    next_action: &AutopilotNextAction,
    blocker: Option<&str>,
    _implementation: Option<&ProcessRow>,
    decision: &AutopilotDecision,
    latest_review: Option<&ProcessRow>,
    review_fix: Option<&ProcessRow>,
    _pr_merge_state: &str,
) -> (r: (AutopilotWorkflowState, String))
    ensures
        (r.0, r.1@) == workflow_of(
            *next_action,
            view_of_slice(blocker),
            *decision,
            row_of(latest_review),
            row_of(review_fix),
        ),
{
    match next_action {
        AutopilotNextAction::NoWorkspace => (
            AutopilotWorkflowState::Queued,
            owned_or(blocker, "Queued until a local workspace is linked."),
        ),
        AutopilotNextAction::WaitForImplementation => (
            AutopilotWorkflowState::ImplementationRunning,
            owned("Implementation session is running; no duplicate workspace or review will start."),
        ),
        AutopilotNextAction::StartAutoReview => {
            let completed = match review_fix {
                Some(row) => review_fix_completed_after_review(row, latest_review),
                None => false,
            };
            if *decision == AutopilotDecision::RequestChanges && completed {
                (
                    AutopilotWorkflowState::ReadyToAdvance,
                    owned("Review fix completed; app advance may start exactly one re-review."),
                )
            } else {
                (
                    AutopilotWorkflowState::ReadyToAdvance,
                    owned(
                        "Implementation completed; app advance may promote to In review and start exactly one auto-review.",
                    ),
                )
            }
        },
        AutopilotNextAction::WaitForAutoReview => (
            AutopilotWorkflowState::ReviewRunning,
            owned("One auto-review is already running for this workspace state."),
        ),
        AutopilotNextAction::StartReviewFix => (
            AutopilotWorkflowState::ReviewRequestedChanges,
            owned(
                "Latest review requested changes; app advance may start exactly one review-fix session.",
            ),
        ),
        AutopilotNextAction::WaitForReviewFix => (
            AutopilotWorkflowState::ReviewFixRunning,
            owned("One review-fix session is already running."),
        ),
        AutopilotNextAction::ReadyForMerge => (
            AutopilotWorkflowState::ReviewPassed,
            owned_or(blocker, "Review passed; app advance owns merge/done reconciliation."),
        ),
        AutopilotNextAction::MergeWait => (
            AutopilotWorkflowState::MergeWaiting,
            owned("Merge/check work is waiting."),
        ),
        AutopilotNextAction::Done => (
            AutopilotWorkflowState::Done,
            owned("Workspace is done or archived."),
        ),
        AutopilotNextAction::InvestigateFailure => (
            AutopilotWorkflowState::Blocked,
            owned_or(blocker, "Autopilot is blocked before another Codex session can start."),
        ),
    }
}

// ---------------------------------------------------------------------------
// The key of a state
// ---------------------------------------------------------------------------

/// The text of the identifier of a process, or `missing`.
pub open spec fn id_or(row: Option<ProcessRow>, missing: Seq<char>) -> Seq<char> {
    match row {
        Some(row) => id_text(row.id.bits),
        None => missing,
    }
}

/// The name of a decision.
pub open spec fn decision_name_text(decision: AutopilotDecision) -> Seq<char> {
    match decision {
        AutopilotDecision::Missing => "Missing"@,
        AutopilotDecision::Running => "Running"@,
        AutopilotDecision::Pass => "Pass"@,
        AutopilotDecision::RequestChanges => "RequestChanges"@,
        AutopilotDecision::Failed => "Failed"@,
    }
}

/// The key of a state of a workspace, by which two requests for the same step are told to be the
/// same: its processes and the decision.
pub open spec fn key_of(
    workspace: Workspace,
    implementation: Option<ProcessRow>,
    auto_review: Option<ProcessRow>,
    review_fix: Option<ProcessRow>,
    decision: AutopilotDecision,
) -> Seq<char> {
    id_text(workspace.id.bits) + ":"@ + id_or(implementation, "no-implementation"@) + ":"@ + id_or(
        auto_review,
        "no-review"@,
    ) + ":"@ + id_or(review_fix, "no-review-fix"@) + ":"@ + decision_name_text(decision)
}

/// Appends the text of the identifier of a process, or `missing`.
fn push_id_or(text: &mut String, row: Option<&ProcessRow>, missing: &str)
    ensures
        final(text)@ == old(text)@ + id_or(row_of(row), missing@),
{
    match row {
        Some(row) => {
            let id = row.id.to_text();
            text.append(id.as_str());
        },
        None => {
            text.append(missing);
        },
    }
}

/// The key of a state of a workspace.
pub fn duplicate_prevention_key(
    workspace: &Workspace,
    implementation: Option<&ProcessRow>,
    auto_review: Option<&ProcessRow>,
    review_fix: Option<&ProcessRow>,
    decision: &AutopilotDecision,
) -> (r: String)
    ensures
        r@ == key_of(
            *workspace,
            row_of(implementation),
            row_of(auto_review),
            row_of(review_fix),
            *decision,
        ),
{
    let mut key = workspace.id.to_text();
    key.append(":");
    push_id_or(&mut key, implementation, "no-implementation");
    key.append(":");
    push_id_or(&mut key, auto_review, "no-review");
    key.append(":");
    push_id_or(&mut key, review_fix, "no-review-fix");
    key.append(":");
    key.append(
        match decision {
            AutopilotDecision::Missing => "Missing",
            AutopilotDecision::Running => "Running",
            AutopilotDecision::Pass => "Pass",
            AutopilotDecision::RequestChanges => "RequestChanges",
            AutopilotDecision::Failed => "Failed",
        },
    );
    key
}

// ---------------------------------------------------------------------------
// Laws
// ---------------------------------------------------------------------------

/// Dictionary order does not put a text after itself, nor two texts after each other.
proof fn lemma_text_after(a: Seq<char>, b: Seq<char>)
    ensures
        !text_after(a, a),
        !(text_after(a, b) && text_after(b, a)),
    decreases a.len(),
{
    if a.len() > 0 {
        lemma_text_after(
            a.drop_first(),
            if b.len() > 0 {
                b.drop_first()
            } else {
                b
            },
        );
    }
}

/// No time is after itself, and no two times are each after the other.
pub proof fn law_times_are_ordered(a: Seq<char>, b: Seq<char>)
    ensures
        !time_after(a, a),
        !(time_after(a, b) && time_after(b, a)),
{
    lemma_text_after(a, b);
    lemma_text_after(a, a);
}

/// An archived or deleted workspace is done, and so is one whose merge is over: nothing starts
/// there any more.
pub proof fn law_over_is_done(
    workspace: Workspace,
    implementation: Option<ProcessRow>,
    decision: AutopilotDecision,
    latest_review: Option<ProcessRow>,
    review_fix: Option<ProcessRow>,
    state: Seq<char>,
    rerun: bool,
)
    requires
        is_done(workspace, state),
    ensures
        next_step(workspace, implementation, decision, latest_review, review_fix, state) == (
            AutopilotNextAction::Done,
            None::<Seq<char>>,
        ),
        review_gate(
            workspace,
            implementation,
            decision,
            latest_review,
            review_fix,
            state,
            rerun,
        ) is Err,
{
}

/// A session starts only after an implementation that completed with success, and only where there
/// is no review yet or the latest one asks for changes.
pub proof fn law_sessions_start_after_clean_work(
    workspace: Workspace,
    implementation: Option<ProcessRow>,
    decision: AutopilotDecision,
    latest_review: Option<ProcessRow>,
    review_fix: Option<ProcessRow>,
    state: Seq<char>,
)
    ensures
        ({
            let action = next_step(
                workspace,
                implementation,
                decision,
                latest_review,
                review_fix,
                state,
            ).0;
            action == AutopilotNextAction::StartAutoReview || action
                == AutopilotNextAction::StartReviewFix ==> {
                &&& !workspace.is_over()
                &&& implementation is Some && implementation->0.is_clean()
                &&& decision == AutopilotDecision::Missing || decision
                    == AutopilotDecision::RequestChanges
                &&& decision == AutopilotDecision::RequestChanges ==> !runs(review_fix)
            }
        }),
{
}

/// After a review that has passed no session starts.
pub proof fn law_pass_starts_no_session(
    workspace: Workspace,
    implementation: Option<ProcessRow>,
    latest_review: Option<ProcessRow>,
    review_fix: Option<ProcessRow>,
    state: Seq<char>,
    rerun: bool,
)
    ensures
        review_gate(
            workspace,
            implementation,
            AutopilotDecision::Pass,
            latest_review,
            review_fix,
            state,
            rerun,
        ) is Err,
        fix_gate(workspace, implementation, AutopilotDecision::Pass, latest_review, review_fix)
            is Err,
{
}

/// A fix session may start exactly where a fix is the next action, as long as the state of the
/// merge does not end the workspace.
pub proof fn law_fix_gate_agrees_with_next_action(
    workspace: Workspace,
    implementation: Option<ProcessRow>,
    decision: AutopilotDecision,
    latest_review: Option<ProcessRow>,
    review_fix: Option<ProcessRow>,
    state: Seq<char>,
)
    requires
        state != "done_or_archived"@,
        state != "merged"@,
    ensures
        fix_gate(workspace, implementation, decision, latest_review, review_fix) is Ok
            <==> next_step(
            workspace,
            implementation,
            decision,
            latest_review,
            review_fix,
            state,
        ).0 == AutopilotNextAction::StartReviewFix,
{
}

/// A review session may start only where a review is the next action, and an explicit rerun may
/// start everywhere there.
pub proof fn law_review_gate_agrees_with_next_action(
    workspace: Workspace,
    implementation: Option<ProcessRow>,
    decision: AutopilotDecision,
    latest_review: Option<ProcessRow>,
    review_fix: Option<ProcessRow>,
    state: Seq<char>,
    rerun: bool,
)
    ensures
        ({
            let next = next_step(
                workspace,
                implementation,
                decision,
                latest_review,
                review_fix,
                state,
            ).0;
            let gate = review_gate(
                workspace,
                implementation,
                decision,
                latest_review,
                review_fix,
                state,
                rerun,
            );
            &&& gate is Ok ==> next == AutopilotNextAction::StartAutoReview
            &&& rerun ==> (gate is Ok <==> next == AutopilotNextAction::StartAutoReview)
        }),
{
}

/// After a fix, a review starts only where it is asked for explicitly.
pub proof fn law_rerun_is_explicit(
    workspace: Workspace,
    implementation: Option<ProcessRow>,
    latest_review: Option<ProcessRow>,
    review_fix: Option<ProcessRow>,
    state: Seq<char>,
    rerun: bool,
)
    requires
        review_gate(
            workspace,
            implementation,
            AutopilotDecision::RequestChanges,
            latest_review,
            review_fix,
            state,
            rerun,
        ) is Ok,
    ensures
        rerun,
        any_fix_completed(review_fix, latest_review),
{
}

/// At most one fix follows a review: once one has been started after the latest review, no other
/// may start.
pub proof fn law_one_fix_for_each_review(
    workspace: Workspace,
    implementation: Option<ProcessRow>,
    decision: AutopilotDecision,
    latest_review: Option<ProcessRow>,
    review_fix: ProcessRow,
)
    requires
        fix_attempted(review_fix, latest_review),
    ensures
        fix_gate(workspace, implementation, decision, latest_review, Some(review_fix)) is Err,
{
}

/// While a process runs, the state is guarded; it is idle only where none runs and no session
/// could start next.
pub proof fn law_running_is_guarded(
    action: AutopilotNextAction,
    blocker: Option<Seq<char>>,
    implementation: Option<ProcessRow>,
    auto_review: Option<ProcessRow>,
    review_fix: Option<ProcessRow>,
    decision: AutopilotDecision,
)
    ensures
        ({
            let state = safety_of(
                action,
                blocker,
                implementation,
                auto_review,
                review_fix,
                decision,
            ).0;
            let any = runs(implementation) || runs(auto_review) || runs(review_fix);
            &&& any ==> state == AutopilotTokenSafetyState::Guarded
            &&& state == AutopilotTokenSafetyState::Idle ==> !any && action
                != AutopilotNextAction::StartAutoReview
            &&& action == AutopilotNextAction::StartAutoReview ==> state
                == AutopilotTokenSafetyState::Guarded
        }),
{
}

/// Two texts that hold no colon are told apart by what stands before the first colon.
proof fn lemma_split_at_colon(a: Seq<char>, b: Seq<char>, c: Seq<char>, d: Seq<char>)
    requires
        a + ":"@ + b == c + ":"@ + d,
        forall|i: int| 0 <= i < a.len() ==> a[i] != ':',
        forall|i: int| 0 <= i < c.len() ==> c[i] != ':',
    ensures
        a == c,
        b == d,
{
    reveal_strlit(":");
    let left = a + ":"@ + b;
    let right = c + ":"@ + d;
    assert(left[a.len() as int] == ':');
    assert(right[c.len() as int] == ':');
    if a.len() < c.len() {
        assert(right[a.len() as int] == c[a.len() as int]);
    } else if c.len() < a.len() {
        assert(left[c.len() as int] == a[c.len() as int]);
    }
    assert forall|i: int| 0 <= i < a.len() implies a[i] == c[i] by {
        assert(left[i] == a[i]);
        assert(right[i] == c[i]);
    }
    assert(a =~= c);
    assert(left.len() == a.len() + 1 + b.len());
    assert(right.len() == c.len() + 1 + d.len());
    assert forall|i: int| 0 <= i < b.len() implies b[i] == d[i] by {
        assert(left[a.len() + 1 + i] == b[i]);
        assert(right[c.len() + 1 + i] == d[i]);
    }
    assert(b =~= d);
}

/// The identifier of a process, where there is one.
pub open spec fn id_of_row(row: Option<ProcessRow>) -> Option<u128> {
    match row {
        Some(row) => Some(row.id.bits),
        None => None,
    }
}

/// A part of a key holds no colon and tells the process.
proof fn lemma_key_part(a: Option<ProcessRow>, b: Option<ProcessRow>, missing: Seq<char>)
    requires
        missing.len() < 36,
        forall|i: int| 0 <= i < missing.len() ==> missing[i] != ':',
    ensures
        forall|i: int| 0 <= i < id_or(a, missing).len() ==> id_or(a, missing)[i] != ':',
        id_or(a, missing) == id_or(b, missing) ==> id_of_row(a) == id_of_row(b),
{
    if let Some(row) = a {
        law_id_text_shape(row.id.bits);
    }
    if let Some(row) = b {
        law_id_text_shape(row.id.bits);
    }
    if id_or(a, missing) == id_or(b, missing) && a is Some && b is Some {
        law_id_text_injective(a->0.id.bits, b->0.id.bits);
    }
}

/// Five parts with colons between, from the front to the back.
proof fn lemma_parts_in_turn(
    a: Seq<char>,
    b: Seq<char>,
    c: Seq<char>,
    d: Seq<char>,
    e: Seq<char>,
)
    ensures
        a + ":"@ + b + ":"@ + c + ":"@ + d + ":"@ + e == a + ":"@ + (b + ":"@ + (c + ":"@ + (d
            + ":"@ + e))),
{
    assert(a + ":"@ + b + ":"@ + c + ":"@ + d + ":"@ + e =~= a + ":"@ + (b + ":"@ + (c + ":"@ + (d
        + ":"@ + e))));
}

/// Decisions are told apart by their names.
proof fn lemma_decision_names(a: AutopilotDecision, b: AutopilotDecision)
    requires
        decision_name_text(a) == decision_name_text(b),
    ensures
        a == b,
{
    reveal_strlit("Missing");
    reveal_strlit("Running");
    reveal_strlit("Pass");
    reveal_strlit("RequestChanges");
    reveal_strlit("Failed");
    assert("Missing"@[0] == 'M');
    assert("Running"@[0] == 'R' && "Running"@[2] == 'n');
    assert("Pass"@[0] == 'P');
    assert("RequestChanges"@[0] == 'R' && "RequestChanges"@[2] == 'q');
    assert("Failed"@[0] == 'F');
}

/// A key tells the workspace, its three processes and the decision: two states with the same key
/// are the same state.
pub proof fn law_key_tells_the_state(
    w1: Workspace,
    i1: Option<ProcessRow>,
    r1: Option<ProcessRow>,
    f1: Option<ProcessRow>,
    d1: AutopilotDecision,
    w2: Workspace,
    i2: Option<ProcessRow>,
    r2: Option<ProcessRow>,
    f2: Option<ProcessRow>,
    d2: AutopilotDecision,
)
    requires
        key_of(w1, i1, r1, f1, d1) == key_of(w2, i2, r2, f2, d2),
    ensures
        w1.id == w2.id,
        id_of_row(i1) == id_of_row(i2),
        id_of_row(r1) == id_of_row(r2),
        id_of_row(f1) == id_of_row(f2),
        d1 == d2,
{
    reveal_strlit("no-implementation");
    reveal_strlit("no-review");
    reveal_strlit("no-review-fix");
    let (a1, a2) = (id_text(w1.id.bits), id_text(w2.id.bits));
    let (b1, b2) = (id_or(i1, "no-implementation"@), id_or(i2, "no-implementation"@));
    let (c1, c2) = (id_or(r1, "no-review"@), id_or(r2, "no-review"@));
    let (e1, e2) = (id_or(f1, "no-review-fix"@), id_or(f2, "no-review-fix"@));
    let (n1, n2) = (decision_name_text(d1), decision_name_text(d2));
    law_id_text_shape(w1.id.bits);
    law_id_text_shape(w2.id.bits);
    lemma_key_part(i1, i2, "no-implementation"@);
    lemma_key_part(i2, i1, "no-implementation"@);
    lemma_key_part(r1, r2, "no-review"@);
    lemma_key_part(r2, r1, "no-review"@);
    lemma_key_part(f1, f2, "no-review-fix"@);
    lemma_key_part(f2, f1, "no-review-fix"@);
    let (y1, y2) = (e1 + ":"@ + n1, e2 + ":"@ + n2);
    let (x1, x2) = (c1 + ":"@ + y1, c2 + ":"@ + y2);
    let (v1, v2) = (b1 + ":"@ + x1, b2 + ":"@ + x2);
    lemma_parts_in_turn(a1, b1, c1, e1, n1);
    lemma_parts_in_turn(a2, b2, c2, e2, n2);
    lemma_split_at_colon(a1, v1, a2, v2);
    law_id_text_injective(w1.id.bits, w2.id.bits);
    lemma_split_at_colon(b1, x1, b2, x2);
    lemma_split_at_colon(c1, y1, c2, y2);
    lemma_split_at_colon(e1, n1, e2, n2);
    lemma_decision_names(d1, d2);
}

/// Times are held against each other to the nanosecond where both are such, and as texts where one
/// of them is none.
pub proof fn law_later_times_are_after(a: Seq<char>, b: Seq<char>, x: (i64, u32), y: (i64, u32))
    ensures
        rfc3339_instant(a) == Some(x) && rfc3339_instant(b) == Some(y) ==> {
            &&& x.0 > y.0 ==> time_after(a, b)
            &&& x.0 < y.0 ==> !time_after(a, b)
            &&& x.0 == y.0 ==> (time_after(a, b) <==> x.1 > y.1)
        },
        rfc3339_instant(a) is None || rfc3339_instant(b) is None ==> time_after(a, b) == text_after(
            a,
            b,
        ),
{
}

/// A fix counts against the latest review alone: it was tried where it started after that review
/// ended, or after it started where it has no end, and is through where it then completed with
/// exit code zero.
pub proof fn law_fixes_count_against_the_latest_review(fix: ProcessRow, review: ProcessRow)
    ensures
        !fix_attempted(fix, None) && !fix_completed(fix, None),
        review.completed_at matches Some(end) ==> (fix_attempted(fix, Some(review)) <==> time_after(
            fix.started_at@,
            end@,
        )),
        review.completed_at is None ==> (fix_attempted(fix, Some(review)) <==> time_after(
            fix.started_at@,
            review.started_at@,
        )),
        fix_completed(fix, Some(review)) <==> fix_attempted(fix, Some(review)) && fix.status
            == ExecutionProcessStatus::Completed && fix.exit_code == Some(0i64),
{
}

/// What follows for a workspace, told from its processes: it is over; nothing was done in it yet;
/// work, a review or a fix still runs; work or a fix ended without success; a review is missing,
/// failed, asks for changes or has passed.
pub proof fn law_next_action_follows_the_processes(
    workspace: Workspace,
    implementation: Option<ProcessRow>,
    decision: AutopilotDecision,
    latest_review: Option<ProcessRow>,
    review_fix: Option<ProcessRow>,
    state: Seq<char>,
)
    ensures
        ({
            let action = next_step(
                workspace,
                implementation,
                decision,
                latest_review,
                review_fix,
                state,
            ).0;
            let over = workspace.archived || workspace.worktree_deleted || state
                == "done_or_archived"@ || state == "merged"@;
            let working = implementation matches Some(row) && row.status
                == ExecutionProcessStatus::Running;
            let worked = implementation matches Some(row) && row.status
                == ExecutionProcessStatus::Completed && row.exit_code == Some(0i64);
            let ready = !over && worked;
            let fixing = review_fix matches Some(row) && row.status
                == ExecutionProcessStatus::Running;
            let tried = review_fix matches Some(row) && fix_attempted(row, latest_review);
            let fixed = review_fix matches Some(row) && row.status
                == ExecutionProcessStatus::Completed && row.exit_code == Some(0i64);
            &&& action == AutopilotNextAction::Done <==> over
            &&& action == AutopilotNextAction::NoWorkspace <==> !over && implementation is None
            &&& action == AutopilotNextAction::WaitForImplementation <==> !over && working
            &&& !over && implementation is Some && !working && !worked ==> action
                == AutopilotNextAction::InvestigateFailure
            &&& ready && decision == AutopilotDecision::Failed ==> action
                == AutopilotNextAction::InvestigateFailure
            &&& action == AutopilotNextAction::WaitForAutoReview <==> ready && decision
                == AutopilotDecision::Running
            &&& action == AutopilotNextAction::StartAutoReview <==> ready && (decision
                == AutopilotDecision::Missing || (decision == AutopilotDecision::RequestChanges
                && tried && fixed))
            &&& action == AutopilotNextAction::WaitForReviewFix <==> ready && decision
                == AutopilotDecision::RequestChanges && fixing
            &&& action == AutopilotNextAction::StartReviewFix <==> ready && decision
                == AutopilotDecision::RequestChanges && !fixing && !tried
            &&& ready && decision == AutopilotDecision::RequestChanges && !fixing && tried && !fixed
                ==> action == AutopilotNextAction::InvestigateFailure
            &&& action == AutopilotNextAction::ReadyForMerge || action
                == AutopilotNextAction::MergeWait ==> ready && decision == AutopilotDecision::Pass
            &&& ready && decision == AutopilotDecision::Pass ==> {
                &&& action == AutopilotNextAction::InvestigateFailure <==> state
                    == "blocked_by_dirty_worktree"@ || state == "blocked_by_draft_pr"@ || state
                    == "blocked_by_failing_checks"@ || state == "blocked_by_pr_mergeability"@
                &&& action == AutopilotNextAction::MergeWait <==> state == "waiting_for_checks"@
                &&& action == AutopilotNextAction::ReadyForMerge <==> state
                    != "blocked_by_dirty_worktree"@ && state != "blocked_by_draft_pr"@ && state
                    != "blocked_by_failing_checks"@ && state != "blocked_by_pr_mergeability"@
                    && state != "waiting_for_checks"@
            }
        }),
{
    lemma_states_differ();
}

/// The names of the states of a merge are apart.
proof fn lemma_states_differ()
    ensures
        "waiting_for_checks"@.len() == 18,
        "merged_pending_done"@.len() == 19,
        "blocked_by_draft_pr"@.len() == 19,
        "merged_pending_done"@[0] == 'm',
        "blocked_by_draft_pr"@[0] == 'b',
        "pr_open_pending_merge"@.len() == 21,
        "review_passed_merge_status_unknown"@.len() == 34,
        "blocked_by_dirty_worktree"@.len() == 25,
        "blocked_by_failing_checks"@.len() == 25,
        "blocked_by_dirty_worktree"@[11] == 'd',
        "blocked_by_failing_checks"@[11] == 'f',
        "blocked_by_pr_mergeability"@.len() == 26,
        "blocked_by_pr_requirements"@.len() == 26,
        "blocked_by_pr_mergeability"@[14] == 'm',
        "blocked_by_pr_requirements"@[14] == 'r',
        "no_pr_merge_found"@.len() == 17,
{
    reveal_strlit("waiting_for_checks");
    reveal_strlit("merged_pending_done");
    reveal_strlit("blocked_by_draft_pr");
    reveal_strlit("pr_open_pending_merge");
    reveal_strlit("review_passed_merge_status_unknown");
    reveal_strlit("blocked_by_dirty_worktree");
    reveal_strlit("blocked_by_failing_checks");
    reveal_strlit("blocked_by_pr_mergeability");
    reveal_strlit("blocked_by_pr_requirements");
    reveal_strlit("no_pr_merge_found");
}

/// A merged state is reconciled, an open pull request is merged, and any other state blocks with
/// its own reason.
pub proof fn law_states_lead_to_plans(state: Seq<char>)
    ensures
        plan_for(state) == MergePlanView::ReconcileDone <==> state == "merged_pending_done"@,
        plan_for(state) == MergePlanView::AttemptPrMerge <==> state == "pr_open_pending_merge"@
            || state == "review_passed_merge_status_unknown"@,
        state == "blocked_by_dirty_worktree"@ ==> plan_for(state) == MergePlanView::Blocked(
            "Merge is blocked by dirty/conflicting workspace changes."@,
        ),
        state == "blocked_by_pr_requirements"@ ==> plan_for(state) == MergePlanView::Blocked(
            "PR merge is blocked by GitHub checks, reviews, conflicts, or mergeability."@,
        ),
        state == "blocked_by_draft_pr"@ ==> plan_for(state) == MergePlanView::Blocked(
            "PR is still a draft."@,
        ),
        state == "blocked_by_failing_checks"@ ==> plan_for(state) == MergePlanView::Blocked(
            "PR has failing checks."@,
        ),
        state == "blocked_by_pr_mergeability"@ ==> plan_for(state) == MergePlanView::Blocked(
            "PR is not currently mergeable according to GitHub."@,
        ),
        state == "waiting_for_checks"@ ==> plan_for(state) == MergePlanView::Blocked(
            "PR checks are not green yet."@,
        ),
        state == "no_pr_merge_found"@ ==> plan_for(state) == MergePlanView::Blocked(
            "Review passed, but no open or merged pull request is linked to this workspace."@,
        ),
{
    lemma_states_differ();
}

/// After a passed review, what is said of a blocked merge is its reason.
pub proof fn law_blocked_merges_tell_their_reason(
    workspace: Workspace,
    implementation: ProcessRow,
    latest_review: Option<ProcessRow>,
    review_fix: Option<ProcessRow>,
    state: Seq<char>,
    reason: Seq<char>,
)
    requires
        !workspace.archived,
        !workspace.worktree_deleted,
        state != "done_or_archived"@,
        state != "merged"@,
        implementation.status == ExecutionProcessStatus::Completed,
        implementation.exit_code == Some(0i64),
        plan_for(state) == MergePlanView::Blocked(reason),
    ensures
        next_step(
            workspace,
            Some(implementation),
            AutopilotDecision::Pass,
            latest_review,
            review_fix,
            state,
        ).1 == Some(reason),
{
}

/// A fix session may start exactly in a workspace that is not over, after work that completed with
/// exit code zero, where the review asks for changes and no fix runs or was tried since.
pub proof fn law_fixes_start_once_for_each_request(
    workspace: Workspace,
    implementation: Option<ProcessRow>,
    decision: AutopilotDecision,
    latest_review: Option<ProcessRow>,
    review_fix: Option<ProcessRow>,
)
    ensures
        fix_gate(workspace, implementation, decision, latest_review, review_fix) is Ok <==> {
            &&& !workspace.archived && !workspace.worktree_deleted
            &&& implementation matches Some(row) && row.status == ExecutionProcessStatus::Completed
                && row.exit_code == Some(0i64)
            &&& decision == AutopilotDecision::RequestChanges
            &&& review_fix matches Some(row) ==> row.status != ExecutionProcessStatus::Running
                && !fix_attempted(row, latest_review)
        },
{
}

/// A review session may start exactly in a workspace that is not over, after work that completed
/// with exit code zero, where there is no review yet, or where changes were asked for, a fix since
/// then completed with exit code zero, and the rerun is asked for.
pub proof fn law_reviews_start_first_or_after_a_fix(
    workspace: Workspace,
    implementation: Option<ProcessRow>,
    decision: AutopilotDecision,
    latest_review: Option<ProcessRow>,
    review_fix: Option<ProcessRow>,
    state: Seq<char>,
    rerun: bool,
)
    ensures
        review_gate(
            workspace,
            implementation,
            decision,
            latest_review,
            review_fix,
            state,
            rerun,
        ) is Ok <==> {
            &&& !workspace.archived && !workspace.worktree_deleted
            &&& state != "done_or_archived"@ && state != "merged"@
            &&& implementation matches Some(row) && row.status == ExecutionProcessStatus::Completed
                && row.exit_code == Some(0i64)
            &&& decision == AutopilotDecision::Missing || (decision
                == AutopilotDecision::RequestChanges && rerun && (review_fix matches Some(row)
                && row.status == ExecutionProcessStatus::Completed && row.exit_code == Some(0i64)
                && fix_attempted(row, latest_review)))
        },
{
    lemma_states_differ();
}

/// Why a fix session may not start is told in this order: the workspace is over, there is no work,
/// it still runs or failed, no changes are asked for, a fix runs, or one was tried since.
pub proof fn law_refused_fixes_are_told_why(
    workspace: Workspace,
    implementation: Option<ProcessRow>,
    decision: AutopilotDecision,
    latest_review: Option<ProcessRow>,
    review_fix: Option<ProcessRow>,
)
    ensures
        ({
            let gate = fix_gate(workspace, implementation, decision, latest_review, review_fix);
            let over = workspace.archived || workspace.worktree_deleted;
            let running = implementation matches Some(row) && row.status
                == ExecutionProcessStatus::Running;
            let worked = implementation matches Some(row) && row.status
                == ExecutionProcessStatus::Completed && row.exit_code == Some(0i64);
            let fixing = review_fix matches Some(row) && row.status
                == ExecutionProcessStatus::Running;
            &&& over ==> gate == Err::<(), Seq<char>>("Workspace is archived or deleted."@)
            &&& !over && implementation is None ==> gate == Err::<(), Seq<char>>(
                "No implementation process was found for this workspace."@,
            )
            &&& !over && running ==> gate == Err::<(), Seq<char>>(
                "Implementation is still running."@,
            )
            &&& !over && implementation is Some && !running && !worked ==> gate == Err::<
                (),
                Seq<char>,
            >("Latest implementation process did not complete cleanly."@)
            &&& !over && worked && decision != AutopilotDecision::RequestChanges ==> gate == Err::<
                (),
                Seq<char>,
            >("Review fix can only start after auto-review requests changes."@)
            &&& !over && worked && decision == AutopilotDecision::RequestChanges && fixing ==> gate
                == Err::<(), Seq<char>>("Review fix is already running."@)
        }),
{
}

/// Nothing spends tokens unguarded: where a process runs, or a review could start, the state is
/// guarded; where there is no work yet or something failed, it is blocked and says why; elsewhere
/// it is idle.
pub proof fn law_token_safety_is_told_from_the_processes(
    action: AutopilotNextAction,
    blocker: Option<Seq<char>>,
    implementation: Option<ProcessRow>,
    auto_review: Option<ProcessRow>,
    review_fix: Option<ProcessRow>,
    decision: AutopilotDecision,
)
    ensures
        ({
            let (state, sentence) = safety_of(
                action,
                blocker,
                implementation,
                auto_review,
                review_fix,
                decision,
            );
            let some_run = (implementation matches Some(row) && row.status
                == ExecutionProcessStatus::Running) || (auto_review matches Some(row) && row.status
                == ExecutionProcessStatus::Running) || (review_fix matches Some(row) && row.status
                == ExecutionProcessStatus::Running);
            let stuck = action == AutopilotNextAction::NoWorkspace || action
                == AutopilotNextAction::InvestigateFailure;
            &&& state == AutopilotTokenSafetyState::Guarded <==> some_run || action
                == AutopilotNextAction::StartAutoReview
            &&& state == AutopilotTokenSafetyState::Blocked <==> !some_run && stuck
            &&& state == AutopilotTokenSafetyState::Idle <==> !some_run && !stuck && action
                != AutopilotNextAction::StartAutoReview
            &&& state == AutopilotTokenSafetyState::Blocked ==> (blocker matches Some(text)
                ==> sentence == text)
        }),
{
}

/// The state of the workflow is that of the next action, and what is said of work that cannot go
/// on is what blocks it.
pub proof fn law_workflow_states_follow_the_next_action(
    action: AutopilotNextAction,
    blocker: Option<Seq<char>>,
    decision: AutopilotDecision,
    latest_review: Option<ProcessRow>,
    review_fix: Option<ProcessRow>,
)
    ensures
        ({
            let (state, sentence) = workflow_of(
                action,
                blocker,
                decision,
                latest_review,
                review_fix,
            );
            &&& action == AutopilotNextAction::NoWorkspace <==> state
                == AutopilotWorkflowState::Queued
            &&& action == AutopilotNextAction::WaitForImplementation <==> state
                == AutopilotWorkflowState::ImplementationRunning
            &&& action == AutopilotNextAction::StartAutoReview <==> state
                == AutopilotWorkflowState::ReadyToAdvance
            &&& action == AutopilotNextAction::WaitForAutoReview <==> state
                == AutopilotWorkflowState::ReviewRunning
            &&& action == AutopilotNextAction::StartReviewFix <==> state
                == AutopilotWorkflowState::ReviewRequestedChanges
            &&& action == AutopilotNextAction::WaitForReviewFix <==> state
                == AutopilotWorkflowState::ReviewFixRunning
            &&& action == AutopilotNextAction::ReadyForMerge <==> state
                == AutopilotWorkflowState::ReviewPassed
            &&& action == AutopilotNextAction::MergeWait <==> state
                == AutopilotWorkflowState::MergeWaiting
            &&& action == AutopilotNextAction::Done <==> state == AutopilotWorkflowState::Done
            &&& action == AutopilotNextAction::InvestigateFailure <==> state
                == AutopilotWorkflowState::Blocked
            &&& action == AutopilotNextAction::NoWorkspace || action
                == AutopilotNextAction::ReadyForMerge || action
                == AutopilotNextAction::InvestigateFailure ==> (blocker matches Some(text)
                ==> sentence == text)
        }),
{
}

/// Why a review may not start while something else comes next names what comes next.
pub proof fn law_refused_reviews_name_the_next_action(
    workspace: Workspace,
    implementation: Option<ProcessRow>,
    decision: AutopilotDecision,
    latest_review: Option<ProcessRow>,
    review_fix: Option<ProcessRow>,
    state: Seq<char>,
    rerun: bool,
)
    ensures
        ({
            let action = next_step(
                workspace,
                implementation,
                decision,
                latest_review,
                review_fix,
                state,
            ).0;
            let gate = review_gate(
                workspace,
                implementation,
                decision,
                latest_review,
                review_fix,
                state,
                rerun,
            );
            let named = |name: Seq<char>|
                gate == Err::<(), Seq<char>>(
                    "Auto-review cannot start while the next action is "@ + name + "."@,
                );
            &&& action == AutopilotNextAction::NoWorkspace ==> named("no_workspace"@)
            &&& action == AutopilotNextAction::WaitForImplementation ==> named(
                "wait_for_implementation"@,
            )
            &&& action == AutopilotNextAction::WaitForAutoReview ==> named("wait_for_auto_review"@)
            &&& action == AutopilotNextAction::StartReviewFix ==> named("start_review_fix"@)
            &&& action == AutopilotNextAction::WaitForReviewFix ==> named("wait_for_review_fix"@)
            &&& action == AutopilotNextAction::ReadyForMerge ==> named("ready_for_merge"@)
            &&& action == AutopilotNextAction::MergeWait ==> named("merge_wait"@)
            &&& action == AutopilotNextAction::Done ==> named("done"@)
            &&& action == AutopilotNextAction::InvestigateFailure ==> named(
                "investigate_failure"@,
            )
        }),
{
}

/// A key begins with the identifier of the workspace and ends with the decision; between them stand
/// the identifiers of the implementation, the review and the fix, in this order.
pub proof fn law_keys_hold_identifiers_in_order(
    workspace: Workspace,
    implementation: ProcessRow,
    auto_review: ProcessRow,
    review_fix: ProcessRow,
)
    ensures
        key_of(
            workspace,
            Some(implementation),
            Some(auto_review),
            Some(review_fix),
            AutopilotDecision::RequestChanges,
        ) == id_text(workspace.id.bits) + ":"@ + id_text(implementation.id.bits) + ":"@ + id_text(
            auto_review.id.bits,
        ) + ":"@ + id_text(review_fix.id.bits) + ":"@ + "RequestChanges"@,
        key_of(workspace, None, None, None, AutopilotDecision::Missing) == id_text(
            workspace.id.bits,
        ) + ":"@ + "no-implementation"@ + ":"@ + "no-review"@ + ":"@ + "no-review-fix"@ + ":"@
            + "Missing"@,
{
}

} // verus!
