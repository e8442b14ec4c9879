//! The status of a workspace, put together from its processes, its reviews and its pull request.
use vstd::prelude::*;

use super::gates::{duplicate_prevention_key, next_action, token_safety, workflow_state};
#[allow(unused_imports)]
use super::gates::{key_of, next_step, safety_of, workflow_of};
use super::review::decide_from_review_attempts;
#[allow(unused_imports)]
use super::review::decided;
#[allow(unused_imports)]
use super::sessions::{
    first_of, fixes, implementations, law_first_process_is_found, reviews, running, state_text,
};
use super::sessions::{
    implementation_process, implementation_state, review_fix_process, review_fix_state,
    review_processes, running_review_attempt, DEFAULT_CODEX_MODEL, DEFAULT_CODEX_REASONING,
};
use super::types::{
    process_summary_option, AutopilotDecision, AutopilotNextAction, AutopilotPrStatus,
    AutopilotTokenSafetyState, AutopilotWorkflowState, ImplicationAutopilotStatus, ProcessRow,
    Workspace,
};
#[allow(unused_imports)]
use super::types::{
    summary_of_option, view_of_pr, AutopilotProcessSummary, PrStatusView, StatusView,
};
use crate::text::{copy_option, owned, slice_of_option};
#[allow(unused_imports)]
use crate::text::view_of_option;

verus! {

/// The status of a workspace with these processes, latest first, where `text` is the text of the
/// review that decides and `state` the state of the merge.
pub open spec fn status_of(
    workspace: Workspace,
    rows: Seq<ProcessRow>,
    text: Seq<char>,
    pr: Option<PrStatusView>,
    state: Seq<char>,
) -> StatusView {
    let implementation = first_of(rows, implementations());
    let fix = first_of(rows, fixes());
    let all_reviews = rows.filter(reviews());
    let (decision, excerpt, review) = decided(all_reviews, text);
    let (action, blocker) = next_step(workspace, implementation, decision, review, fix, state);
    let (safety, safety_note) = safety_of(action, blocker, implementation, review, fix, decision);
    let (workflow, workflow_reason) = workflow_of(action, blocker, decision, review, fix);
    StatusView {
        workspace_id: workspace.id,
        workspace_name: view_of_option(workspace.name),
        implementation_state: state_text(implementation, "missing"@),
        auto_review_state: if first_of(all_reviews, running()) is Some {
            AutopilotDecision::Running
        } else {
            decision
        },
        latest_review_decision: decision,
        latest_review_excerpt: excerpt,
        review_fix_state: state_text(fix, "not_started"@),
        pr_merge_state: state,
        next_action: action,
        blocker,
        implementation_process: summary_of_option(implementation),
        auto_review_process: summary_of_option(review),
        review_fix_process: summary_of_option(fix),
        default_model: DEFAULT_CODEX_MODEL@,
        default_reasoning: DEFAULT_CODEX_REASONING@,
        daemonized: true,
        workflow_state: workflow,
        workflow_state_reason: workflow_reason,
        duplicate_prevention_key: key_of(workspace, implementation, review, fix, decision),
        token_safety_state: safety,
        token_safety_note: safety_note,
        pr_status: pr,
    }
}

/// The status of a workspace with the processes `rows`, latest first, where `review_text` is the
/// text of the review that decides.
pub fn build_status(
    workspace: &Workspace,
    rows: &[ProcessRow],
    review_text: &str,
    pr_status: Option<AutopilotPrStatus>,
    pr_merge_state: &str,
) -> (r: ImplicationAutopilotStatus)
    ensures
        r@ == status_of(
            *workspace,
            rows@,
            review_text@,
            view_of_pr(pr_status),
            pr_merge_state@,
        ),
{
    let implementation = implementation_process(rows);
    let all_reviews = review_processes(rows);
    let fix = review_fix_process(rows);
    let (decision, excerpt, review) = decide_from_review_attempts(all_reviews.as_slice(), review_text);
    let auto_review_state = match running_review_attempt(all_reviews.as_slice()) {
        Some(_) => AutopilotDecision::Running,
        None => decision,
    };
    let (action, blocker) = next_action(
        workspace,
        implementation,
        &decision,
        review,
        fix,
        pr_merge_state,
        pr_status.as_ref(),
    );
    let (token_safety_state, token_safety_note) = token_safety(
        &action,
        slice_of_option(&blocker),
        implementation,
        review,
        fix,
        &decision,
    );
    let (workflow, workflow_state_reason) = workflow_state(
        &action,
        slice_of_option(&blocker),
        implementation,
        &decision,
        review,
        fix,
        pr_merge_state,
    );
    let duplicate_prevention_key = duplicate_prevention_key(
        workspace,
        implementation,
        review,
        fix,
        &decision,
    );
    ImplicationAutopilotStatus {
        workspace_id: workspace.id,
        workspace_name: copy_option(&workspace.name),
        implementation_state: implementation_state(implementation),
        auto_review_state,
        latest_review_decision: decision,
        latest_review_excerpt: excerpt,
        review_fix_state: review_fix_state(fix),
        pr_merge_state: owned(pr_merge_state),
        next_action: action,
        blocker,
        implementation_process: process_summary_option(implementation),
        auto_review_process: process_summary_option(review),
        review_fix_process: process_summary_option(fix),
        default_model: owned(DEFAULT_CODEX_MODEL),
        default_reasoning: owned(DEFAULT_CODEX_REASONING),
        daemonized: true,
        workflow_state: workflow,
        workflow_state_reason,
        duplicate_prevention_key,
        token_safety_state,
        token_safety_note,
        pr_status,
    }
}

/// A status whose merge is blocked by `blocker`.
pub open spec fn blocked_status(status: StatusView, blocker: Seq<char>) -> StatusView {
    StatusView {
        blocker: Some(blocker),
        next_action: AutopilotNextAction::InvestigateFailure,
        workflow_state: AutopilotWorkflowState::Blocked,
        workflow_state_reason: blocker,
        token_safety_state: AutopilotTokenSafetyState::Blocked,
        token_safety_note: "Merge/done reconciliation is blocked before another Codex session can start."@,
        ..status
    }
}

/// Marks a status as blocked where the merge was.
pub fn apply_merge_blocker(status: &mut ImplicationAutopilotStatus, blocker: &Option<String>)
    ensures
        final(status)@ == (match blocker {
            Some(blocker) => blocked_status(old(status)@, blocker@),
            None => old(status)@,
        }),
{
    if let Some(blocker) = blocker {
        status.blocker = Some(blocker.clone());
        status.next_action = AutopilotNextAction::InvestigateFailure;
        status.workflow_state = AutopilotWorkflowState::Blocked;
        status.workflow_state_reason = blocker.clone();
        status.token_safety_state = AutopilotTokenSafetyState::Blocked;
        status.token_safety_note = owned(
            "Merge/done reconciliation is blocked before another Codex session can start.",
        );
    }
}

// ---------------------------------------------------------------------------
// Laws
// ---------------------------------------------------------------------------

/// The pull request is shown as it is and decides nothing by itself: its part is in the state of
/// the merge.
pub proof fn law_pull_request_is_only_shown(
    workspace: Workspace,
    rows: Seq<ProcessRow>,
    text: Seq<char>,
    pr: Option<PrStatusView>,
    other: Option<PrStatusView>,
    state: Seq<char>,
)
    ensures
        status_of(workspace, rows, text, pr, state) == (StatusView {
            pr_status: pr,
            ..status_of(workspace, rows, text, other, state)
        }),
{
}

/// A status that offers to start a session offers it while no process of the latest of each kind
/// runs: the implementation has completed with success, the latest review has ended or there is
/// none, and the latest fix does not run where a fix or a rerun is offered.
pub proof fn law_no_session_beside_a_running_one(
    workspace: Workspace,
    rows: Seq<ProcessRow>,
    text: Seq<char>,
    pr: Option<PrStatusView>,
    state: Seq<char>,
)
    ensures
        ({
            let status = status_of(workspace, rows, text, pr, state);
            let implementation = first_of(rows, implementations());
            let fix = first_of(rows, fixes());
            status.next_action == AutopilotNextAction::StartAutoReview || status.next_action
                == AutopilotNextAction::StartReviewFix ==> {
                &&& implementation is Some && implementation->0.is_clean()
                &&& status.latest_review_decision != AutopilotDecision::Running
                &&& status.latest_review_decision == AutopilotDecision::RequestChanges ==> !(fix
                    is Some && super::sessions::is_running(fix->0))
            }
        }),
{
}

/// A status is told by the latest implementation, the latest fix, the reviews among the processes
/// and the state of the merge: each part is asked the same question, and what is shown of the
/// processes is what is asked.
pub proof fn law_status_is_put_together_from_the_latest_processes(
    workspace: Workspace,
    rows: Seq<ProcessRow>,
    text: Seq<char>,
    pr: Option<PrStatusView>,
    state: Seq<char>,
)
    ensures
        ({
            let status = status_of(workspace, rows, text, pr, state);
            let implementation = first_of(rows, implementations());
            let fix = first_of(rows, fixes());
            let all = rows.filter(reviews());
            let decision = decided(all, text).0;
            let review = decided(all, text).2;
            let step = next_step(workspace, implementation, decision, review, fix, state);
            &&& status.workspace_id == workspace.id
            &&& status.workspace_name == view_of_option(workspace.name)
            &&& status.latest_review_decision == decision
            &&& status.latest_review_excerpt == decided(all, text).1
            &&& status.next_action == step.0 && status.blocker == step.1
            &&& status.pr_merge_state == state && status.pr_status == pr
            &&& (status.token_safety_state, status.token_safety_note) == safety_of(
                step.0,
                step.1,
                implementation,
                review,
                fix,
                decision,
            )
            &&& (status.workflow_state, status.workflow_state_reason) == workflow_of(
                step.0,
                step.1,
                decision,
                review,
                fix,
            )
            &&& status.duplicate_prevention_key == key_of(
                workspace,
                implementation,
                review,
                fix,
                decision,
            )
            &&& status.implementation_state == state_text(implementation, "missing"@)
            &&& status.review_fix_state == state_text(fix, "not_started"@)
            &&& shows(status.implementation_process, implementation)
            &&& shows(status.auto_review_process, review)
            &&& shows(status.review_fix_process, fix)
            &&& status.default_model == "gpt-5.5"@ && status.default_reasoning == "medium"@
            &&& status.daemonized
        }),
{
}

/// The summary shows each field of the process as it is, and no process where there is none.
pub open spec fn shows(
    summary: Option<AutopilotProcessSummary>,
    row: Option<ProcessRow>,
) -> bool {
    match (summary, row) {
        (Some(summary), Some(row)) => {
            &&& summary.id == row.id && summary.session_id == row.session_id
            &&& summary.session_name == row.session_name && summary.status == row.status
            &&& summary.run_reason == row.run_reason && summary.exit_code == row.exit_code
            &&& summary.started_at == row.started_at && summary.completed_at == row.completed_at
        },
        (None, None) => true,
        _ => false,
    }
}

/// The reviews are shown as running wherever any of them runs, and as the latest one has decided
/// elsewhere.
pub proof fn law_any_running_review_is_shown(
    workspace: Workspace,
    rows: Seq<ProcessRow>,
    text: Seq<char>,
    pr: Option<PrStatusView>,
    state: Seq<char>,
)
    ensures
        ({
            let status = status_of(workspace, rows, text, pr, state);
            let all = rows.filter(reviews());
            let some_run = exists|i: int|
                0 <= i < all.len() && (#[trigger] all[i]).status
                    == super::types::ExecutionProcessStatus::Running;
            &&& some_run ==> status.auto_review_state == AutopilotDecision::Running
            &&& !some_run ==> status.auto_review_state == status.latest_review_decision
        }),
{
    let all = rows.filter(reviews());
    law_first_process_is_found(all, running());
    if exists|i: int|
        0 <= i < all.len() && (#[trigger] all[i]).status
            == super::types::ExecutionProcessStatus::Running {
        let i = choose|i: int|
            0 <= i < all.len() && (#[trigger] all[i]).status
                == super::types::ExecutionProcessStatus::Running;
        assert(running()(all[i]));
    }
    if first_of(all, running()) is Some {
        let row = first_of(all, running())->0;
        let i = choose|i: int|
            {
                &&& 0 <= i < all.len()
                &&& #[trigger] all[i] == row
                &&& running()(row)
                &&& forall|j: int| 0 <= j < i ==> !running()(#[trigger] all[j])
            };
        assert(all[i].status == super::types::ExecutionProcessStatus::Running);
    }
}

/// A merge that is blocked is shown as such, with its reason, and changes nothing else of a status.
pub proof fn law_blocked_merges_are_shown(status: StatusView, blocker: Seq<char>)
    ensures
        ({
            let blocked = blocked_status(status, blocker);
            &&& blocked.blocker == Some(blocker) && blocked.workflow_state_reason == blocker
            &&& blocked.next_action == AutopilotNextAction::InvestigateFailure
            &&& blocked.workflow_state == AutopilotWorkflowState::Blocked
            &&& blocked.token_safety_state == AutopilotTokenSafetyState::Blocked
            &&& blocked.workspace_id == status.workspace_id
            &&& blocked.pr_merge_state == status.pr_merge_state
            &&& blocked.latest_review_decision == status.latest_review_decision
            &&& blocked.pr_status == status.pr_status
            &&& blocked.duplicate_prevention_key == status.duplicate_prevention_key
        }),
{
}

} // verus!
