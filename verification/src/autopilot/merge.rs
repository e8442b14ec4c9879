//! Merging the pull requests of a workspace.
use vstd::prelude::*;

use super::types::{
    MergeStatus, PrMerge, PullRequestDetail, PullRequestStatus, UpsertPullRequestRequest,
};
use crate::ids::Uuid;
use crate::text::{copy_option, owned, push_decimal, same_text};
#[allow(unused_imports)]
use crate::text::{decimal, ends_with_text, starts_with_text, view_of_option, view_of_slice};

verus! {

// ---------------------------------------------------------------------------
// The plan
// ---------------------------------------------------------------------------

/// What to do about the merge of a workspace whose review has passed.
#[derive(Debug, Clone, PartialEq, Eq)]
pub enum AutopilotMergePlan {
    AttemptPrMerge,
    ReconcileDone,
    Blocked(String),
}

/// What a merge plan says.
pub enum MergePlanView {
    AttemptPrMerge,
    ReconcileDone,
    Blocked(Seq<char>),
}

impl View for AutopilotMergePlan {
    type V = MergePlanView;

    open spec fn view(&self) -> MergePlanView {
        match self {
            AutopilotMergePlan::AttemptPrMerge => MergePlanView::AttemptPrMerge,
            AutopilotMergePlan::ReconcileDone => MergePlanView::ReconcileDone,
            AutopilotMergePlan::Blocked(blocker) => MergePlanView::Blocked(blocker@),
        }
    }
}

/// What to do about a merge in the state `state`.
pub open spec fn plan_for(state: Seq<char>) -> MergePlanView {
    if state == "merged_pending_done"@ {
        MergePlanView::ReconcileDone
    } else if state == "pr_open_pending_merge"@ || state == "review_passed_merge_status_unknown"@ {
        MergePlanView::AttemptPrMerge
    } else {
        MergePlanView::Blocked(
            if state == "blocked_by_dirty_worktree"@ {
                "Merge is blocked by dirty/conflicting workspace changes."@
            } else if state == "blocked_by_pr_requirements"@ {
                "PR merge is blocked by GitHub checks, reviews, conflicts, or mergeability."@
            } else if state == "blocked_by_draft_pr"@ {
                "PR is still a draft."@
            } else if state == "blocked_by_failing_checks"@ {
                "PR has failing checks."@
            } else if state == "blocked_by_pr_mergeability"@ {
                "PR is not currently mergeable according to GitHub."@
            } else if state == "waiting_for_checks"@ {
                "PR checks are not green yet."@
            } else if state == "no_pr_merge_found"@ {
                "Review passed, but no open or merged pull request is linked to this workspace."@
            } else {
                "Review passed, but merge state is not specific enough for the app to advance safely."@
            },
        )
    }
}

/// What to do about a merge in the state `pr_merge_state`.
pub fn merge_plan_from_state(pr_merge_state: &str) -> (r: AutopilotMergePlan)
    ensures
        r@ == plan_for(pr_merge_state@),
{
    if same_text(pr_merge_state, "merged_pending_done") {
        AutopilotMergePlan::ReconcileDone
    } else if same_text(pr_merge_state, "pr_open_pending_merge") || same_text(
        pr_merge_state,
        "review_passed_merge_status_unknown",
    ) {
        AutopilotMergePlan::AttemptPrMerge
    } else if same_text(pr_merge_state, "blocked_by_dirty_worktree") {
        AutopilotMergePlan::Blocked(
            owned("Merge is blocked by dirty/conflicting workspace changes."),
        )
    } else if same_text(pr_merge_state, "blocked_by_pr_requirements") {
        AutopilotMergePlan::Blocked(
            owned("PR merge is blocked by GitHub checks, reviews, conflicts, or mergeability."),
        )
    } else if same_text(pr_merge_state, "blocked_by_draft_pr") {
        AutopilotMergePlan::Blocked(owned("PR is still a draft."))
    } else if same_text(pr_merge_state, "blocked_by_failing_checks") {
        AutopilotMergePlan::Blocked(owned("PR has failing checks."))
    } else if same_text(pr_merge_state, "blocked_by_pr_mergeability") {
        AutopilotMergePlan::Blocked(owned("PR is not currently mergeable according to GitHub."))
    } else if same_text(pr_merge_state, "waiting_for_checks") {
        AutopilotMergePlan::Blocked(owned("PR checks are not green yet."))
    } else if same_text(pr_merge_state, "no_pr_merge_found") {
        AutopilotMergePlan::Blocked(
            owned("Review passed, but no open or merged pull request is linked to this workspace."),
        )
    } else {
        AutopilotMergePlan::Blocked(
            owned(
                "Review passed, but merge state is not specific enough for the app to advance safely.",
            ),
        )
    }
}

// ---------------------------------------------------------------------------
// Completion
// ---------------------------------------------------------------------------

/// The class of one status.
pub open spec fn exactly(one: MergeStatus) -> spec_fn(MergeStatus) -> bool {
    |status: MergeStatus| status == one
}

/// How many of `statuses` are `one`.
pub open spec fn count_of(statuses: Seq<MergeStatus>, one: MergeStatus) -> nat {
    statuses.filter(exactly(one)).len()
}

/// What is left open once the pull requests with these statuses have been dealt with.
pub open spec fn completion_blocker(statuses: Seq<MergeStatus>) -> Option<Seq<char>> {
    let open = count_of(statuses, MergeStatus::Open);
    let closed = count_of(statuses, MergeStatus::Closed);
    let unknown = count_of(statuses, MergeStatus::Unknown);
    if statuses.len() == 0 {
        Some(
            "No linked pull requests were found for this workspace; create or link a PR and rerun app advance."@,
        )
    } else if open > 0 {
        Some(
            "Not all linked pull requests are merged yet: "@ + decimal(open) + " open PR"@ + (if open
                == 1 {
                ""@
            } else {
                "s"@
            }) + " remain"@ + (if open == 1 {
                "s"@
            } else {
                ""@
            }) + " after merge attempts."@,
        )
    } else if closed > 0 {
        Some(
            "Cannot complete autopilot merge: "@ + decimal(closed) + " linked PR"@ + (if closed
                == 1 {
                ""@
            } else {
                "s"@
            }) + " "@ + (if closed == 1 {
                "is"@
            } else {
                "are"@
            }) + " closed."@,
        )
    } else if unknown > 0 {
        Some(
            "Cannot complete autopilot merge: "@ + decimal(unknown) + " linked PR"@ + (if unknown
                == 1 {
                ""@
            } else {
                "s"@
            }) + " ha"@ + (if unknown == 1 {
                "s"@
            } else {
                "ve"@
            }) + " unknown status."@,
        )
    } else {
        None
    }
}

/// How many of `statuses` are `one`.
fn count_status(statuses: &[MergeStatus], one: MergeStatus) -> (r: usize)
    ensures
        r == count_of(statuses@, one),
{
    let mut count: usize = 0;
    proof {
        reveal(Seq::filter);
        assert(statuses@.take(0) =~= Seq::empty());
    }
    for i in 0..statuses.len()
        invariant
            count == count_of(statuses@.take(i as int), one),
            count <= i,
    {
        proof {
            reveal(Seq::filter);
            assert(statuses@.take(i + 1).drop_last() =~= statuses@.take(i as int));
        }
        if statuses[i] == one {
            count += 1;
        }
    }
    assert(statuses@.take(statuses@.len() as int) =~= statuses@);
    count
}

/// A sentence about `count` pull requests: `one` and `other` say it of one and of any other
/// number.
fn counted(front: &str, count: usize, middle: &str, one: (&str, &str, &str), other: (
    &str,
    &str,
    &str,
), back: &str) -> (r: String)
    ensures
        r@ == front@ + decimal(count as nat) + middle@ + (if count == 1 {
            one.0@
        } else {
            other.0@
        }) + (if count == 1 {
            one.1@
        } else {
            other.1@
        }) + (if count == 1 {
            one.2@
        } else {
            other.2@
        }) + back@,
{
    let mut text = owned(front);
    push_decimal(&mut text, count as u64);
    text.append(middle);
    let (first, second, third) = if count == 1 {
        one
    } else {
        other
    };
    text.append(first);
    text.append(second);
    text.append(third);
    text.append(back);
    text
}

/// What is left open once the pull requests with these statuses have been dealt with.
pub fn linked_pr_merge_completion_blocker(statuses: &[MergeStatus]) -> (r: Option<String>)
    ensures
        view_of_option(r) == completion_blocker(statuses@),
{
    if statuses.len() == 0 {
        return Some(
            owned(
                "No linked pull requests were found for this workspace; create or link a PR and rerun app advance.",
            ),
        );
    }
    let open = count_status(statuses, MergeStatus::Open);
    if open > 0 {
        return Some(
            counted(
                "Not all linked pull requests are merged yet: ",
                open,
                " open PR",
                ("", " remain", "s"),
                ("s", " remain", ""),
                " after merge attempts.",
            ),
        );
    }
    let closed = count_status(statuses, MergeStatus::Closed);
    if closed > 0 {
        return Some(
            counted(
                "Cannot complete autopilot merge: ",
                closed,
                " linked PR",
                ("", " ", "is"),
                ("s", " ", "are"),
                " closed.",
            ),
        );
    }
    let unknown = count_status(statuses, MergeStatus::Unknown);
    if unknown > 0 {
        return Some(
            counted(
                "Cannot complete autopilot merge: ",
                unknown,
                " linked PR",
                ("", " ha", "s"),
                ("s", " ha", "ve"),
                " unknown status.",
            ),
        );
    }
    None
}

/// The state of a merge whose pull requests have these statuses, where there are any.
pub open spec fn completion_state(statuses: Seq<MergeStatus>) -> Option<Seq<char>> {
    if statuses.len() == 0 {
        None
    } else if completion_blocker(statuses) is None {
        Some("merged_pending_done"@)
    } else {
        Some("blocked_by_pr_requirements"@)
    }
}

/// The state of a merge whose pull requests have these statuses, where there are any.
pub fn merge_state_from_pr_completion(statuses: &[MergeStatus]) -> (r: Option<&'static str>)
    ensures
        view_of_slice(r) == completion_state(statuses@),
{
    if statuses.len() == 0 {
        return None;
    }
    match linked_pr_merge_completion_blocker(statuses) {
        None => Some("merged_pending_done"),
        Some(_) => Some("blocked_by_pr_requirements"),
    }
}

/// The status that the board is told of a merge: what is not known counts as open.
pub open spec fn board_status(status: MergeStatus) -> PullRequestStatus {
    match status {
        MergeStatus::Merged => PullRequestStatus::Merged,
        MergeStatus::Closed => PullRequestStatus::Closed,
        MergeStatus::Open => PullRequestStatus::Open,
        MergeStatus::Unknown => PullRequestStatus::Open,
    }
}

/// The status that the board is told of a merge.
pub fn pull_request_status_from_merge_status(status: &MergeStatus) -> (r: PullRequestStatus)
    ensures
        r == board_status(*status),
{
    match status {
        MergeStatus::Merged => PullRequestStatus::Merged,
        MergeStatus::Closed => PullRequestStatus::Closed,
        MergeStatus::Open | MergeStatus::Unknown => PullRequestStatus::Open,
    }
}

/// What the board is told of a pull request of the workspace `workspace_id`. The number keeps its
/// low 32 bits.
pub fn upsert_pull_request_request(
    detail: &PullRequestDetail,
    linked_pr: &PrMerge,
    workspace_id: Uuid,
) -> (r: UpsertPullRequestRequest)
    ensures
        r == (UpsertPullRequestRequest {
            url: detail.url,
            number: detail.number as i32,
            status: board_status(detail.status),
            merged_at: detail.merged_at,
            merge_commit_sha: detail.merge_commit_sha,
            target_branch_name: linked_pr.target_branch_name,
            local_workspace_id: workspace_id,
        }),
{
    UpsertPullRequestRequest {
        url: detail.url.clone(),
        number: #[verifier::truncate] (detail.number as i32),
        status: pull_request_status_from_merge_status(&detail.status),
        merged_at: detail.merged_at,
        merge_commit_sha: copy_option(&detail.merge_commit_sha),
        target_branch_name: linked_pr.target_branch_name.clone(),
        local_workspace_id: workspace_id,
    }
}

// ---------------------------------------------------------------------------
// Laws
// ---------------------------------------------------------------------------

/// What is left open is told by how many pull requests are open; where none is, by how many are
/// closed; where none is either, by how many are in no known state. Nothing is left open where all
/// are merged; without any pull request there is something to do.
pub proof fn law_what_is_left_open_is_counted(statuses: Seq<MergeStatus>)
    ensures
        ({
            let left = completion_blocker(statuses);
            let open = statuses.filter(|status: MergeStatus| status == MergeStatus::Open).len();
            let closed = statuses.filter(|status: MergeStatus| status == MergeStatus::Closed).len();
            let unknown = statuses.filter(
                |status: MergeStatus| status == MergeStatus::Unknown,
            ).len();
            &&& statuses.len() == 0 ==> left is Some
            &&& open > 0 ==> (left matches Some(text) && starts_with_text(
                text,
                "Not all linked pull requests are merged yet: "@ + decimal(open) + " open PR"@,
            ))
            &&& open == 0 && closed > 0 ==> (left matches Some(text) && starts_with_text(
                text,
                "Cannot complete autopilot merge: "@ + decimal(closed) + " linked PR"@,
            ) && ends_with_text(text, " closed."@))
            &&& open == 0 && closed == 0 && unknown > 0 ==> (left matches Some(text)
                && starts_with_text(
                text,
                "Cannot complete autopilot merge: "@ + decimal(unknown) + " linked PR"@,
            ) && ends_with_text(text, " unknown status."@))
            &&& statuses.len() > 0 && open == 0 && closed == 0 && unknown == 0 ==> left is None
        }),
{
    assert(exactly(MergeStatus::Open) =~= |status: MergeStatus| status == MergeStatus::Open);
    assert(exactly(MergeStatus::Closed) =~= |status: MergeStatus| status == MergeStatus::Closed);
    assert(exactly(MergeStatus::Unknown) =~= |status: MergeStatus| status == MergeStatus::Unknown);
    let open = count_of(statuses, MergeStatus::Open);
    let closed = count_of(statuses, MergeStatus::Closed);
    let unknown = count_of(statuses, MergeStatus::Unknown);
    if statuses.len() == 0 {
        lemma_nothing_counted(statuses, exactly(MergeStatus::Open));
        lemma_nothing_counted(statuses, exactly(MergeStatus::Closed));
        lemma_nothing_counted(statuses, exactly(MergeStatus::Unknown));
    } else if open > 0 {
        let front = "Not all linked pull requests are merged yet: "@ + decimal(open) + " open PR"@;
        let text = completion_blocker(statuses)->0;
        assert(text.subrange(0, front.len() as int) =~= front);
    } else if closed > 0 {
        let front = "Cannot complete autopilot merge: "@ + decimal(closed) + " linked PR"@;
        let back = " closed."@;
        let text = completion_blocker(statuses)->0;
        assert(text.subrange(0, front.len() as int) =~= front);
        assert(text.subrange(text.len() - back.len(), text.len() as int) =~= back);
    } else if unknown > 0 {
        let front = "Cannot complete autopilot merge: "@ + decimal(unknown) + " linked PR"@;
        let back = " unknown status."@;
        let text = completion_blocker(statuses)->0;
        assert(text.subrange(0, front.len() as int) =~= front);
        assert(text.subrange(text.len() - back.len(), text.len() as int) =~= back);
    }
}

/// Of nothing, nothing is counted.
proof fn lemma_nothing_counted(statuses: Seq<MergeStatus>, class: spec_fn(MergeStatus) -> bool)
    requires
        statuses.len() == 0,
    ensures
        statuses.filter(class).len() == 0,
{
    reveal(Seq::filter);
}

/// The state of a merge with pull requests: it waits to be done only where each is merged.
pub proof fn law_completion_needs_every_merge(statuses: Seq<MergeStatus>)
    ensures
        completion_state(statuses) is None <==> statuses.len() == 0,
        completion_state(statuses) == Some("merged_pending_done"@) || completion_state(statuses)
            == Some("blocked_by_pr_requirements"@) || statuses.len() == 0,
        completion_blocker(statuses) is Some && statuses.len() > 0 ==> completion_state(statuses)
            == Some("blocked_by_pr_requirements"@),
        completion_blocker(statuses) is None && statuses.len() > 0 ==> completion_state(statuses)
            == Some("merged_pending_done"@),
{
}

/// The board is told of a merge as it is; what is not known counts as open.
pub proof fn law_board_is_told_the_status(status: MergeStatus)
    ensures
        board_status(status) == PullRequestStatus::Merged <==> status == MergeStatus::Merged,
        board_status(status) == PullRequestStatus::Closed <==> status == MergeStatus::Closed,
        board_status(status) == PullRequestStatus::Open <==> status == MergeStatus::Open || status
            == MergeStatus::Unknown,
{
}

} // verus!
