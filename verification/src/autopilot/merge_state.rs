//! The state of the merge of a workspace, worked out from as little outside evidence as it takes.
use vstd::prelude::*;

use super::merge::merge_state_from_pr_completion;
#[allow(unused_imports)]
use super::merge::{completion_blocker, completion_state, count_of, plan_for};
#[allow(unused_imports)]
use super::pr_status::merge_blocker_of;
use super::types::{AutopilotDecision, AutopilotPrStatus, Merge, MergeStatus, Workspace};
#[allow(unused_imports)]
use super::types::{view_of_pr_ref, PrStatusView};
use crate::text::{contains, owned, same_ignoring_case, same_text};
#[allow(unused_imports)]
use crate::text::{contains_text, lowered, occurs_at, view_of_option};

verus! {

// ---------------------------------------------------------------------------
// The worktree of a repository
// ---------------------------------------------------------------------------

/// What is known so far of the worktree of one repository.
#[derive(Debug, Clone, Copy, PartialEq, Eq)]
pub struct WorktreeEvidence {
    pub conflicted_files: Option<usize>,
    pub rebase_in_progress: Option<bool>,
    /// The numbers of files with changes that are not committed and of files that git does not
    /// follow.
    pub changes: Option<(usize, usize)>,
}

/// What follows for the worktree of one repository.
#[derive(Debug, Clone, Copy, PartialEq, Eq, Structural)]
pub enum WorktreeStep {
    NeedConflicts,
    NeedRebase,
    NeedChanges,
    /// The worktree keeps the workspace from a merge.
    Blocked,
    Clear,
}

/// What follows for the worktree of one repository: conflicts, a rebase and changes of any kind
/// keep the workspace from a merge. Each is asked for only where those before it do not.
pub open spec fn worktree_step_of(evidence: WorktreeEvidence) -> WorktreeStep {
    match evidence.conflicted_files {
        None => WorktreeStep::NeedConflicts,
        Some(conflicted) => if conflicted > 0 {
            WorktreeStep::Blocked
        } else {
            match evidence.rebase_in_progress {
                None => WorktreeStep::NeedRebase,
                Some(true) => WorktreeStep::Blocked,
                Some(false) => match evidence.changes {
                    None => WorktreeStep::NeedChanges,
                    Some((uncommitted, unfollowed)) => if uncommitted > 0 || unfollowed > 0 {
                        WorktreeStep::Blocked
                    } else {
                        WorktreeStep::Clear
                    },
                },
            }
        },
    }
}

/// What follows for the worktree of one repository.
pub fn worktree_step(evidence: &WorktreeEvidence) -> (r: WorktreeStep)
    ensures
        r == worktree_step_of(*evidence),
{
    match evidence.conflicted_files {
        None => WorktreeStep::NeedConflicts,
        Some(conflicted) => if conflicted > 0 {
            WorktreeStep::Blocked
        } else {
            match evidence.rebase_in_progress {
                None => WorktreeStep::NeedRebase,
                Some(rebasing) => if rebasing {
                    WorktreeStep::Blocked
                } else {
                    match evidence.changes {
                        None => WorktreeStep::NeedChanges,
                        Some((uncommitted, unfollowed)) => if uncommitted > 0 || unfollowed > 0 {
                            WorktreeStep::Blocked
                        } else {
                            WorktreeStep::Clear
                        },
                    }
                },
            }
        },
    }
}

// ---------------------------------------------------------------------------
// The state of the merge
// ---------------------------------------------------------------------------

/// What is known so far of the merge of a workspace.
#[derive(Debug)]
pub struct MergeEvidence {
    pub merges: Option<Vec<Merge>>,
    /// Some worktree keeps the workspace from a merge.
    pub worktree_blocked: Option<bool>,
    /// The issue that is linked to the workspace is done.
    pub issue_done: Option<bool>,
}

/// The state of a merge, or what is needed to tell it.
#[derive(Debug)]
pub enum MergeStateStep {
    Known(String),
    NeedMerges,
    NeedWorktree,
    NeedIssue,
}

/// What a step says.
pub enum MergeStateStepView {
    Known(Seq<char>),
    NeedMerges,
    NeedWorktree,
    NeedIssue,
}

impl View for MergeStateStep {
    type V = MergeStateStepView;

    open spec fn view(&self) -> MergeStateStepView {
        match self {
            MergeStateStep::Known(state) => MergeStateStepView::Known(state@),
            MergeStateStep::NeedMerges => MergeStateStepView::NeedMerges,
            MergeStateStep::NeedWorktree => MergeStateStepView::NeedWorktree,
            MergeStateStep::NeedIssue => MergeStateStepView::NeedIssue,
        }
    }
}

/// The statuses of the pull requests among `merges`.
pub open spec fn pr_statuses(merges: Seq<Merge>) -> Seq<MergeStatus>
    decreases merges.len(),
{
    if merges.len() == 0 {
        Seq::empty()
    } else {
        let front = pr_statuses(merges.drop_last());
        match merges.last() {
            Merge::Pr(pr) => front.push(pr.status),
            Merge::Direct => front,
        }
    }
}

/// The work was merged without a pull request.
pub open spec fn merged_directly(merges: Seq<Merge>) -> bool {
    exists|i: int| 0 <= i < merges.len() && #[trigger] merges[i] is Direct
}

/// The state of a merge whose review has not passed.
pub open spec fn unreviewed_state(decision: AutopilotDecision) -> Seq<char> {
    match decision {
        AutopilotDecision::RequestChanges => "blocked_by_review"@,
        AutopilotDecision::Failed => "review_failed"@,
        _ => "waiting_for_review"@,
    }
}

/// The state of a merge that its pull request tells by itself: it is merged, or something keeps it
/// from a merge.
pub open spec fn reported_state(pr: PrStatusView) -> Option<Seq<char>> {
    if lowered(pr.state) == lowered("merged"@) {
        Some("merged_pending_done"@)
    } else {
        match pr.merge_blocker {
            Some(blocker) => Some(
                if contains_text(blocker, "draft"@) {
                    "blocked_by_draft_pr"@
                } else if contains_text(blocker, "failing checks"@) {
                    "blocked_by_failing_checks"@
                } else if contains_text(blocker, "checks are not green"@) {
                    "waiting_for_checks"@
                } else {
                    "blocked_by_pr_mergeability"@
                },
            ),
            None => None,
        }
    }
}

/// The state of a merge that is complete: a pinned workspace stays, and is over once its issue is
/// done.
pub open spec fn merged_state(pinned: bool, issue_done: Option<bool>) -> MergeStateStepView {
    if !pinned {
        MergeStateStepView::Known("merged_pending_done"@)
    } else {
        match issue_done {
            None => MergeStateStepView::NeedIssue,
            Some(true) => MergeStateStepView::Known("done_or_archived"@),
            Some(false) => MergeStateStepView::Known("merged_pending_done"@),
        }
    }
}

/// The state of a merge that the merges of the workspace tell.
pub open spec fn recorded_state(
    pinned: bool,
    merges: Seq<Merge>,
    worktree_blocked: Option<bool>,
    issue_done: Option<bool>,
) -> MergeStateStepView {
    let statuses = pr_statuses(merges);
    if count_of(statuses, MergeStatus::Open) > 0 {
        match worktree_blocked {
            None => MergeStateStepView::NeedWorktree,
            Some(true) => MergeStateStepView::Known("blocked_by_dirty_worktree"@),
            Some(false) => MergeStateStepView::Known("pr_open_pending_merge"@),
        }
    } else if statuses.len() > 0 {
        if completion_blocker(statuses) is None {
            merged_state(pinned, issue_done)
        } else {
            MergeStateStepView::Known("blocked_by_pr_requirements"@)
        }
    } else if merged_directly(merges) {
        merged_state(pinned, issue_done)
    } else {
        MergeStateStepView::Known("no_pr_merge_found"@)
    }
}

/// Whether some worktree keeps the workspace from a merge; a workspace without a container has no
/// worktree.
pub open spec fn known_worktree(
    workspace: Workspace,
    worktree_blocked: Option<bool>,
) -> Option<bool> {
    if workspace.container_ref is None {
        Some(false)
    } else {
        worktree_blocked
    }
}

/// The state of the merge of a workspace, or what is needed to tell it.
pub open spec fn merge_state(
    workspace: Workspace,
    decision: AutopilotDecision,
    pr: Option<PrStatusView>,
    merges: Option<Seq<Merge>>,
    worktree_blocked: Option<bool>,
    issue_done: Option<bool>,
) -> MergeStateStepView {
    let reported = match pr {
        Some(pr) => reported_state(pr),
        None => None,
    };
    if workspace.is_over() {
        MergeStateStepView::Known("done_or_archived"@)
    } else if decision != AutopilotDecision::Pass {
        MergeStateStepView::Known(unreviewed_state(decision))
    } else if reported is Some {
        MergeStateStepView::Known(reported->0)
    } else {
        match merges {
            None => MergeStateStepView::NeedMerges,
            Some(merges) => recorded_state(
                workspace.pinned,
                merges,
                known_worktree(workspace, worktree_blocked),
                issue_done,
            ),
        }
    }
}

/// The merges that are known so far.
pub open spec fn known_merges(evidence: MergeEvidence) -> Option<Seq<Merge>> {
    match evidence.merges {
        Some(merges) => Some(merges@),
        None => None,
    }
}

/// The state of a merge that is complete.
fn merged_state_step(pinned: bool, issue_done: Option<bool>) -> (r: MergeStateStep)
    ensures
        r@ == merged_state(pinned, issue_done),
{
    if !pinned {
        return MergeStateStep::Known(owned("merged_pending_done"));
    }
    match issue_done {
        None => MergeStateStep::NeedIssue,
        Some(done) => if done {
            MergeStateStep::Known(owned("done_or_archived"))
        } else {
            MergeStateStep::Known(owned("merged_pending_done"))
        },
    }
}

/// The state of a merge that its pull request tells by itself.
fn reported_merge_state(pr: &AutopilotPrStatus) -> (r: Option<String>)
    ensures
        view_of_option(r) == reported_state(pr@),
{
    if same_ignoring_case(pr.state.as_str(), "merged") {
        return Some(owned("merged_pending_done"));
    }
    match &pr.merge_blocker {
        Some(blocker) => {
            let text = blocker.as_str();
            if contains(text, "draft") {
                Some(owned("blocked_by_draft_pr"))
            } else if contains(text, "failing checks") {
                Some(owned("blocked_by_failing_checks"))
            } else if contains(text, "checks are not green") {
                Some(owned("waiting_for_checks"))
            } else {
                Some(owned("blocked_by_pr_mergeability"))
            }
        },
        None => None,
    }
}

/// The state of a merge that the merges of the workspace tell.
fn recorded_merge_state(
    pinned: bool,
    merges: &Vec<Merge>,
    worktree_blocked: Option<bool>,
    issue_done: Option<bool>,
) -> (r: MergeStateStep)
    ensures
        r@ == recorded_state(pinned, merges@, worktree_blocked, issue_done),
{
    let mut statuses: Vec<MergeStatus> = Vec::new();
    let mut any_open = false;
    let mut any_direct = false;
    proof {
        reveal(Seq::filter);
        assert(merges@.take(0) =~= Seq::empty());
    }
    for i in 0..merges.len()
        invariant
            statuses@ == pr_statuses(merges@.take(i as int)),
            any_open == (count_of(statuses@, MergeStatus::Open) > 0),
            any_direct == exists|k: int| 0 <= k < i && #[trigger] merges@[k] is Direct,
    {
        proof {
            reveal(Seq::filter);
        }
        assert(merges@.take(i + 1).drop_last() =~= merges@.take(i as int));
        match &merges[i] {
            Merge::Pr(pr) => {
                let ghost before = statuses@;
                statuses.push(pr.status);
                assert(statuses@.drop_last() =~= before);
                if pr.status == MergeStatus::Open {
                    any_open = true;
                }
            },
            Merge::Direct => {
                any_direct = true;
                assert(merges@[i as int] is Direct);
            },
        }
    }
    assert(merges@.take(merges@.len() as int) =~= merges@);
    if any_open {
        return match worktree_blocked {
            None => MergeStateStep::NeedWorktree,
            Some(blocked) => if blocked {
                MergeStateStep::Known(owned("blocked_by_dirty_worktree"))
            } else {
                MergeStateStep::Known(owned("pr_open_pending_merge"))
            },
        };
    }
    if let Some(state) = merge_state_from_pr_completion(statuses.as_slice()) {
        proof {
            reveal_strlit("merged_pending_done");
            reveal_strlit("blocked_by_pr_requirements");
            assert("merged_pending_done"@.len() < "blocked_by_pr_requirements"@.len());
        }
        return if same_text(state, "merged_pending_done") {
            merged_state_step(pinned, issue_done)
        } else {
            MergeStateStep::Known(owned(state))
        };
    }
    if any_direct {
        merged_state_step(pinned, issue_done)
    } else {
        MergeStateStep::Known(owned("no_pr_merge_found"))
    }
}

/// The state of the merge of a workspace, or what is needed to tell it.
pub fn infer_pr_merge_state(
    workspace: &Workspace,
    decision: &AutopilotDecision,
    pr_status: Option<&AutopilotPrStatus>,
    evidence: &MergeEvidence,
) -> (r: MergeStateStep)
    ensures
        r@ == merge_state(
            *workspace,
            *decision,
            view_of_pr_ref(pr_status),
            known_merges(*evidence),
            evidence.worktree_blocked,
            evidence.issue_done,
        ),
{
    if workspace.archived || workspace.worktree_deleted {
        return MergeStateStep::Known(owned("done_or_archived"));
    }
    match decision {
        AutopilotDecision::Pass => {},
        AutopilotDecision::RequestChanges => {
            return MergeStateStep::Known(owned("blocked_by_review"));
        },
        AutopilotDecision::Failed => {
            return MergeStateStep::Known(owned("review_failed"));
        },
        AutopilotDecision::Running | AutopilotDecision::Missing => {
            return MergeStateStep::Known(owned("waiting_for_review"));
        },
    }
    if let Some(pr) = pr_status {
        if let Some(state) = reported_merge_state(pr) {
            return MergeStateStep::Known(state);
        }
    }
    match &evidence.merges {
        None => MergeStateStep::NeedMerges,
        Some(merges) => {
            let worktree_blocked = match &workspace.container_ref {
                None => Some(false),
                Some(_) => evidence.worktree_blocked,
            };
            recorded_merge_state(
                workspace.pinned,
                merges,
                worktree_blocked,
                evidence.issue_done,
            )
        },
    }
}

// ---------------------------------------------------------------------------
// Laws
// ---------------------------------------------------------------------------

/// With all evidence at hand, the state is known.
pub proof fn law_full_evidence_tells_the_state(
    workspace: Workspace,
    decision: AutopilotDecision,
    pr: Option<PrStatusView>,
    merges: Seq<Merge>,
    worktree_blocked: bool,
    issue_done: bool,
)
    ensures
        merge_state(
            workspace,
            decision,
            pr,
            Some(merges),
            Some(worktree_blocked),
            Some(issue_done),
        ) is Known,
{
}

/// Evidence that was not asked for changes nothing: a state that is known with less is the state
/// that all of it tells.
pub proof fn law_more_evidence_changes_nothing(
    workspace: Workspace,
    decision: AutopilotDecision,
    pr: Option<PrStatusView>,
    less_merges: Option<Seq<Merge>>,
    less_blocked: Option<bool>,
    less_done: Option<bool>,
    merges: Seq<Merge>,
    worktree_blocked: bool,
    issue_done: bool,
)
    requires
        less_merges matches Some(known) ==> known == merges,
        less_blocked matches Some(known) ==> known == worktree_blocked,
        less_done matches Some(known) ==> known == issue_done,
        merge_state(workspace, decision, pr, less_merges, less_blocked, less_done) is Known,
    ensures
        merge_state(workspace, decision, pr, less_merges, less_blocked, less_done) == merge_state(
            workspace,
            decision,
            pr,
            Some(merges),
            Some(worktree_blocked),
            Some(issue_done),
        ),
{
}

/// An archived or deleted workspace is over, whatever else is known.
pub proof fn law_archived_workspaces_are_over(
    workspace: Workspace,
    decision: AutopilotDecision,
    pr: Option<PrStatusView>,
    merges: Option<Seq<Merge>>,
    worktree_blocked: Option<bool>,
    issue_done: Option<bool>,
)
    requires
        workspace.is_over(),
    ensures
        merge_state(workspace, decision, pr, merges, worktree_blocked, issue_done)
            == MergeStateStepView::Known("done_or_archived"@),
{
}

/// A text does not hold what begins with a character that it lacks.
proof fn lemma_lacks(s: Seq<char>, part: Seq<char>)
    requires
        part.len() > 0,
        forall|i: int| 0 <= i < s.len() ==> s[i] != part[0],
    ensures
        !contains_text(s, part),
{
    assert forall|at: int| !occurs_at(s, part, at) by {
        if occurs_at(s, part, at) {
            assert(s.subrange(at, at + part.len())[0] == s[at]);
        }
    }
}

/// What keeps an open pull request from a merge leads to the state that says so: a draft, a failing
/// check, a check that is not through, and a mergeability that is not known.
pub proof fn law_blockers_lead_to_their_states(pr: PrStatusView)
    requires
        lowered(pr.state) != lowered("merged"@),
        pr.merge_blocker == merge_blocker_of(
            pr.is_draft,
            pr.mergeable,
            pr.merge_state_status,
            pr.checks_state,
        ),
    ensures
        pr.is_draft ==> reported_state(pr) == Some("blocked_by_draft_pr"@),
        !pr.is_draft && pr.mergeable is None ==> reported_state(pr) == Some(
            "blocked_by_pr_mergeability"@,
        ),
        pr.merge_blocker == Some("PR has failing checks."@) ==> reported_state(pr) == Some(
            "blocked_by_failing_checks"@,
        ),
        pr.merge_blocker == Some("PR checks are not green yet."@) ==> reported_state(pr) == Some(
            "waiting_for_checks"@,
        ),
        pr.merge_blocker is None ==> reported_state(pr) is None,
{
    reveal_strlit("draft");
    reveal_strlit("failing checks");
    reveal_strlit("checks are not green");
    reveal_strlit("PR is still a draft.");
    reveal_strlit("PR mergeability is unknown.");
    reveal_strlit("PR has failing checks.");
    reveal_strlit("PR checks are not green yet.");
    let draft = "PR is still a draft."@;
    let unknown = "PR mergeability is unknown."@;
    let failing = "PR has failing checks."@;
    let pending = "PR checks are not green yet."@;
    assert(draft.subrange(14, 19) =~= "draft"@);
    assert(occurs_at(draft, "draft"@, 14));
    assert(failing.subrange(7, 21) =~= "failing checks"@);
    assert(occurs_at(failing, "failing checks"@, 7));
    assert(pending.subrange(3, 23) =~= "checks are not green"@);
    assert(occurs_at(pending, "checks are not green"@, 3));
    lemma_lacks(unknown, "draft"@);
    lemma_lacks(unknown, "failing checks"@);
    lemma_lacks(unknown, "checks are not green"@);
    lemma_lacks(failing, "draft"@);
    lemma_lacks(pending, "draft"@);
    lemma_lacks(pending, "failing checks"@);
}

/// A merge is attempted only after a review has passed, with an open pull request and a clean
/// worktree.
pub proof fn law_merge_is_attempted_when_clean(
    workspace: Workspace,
    decision: AutopilotDecision,
    pr: Option<PrStatusView>,
    merges: Option<Seq<Merge>>,
    worktree_blocked: Option<bool>,
    issue_done: Option<bool>,
)
    ensures
        merge_state(workspace, decision, pr, merges, worktree_blocked, issue_done) matches
            MergeStateStepView::Known(state) ==> plan_for(state) is AttemptPrMerge ==> {
            &&& !workspace.is_over()
            &&& decision == AutopilotDecision::Pass
            &&& pr matches Some(pr) ==> pr.merge_blocker is None
            &&& merges is Some
            &&& count_of(pr_statuses(merges->0), MergeStatus::Open) > 0
            &&& known_worktree(workspace, worktree_blocked) == Some(false)
        },
{
    reveal_strlit("pr_open_pending_merge");
    reveal_strlit("review_passed_merge_status_unknown");
    reveal_strlit("merged_pending_done");
    reveal_strlit("done_or_archived");
    reveal_strlit("blocked_by_review");
    reveal_strlit("review_failed");
    reveal_strlit("waiting_for_review");
    reveal_strlit("blocked_by_draft_pr");
    reveal_strlit("blocked_by_failing_checks");
    reveal_strlit("waiting_for_checks");
    reveal_strlit("blocked_by_pr_mergeability");
    reveal_strlit("blocked_by_dirty_worktree");
    reveal_strlit("blocked_by_pr_requirements");
    reveal_strlit("no_pr_merge_found");
    assert("pr_open_pending_merge"@.len() == 21);
    assert("review_passed_merge_status_unknown"@.len() == 34);
    assert("done_or_archived"@.len() == 16);
    assert("waiting_for_review"@.len() == 18);
}

/// The statuses of the pull requests are those that the merges hold, and a status is counted where
/// a merge has it.
proof fn lemma_statuses(merges: Seq<Merge>, one: MergeStatus)
    ensures
        count_of(pr_statuses(merges), one) > 0 <==> exists|i: int|
            0 <= i < merges.len() && #[trigger] merges[i] is Pr && merges[i]->Pr_0.status == one,
        pr_statuses(merges).len() > 0 <==> exists|i: int|
            0 <= i < merges.len() && #[trigger] merges[i] is Pr,
    decreases merges.len(),
{
    reveal(Seq::filter);
    if merges.len() == 0 {
        assert(pr_statuses(merges) =~= Seq::empty());
    } else {
        let less = merges.drop_last();
        let front = pr_statuses(less);
        let last = merges.len() - 1;
        lemma_statuses(less, one);
        assert(forall|i: int| 0 <= i < last ==> #[trigger] less[i] == merges[i]);
        if merges[last] is Pr {
            let status = merges[last]->Pr_0.status;
            assert(front.push(status).drop_last() =~= front);
        }
        if exists|i: int| 0 <= i < less.len() && #[trigger] less[i] is Pr && less[i]->Pr_0.status
            == one {
            let i = choose|i: int|
                0 <= i < less.len() && #[trigger] less[i] is Pr && less[i]->Pr_0.status == one;
            assert(merges[i] is Pr && merges[i]->Pr_0.status == one);
        }
        if exists|i: int| 0 <= i < less.len() && #[trigger] less[i] is Pr {
            let i = choose|i: int| 0 <= i < less.len() && #[trigger] less[i] is Pr;
            assert(merges[i] is Pr);
        }
        if exists|i: int| 0 <= i < merges.len() && #[trigger] merges[i] is Pr
            && merges[i]->Pr_0.status == one {
            let i = choose|i: int|
                0 <= i < merges.len() && #[trigger] merges[i] is Pr && merges[i]->Pr_0.status
                    == one;
            if i < last {
                assert(less[i] is Pr && less[i]->Pr_0.status == one);
            }
        }
        if exists|i: int| 0 <= i < merges.len() && #[trigger] merges[i] is Pr {
            let i = choose|i: int| 0 <= i < merges.len() && #[trigger] merges[i] is Pr;
            if i < last {
                assert(less[i] is Pr);
            }
        }
    }
}

/// Nothing keeps merges from completion where all their pull requests are merged.
proof fn lemma_all_merged(merges: Seq<Merge>)
    ensures
        completion_blocker(pr_statuses(merges)) is None <==> (exists|i: int|
            0 <= i < merges.len() && #[trigger] merges[i] is Pr) && (forall|i: int|
            0 <= i < merges.len() && #[trigger] merges[i] is Pr ==> merges[i]->Pr_0.status
                == MergeStatus::Merged),
{
    lemma_statuses(merges, MergeStatus::Open);
    lemma_statuses(merges, MergeStatus::Closed);
    lemma_statuses(merges, MergeStatus::Unknown);
    if completion_blocker(pr_statuses(merges)) is None {
        assert forall|i: int| 0 <= i < merges.len() && #[trigger] merges[i]
            is Pr implies merges[i]->Pr_0.status == MergeStatus::Merged by {
            match merges[i]->Pr_0.status {
                MergeStatus::Open => {},
                MergeStatus::Closed => {},
                MergeStatus::Unknown => {},
                MergeStatus::Merged => {},
            }
        }
    }
}

/// Once a review has passed, and where no report of a pull request tells the state, the merges of
/// a workspace tell it. One open pull request keeps it from being done: it is to be merged, where
/// no worktree is in the way. Without an open one, the work is merged only where each pull request
/// is, or where there is none and it was merged directly; then a pinned workspace is over once its
/// issue is done.
pub proof fn law_merges_tell_the_state(
    workspace: Workspace,
    pr: Option<PrStatusView>,
    merges: Seq<Merge>,
    worktree_blocked: Option<bool>,
    issue_done: Option<bool>,
)
    requires
        !workspace.archived,
        !workspace.worktree_deleted,
        pr matches Some(pr) ==> lowered(pr.state) != lowered("merged"@) && pr.merge_blocker is None,
    ensures
        ({
            let state = merge_state(
                workspace,
                AutopilotDecision::Pass,
                pr,
                Some(merges),
                worktree_blocked,
                issue_done,
            );
            let some_open = exists|i: int|
                0 <= i < merges.len() && #[trigger] merges[i] is Pr && merges[i]->Pr_0.status
                    == MergeStatus::Open;
            let some_pr = exists|i: int| 0 <= i < merges.len() && #[trigger] merges[i] is Pr;
            let all_merged = forall|i: int|
                0 <= i < merges.len() && #[trigger] merges[i] is Pr ==> merges[i]->Pr_0.status
                    == MergeStatus::Merged;
            let some_direct = exists|i: int|
                0 <= i < merges.len() && #[trigger] merges[i] is Direct;
            let merged = if workspace.pinned && issue_done is None {
                MergeStateStepView::NeedIssue
            } else if workspace.pinned && issue_done == Some(true) {
                MergeStateStepView::Known("done_or_archived"@)
            } else {
                MergeStateStepView::Known("merged_pending_done"@)
            };
            &&& some_open && workspace.container_ref is Some && worktree_blocked is None ==> state
                == MergeStateStepView::NeedWorktree
            &&& some_open && workspace.container_ref is Some && worktree_blocked == Some(true)
                ==> state == MergeStateStepView::Known("blocked_by_dirty_worktree"@)
            &&& some_open && (workspace.container_ref is None || worktree_blocked == Some(false))
                ==> state == MergeStateStepView::Known("pr_open_pending_merge"@)
            &&& !some_open && some_pr && all_merged ==> state == merged
            &&& !some_open && some_pr && !all_merged ==> state == MergeStateStepView::Known(
                "blocked_by_pr_requirements"@,
            )
            &&& !some_pr && some_direct ==> state == merged
            &&& !some_pr && !some_direct ==> state == MergeStateStepView::Known(
                "no_pr_merge_found"@,
            )
        }),
{
    lemma_statuses(merges, MergeStatus::Open);
    lemma_all_merged(merges);
    if exists|i: int|
        0 <= i < merges.len() && #[trigger] merges[i] is Pr && merges[i]->Pr_0.status
            == MergeStatus::Open {
        let i = choose|i: int|
            0 <= i < merges.len() && #[trigger] merges[i] is Pr && merges[i]->Pr_0.status
                == MergeStatus::Open;
        assert(merges[i] is Pr);
    }
}

/// Without a passed review nothing of the merge is looked at: changes that are asked for block it,
/// a failed review says so, and a review that runs or is missing is waited for.
pub proof fn law_reviews_come_before_merges(
    workspace: Workspace,
    decision: AutopilotDecision,
    pr: Option<PrStatusView>,
    merges: Option<Seq<Merge>>,
    worktree_blocked: Option<bool>,
    issue_done: Option<bool>,
)
    requires
        !workspace.archived,
        !workspace.worktree_deleted,
    ensures
        ({
            let state = merge_state(workspace, decision, pr, merges, worktree_blocked, issue_done);
            &&& decision == AutopilotDecision::RequestChanges ==> state
                == MergeStateStepView::Known("blocked_by_review"@)
            &&& decision == AutopilotDecision::Failed ==> state == MergeStateStepView::Known(
                "review_failed"@,
            )
            &&& decision == AutopilotDecision::Running || decision == AutopilotDecision::Missing
                ==> state == MergeStateStepView::Known("waiting_for_review"@)
            &&& decision == AutopilotDecision::Pass && pr is None && merges is None ==> state
                == MergeStateStepView::NeedMerges
        }),
{
}

/// Once a review has passed, the report of the pull request comes before what is recorded: a
/// merged one waits to be done; a draft, failing checks, checks that are not green and any other
/// obstacle lead to their states, whatever the merges and the worktree say.
pub proof fn law_reports_come_before_records(
    workspace: Workspace,
    pr: PrStatusView,
    merges: Option<Seq<Merge>>,
    worktree_blocked: Option<bool>,
    issue_done: Option<bool>,
)
    requires
        !workspace.archived,
        !workspace.worktree_deleted,
    ensures
        ({
            let state = merge_state(
                workspace,
                AutopilotDecision::Pass,
                Some(pr),
                merges,
                worktree_blocked,
                issue_done,
            );
            let merged = lowered(pr.state) == lowered("merged"@);
            &&& merged ==> state == MergeStateStepView::Known("merged_pending_done"@)
            &&& !merged ==> (pr.merge_blocker matches Some(blocker) ==> {
                &&& contains_text(blocker, "draft"@) ==> state == MergeStateStepView::Known(
                    "blocked_by_draft_pr"@,
                )
                &&& !contains_text(blocker, "draft"@) && contains_text(blocker, "failing checks"@)
                    ==> state == MergeStateStepView::Known("blocked_by_failing_checks"@)
                &&& !contains_text(blocker, "draft"@) && !contains_text(blocker, "failing checks"@)
                    && contains_text(blocker, "checks are not green"@) ==> state
                    == MergeStateStepView::Known("waiting_for_checks"@)
                &&& !contains_text(blocker, "draft"@) && !contains_text(blocker, "failing checks"@)
                    && !contains_text(blocker, "checks are not green"@) ==> state
                    == MergeStateStepView::Known("blocked_by_pr_mergeability"@)
            })
        }),
{
}

/// The worktree of a repository is in the way exactly where it is known to hold conflicts, a
/// rebase or changes, and it is clear only once all three are known not to be there.
pub proof fn law_clear_worktrees_hold_nothing(evidence: WorktreeEvidence)
    ensures
        worktree_step_of(evidence) == WorktreeStep::Clear <==> evidence.conflicted_files == Some(
            0usize,
        ) && evidence.rebase_in_progress == Some(false) && evidence.changes == Some(
            (0usize, 0usize),
        ),
        worktree_step_of(evidence) == WorktreeStep::Blocked <==> {
            ||| evidence.conflicted_files matches Some(files) && files > 0
            ||| evidence.conflicted_files == Some(0usize) && evidence.rebase_in_progress == Some(
                true,
            )
            ||| evidence.conflicted_files == Some(0usize) && evidence.rebase_in_progress == Some(
                false,
            ) && (evidence.changes matches Some(changes) && (changes.0 > 0 || changes.1 > 0))
        },
        worktree_step_of(evidence) == WorktreeStep::NeedConflicts <==> evidence.conflicted_files
            is None,
        worktree_step_of(evidence) == WorktreeStep::NeedRebase <==> evidence.conflicted_files
            == Some(0usize) && evidence.rebase_in_progress is None,
{
}

} // verus!
