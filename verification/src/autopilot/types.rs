//! What the autopilot reads and reports.
use vstd::prelude::*;

use crate::api::Timestamp;
use crate::ids::Uuid;
use crate::text::copy_option;
#[allow(unused_imports)]
use crate::text::view_of_option;

verus! {

// ---------------------------------------------------------------------------
// States
// ---------------------------------------------------------------------------

#[derive(Debug, Clone, Copy, PartialEq, Eq, Structural)]
pub enum AutopilotDecision {
    Missing,
    Running,
    Pass,
    RequestChanges,
    Failed,
}

#[derive(Debug, Clone, Copy, PartialEq, Eq, Structural)]
pub enum AutopilotNextAction {
    NoWorkspace,
    WaitForImplementation,
    StartAutoReview,
    WaitForAutoReview,
    StartReviewFix,
    WaitForReviewFix,
    ReadyForMerge,
    MergeWait,
    Done,
    InvestigateFailure,
}

#[derive(Debug, Clone, Copy, PartialEq, Eq, Structural)]
pub enum AutopilotWorkflowState {
    Queued,
    BlockedByDependencies,
    ImplementationRunning,
    ReviewRunning,
    ReviewPassed,
    ReviewRequestedChanges,
    ReviewFixRunning,
    MergeWaiting,
    Done,
    Blocked,
    ReadyToAdvance,
}

#[derive(Debug, Clone, Copy, PartialEq, Eq, Structural)]
pub enum AutopilotTokenSafetyState {
    Idle,
    Guarded,
    Blocked,
}

#[derive(Debug, Clone, Copy, PartialEq, Eq, Structural)]
pub enum AutopilotPrChecksState {
    Unknown,
    NoChecks,
    Pending,
    Passing,
    Failing,
}

#[derive(Debug, Clone, Copy, PartialEq, Eq, Structural)]
pub enum AutopilotAdvanceAction {
    Noop,
    PromotedToReview,
    StartedAutoReview,
    StartedReviewFix,
    MergedPullRequest,
    MergeHandoff,
    Blocked,
}

#[derive(Debug, Clone, Copy, PartialEq, Eq, Structural)]
pub enum ExecutionProcessStatus {
    Running,
    Completed,
    Failed,
    Killed,
}

#[derive(Debug, Clone, Copy, PartialEq, Eq, Structural)]
pub enum ExecutionProcessRunReason {
    SetupScript,
    CleanupScript,
    ArchiveScript,
    CodingAgent,
    DevServer,
}

#[derive(Debug, Clone, Copy, PartialEq, Eq, Structural)]
pub enum MergeStatus {
    Open,
    Merged,
    Closed,
    Unknown,
}

#[derive(Debug, Clone, Copy, PartialEq, Eq, Structural)]
pub enum PullRequestStatus {
    Open,
    Merged,
    Closed,
}

// ---------------------------------------------------------------------------
// Workspaces and processes
// ---------------------------------------------------------------------------

/// A workspace, as far as the autopilot reads it.
#[derive(Debug, Clone)]
pub struct Workspace {
    pub id: Uuid,
    pub container_ref: Option<String>,
    pub branch: String,
    pub archived: bool,
    pub pinned: bool,
    pub name: Option<String>,
    pub worktree_deleted: bool,
}

impl Workspace {
    /// Nothing more will happen in the workspace.
    pub open spec fn is_over(self) -> bool {
        self.archived || self.worktree_deleted
    }
}

/// One execution of a session of a workspace.
#[derive(Debug, Clone)]
pub struct ProcessRow {
    pub id: Uuid,
    pub session_id: Uuid,
    pub session_name: Option<String>,
    pub status: ExecutionProcessStatus,
    pub run_reason: ExecutionProcessRunReason,
    pub exit_code: Option<i64>,
    pub started_at: String,
    pub completed_at: Option<String>,
}

impl ProcessRow {
    /// The process ran to its end and reported success.
    pub open spec fn is_clean(self) -> bool {
        self.status == ExecutionProcessStatus::Completed && self.exit_code == Some(0i64)
    }

    /// Whether the process ran to its end and reported success.
    pub fn completed_cleanly(&self) -> (r: bool)
        ensures
            r == self.is_clean(),
    {
        self.status == ExecutionProcessStatus::Completed && match self.exit_code {
            Some(code) => code == 0,
            None => false,
        }
    }
}

/// The process behind an optional reference.
pub open spec fn row_of(row: Option<&ProcessRow>) -> Option<ProcessRow> {
    match row {
        Some(row) => Some(*row),
        None => None,
    }
}

/// The processes behind a sequence of references.
pub open spec fn rows_of(rows: Seq<&ProcessRow>) -> Seq<ProcessRow> {
    rows.map_values(|row: &ProcessRow| *row)
}

#[derive(Debug, Clone)]
pub struct AutopilotProcessSummary {
    pub id: Uuid,
    pub session_id: Uuid,
    pub session_name: Option<String>,
    pub status: ExecutionProcessStatus,
    pub run_reason: ExecutionProcessRunReason,
    pub exit_code: Option<i64>,
    pub started_at: String,
    pub completed_at: Option<String>,
}

/// The summary of a process: each of its fields as it is.
pub open spec fn summary_of(row: ProcessRow) -> AutopilotProcessSummary {
    AutopilotProcessSummary {
        id: row.id,
        session_id: row.session_id,
        session_name: row.session_name,
        status: row.status,
        run_reason: row.run_reason,
        exit_code: row.exit_code,
        started_at: row.started_at,
        completed_at: row.completed_at,
    }
}

/// The summary of an optional process.
pub open spec fn summary_of_option(row: Option<ProcessRow>) -> Option<AutopilotProcessSummary> {
    match row {
        Some(row) => Some(summary_of(row)),
        None => None,
    }
}

/// The summary of a process.
pub fn process_summary(row: &ProcessRow) -> (r: AutopilotProcessSummary)
    ensures
        r == summary_of(*row),
{
    AutopilotProcessSummary {
        id: row.id,
        session_id: row.session_id,
        session_name: copy_option(&row.session_name),
        status: row.status,
        run_reason: row.run_reason,
        exit_code: row.exit_code,
        started_at: row.started_at.clone(),
        completed_at: copy_option(&row.completed_at),
    }
}

/// The summary of an optional process.
pub fn process_summary_option(row: Option<&ProcessRow>) -> (r: Option<AutopilotProcessSummary>)
    ensures
        r == summary_of_option(row_of(row)),
{
    match row {
        Some(row) => Some(process_summary(row)),
        None => None,
    }
}

/// The summary of a process that has just been started, from its parts.
#[allow(clippy::too_many_arguments)]
pub fn process_summary_from_parts(
    id: Uuid,
    session_id: Uuid,
    session_name: Option<String>,
    status: ExecutionProcessStatus,
    run_reason: ExecutionProcessRunReason,
    exit_code: Option<i64>,
    started_at: String,
    completed_at: Option<String>,
) -> (r: AutopilotProcessSummary)
    ensures
        r == (AutopilotProcessSummary {
            id,
            session_id,
            session_name,
            status,
            run_reason,
            exit_code,
            started_at,
            completed_at,
        }),
{
    AutopilotProcessSummary {
        id,
        session_id,
        session_name,
        status,
        run_reason,
        exit_code,
        started_at,
        completed_at,
    }
}

// ---------------------------------------------------------------------------
// Pull requests
// ---------------------------------------------------------------------------

#[derive(Debug, Clone)]
pub struct AutopilotPrStatus {
    pub number: i64,
    pub url: String,
    pub state: String,
    pub is_draft: bool,
    pub head_sha: Option<String>,
    pub base_branch: Option<String>,
    pub mergeable: Option<String>,
    pub merge_state_status: Option<String>,
    pub merge_commit_sha: Option<String>,
    pub checks_state: AutopilotPrChecksState,
    pub checks_summary: String,
    pub merge_blocker: Option<String>,
    pub source: String,
}

/// What the status of a pull request says.
pub struct PrStatusView {
    pub number: i64,
    pub url: Seq<char>,
    pub state: Seq<char>,
    pub is_draft: bool,
    pub head_sha: Option<Seq<char>>,
    pub base_branch: Option<Seq<char>>,
    pub mergeable: Option<Seq<char>>,
    pub merge_state_status: Option<Seq<char>>,
    pub merge_commit_sha: Option<Seq<char>>,
    pub checks_state: AutopilotPrChecksState,
    pub checks_summary: Seq<char>,
    pub merge_blocker: Option<Seq<char>>,
    pub source: Seq<char>,
}

impl View for AutopilotPrStatus {
    type V = PrStatusView;

    open spec fn view(&self) -> PrStatusView {
        PrStatusView {
            number: self.number,
            url: self.url@,
            state: self.state@,
            is_draft: self.is_draft,
            head_sha: view_of_option(self.head_sha),
            base_branch: view_of_option(self.base_branch),
            mergeable: view_of_option(self.mergeable),
            merge_state_status: view_of_option(self.merge_state_status),
            merge_commit_sha: view_of_option(self.merge_commit_sha),
            checks_state: self.checks_state,
            checks_summary: self.checks_summary@,
            merge_blocker: view_of_option(self.merge_blocker),
            source: self.source@,
        }
    }
}

/// What an optional status of a pull request says.
pub open spec fn view_of_pr(status: Option<AutopilotPrStatus>) -> Option<PrStatusView> {
    match status {
        Some(status) => Some(status@),
        None => None,
    }
}

/// What an optional borrowed status of a pull request says.
pub open spec fn view_of_pr_ref(status: Option<&AutopilotPrStatus>) -> Option<PrStatusView> {
    match status {
        Some(status) => Some(status@),
        None => None,
    }
}

/// A pull request as the local database holds it.
#[derive(Debug, Clone)]
pub struct LocalPullRequest {
    pub pr_number: i64,
    pub pr_url: String,
    pub pr_status: MergeStatus,
    pub target_branch_name: String,
    pub merge_commit_sha: Option<String>,
}

/// A pull request that is linked to a workspace.
#[derive(Debug, Clone)]
pub struct PrMerge {
    pub number: i64,
    pub url: String,
    pub status: MergeStatus,
    pub target_branch_name: String,
}

/// A way in which the work of a workspace was merged.
#[derive(Debug, Clone)]
pub enum Merge {
    Direct,
    Pr(PrMerge),
}

/// A pull request as its host reports it.
#[derive(Debug, Clone)]
pub struct PullRequestDetail {
    pub number: i64,
    pub url: String,
    pub status: MergeStatus,
    pub merged_at: Option<Timestamp>,
    pub merge_commit_sha: Option<String>,
}

impl PullRequestDetail {
    /// A copy of the report.
    pub fn copy(&self) -> (r: PullRequestDetail)
        ensures
            r == *self,
    {
        PullRequestDetail {
            number: self.number,
            url: self.url.clone(),
            status: self.status,
            merged_at: self.merged_at,
            merge_commit_sha: copy_option(&self.merge_commit_sha),
        }
    }
}

impl PrMerge {
    /// A copy of the link.
    pub fn copy(&self) -> (r: PrMerge)
        ensures
            r == *self,
    {
        PrMerge {
            number: self.number,
            url: self.url.clone(),
            status: self.status,
            target_branch_name: self.target_branch_name.clone(),
        }
    }
}

#[derive(Debug, Clone)]
pub struct UpsertPullRequestRequest {
    pub url: String,
    pub number: i32,
    pub status: PullRequestStatus,
    pub merged_at: Option<Timestamp>,
    pub merge_commit_sha: Option<String>,
    pub target_branch_name: String,
    pub local_workspace_id: Uuid,
}

// ---------------------------------------------------------------------------
// Requests and reports
// ---------------------------------------------------------------------------

#[derive(Debug)]
pub struct StartAutopilotReviewRequest {
    pub rerun: bool,
    pub github_repo_full_name: Option<String>,
}

#[derive(Debug)]
pub struct StartAutopilotReviewFixRequest {
    pub github_repo_full_name: Option<String>,
}

#[derive(Debug, Clone)]
pub struct ImplicationAutopilotStatus {
    pub workspace_id: Uuid,
    pub workspace_name: Option<String>,
    pub implementation_state: String,
    pub auto_review_state: AutopilotDecision,
    pub latest_review_decision: AutopilotDecision,
    pub latest_review_excerpt: Option<String>,
    pub review_fix_state: String,
    pub pr_merge_state: String,
    pub next_action: AutopilotNextAction,
    pub blocker: Option<String>,
    pub implementation_process: Option<AutopilotProcessSummary>,
    pub auto_review_process: Option<AutopilotProcessSummary>,
    pub review_fix_process: Option<AutopilotProcessSummary>,
    pub default_model: String,
    pub default_reasoning: String,
    pub daemonized: bool,
    pub workflow_state: AutopilotWorkflowState,
    pub workflow_state_reason: String,
    pub duplicate_prevention_key: String,
    pub token_safety_state: AutopilotTokenSafetyState,
    pub token_safety_note: String,
    pub pr_status: Option<AutopilotPrStatus>,
}

/// What a status says.
pub struct StatusView {
    pub workspace_id: Uuid,
    pub workspace_name: Option<Seq<char>>,
    pub implementation_state: Seq<char>,
    pub auto_review_state: AutopilotDecision,
    pub latest_review_decision: AutopilotDecision,
    pub latest_review_excerpt: Option<Seq<char>>,
    pub review_fix_state: Seq<char>,
    pub pr_merge_state: Seq<char>,
    pub next_action: AutopilotNextAction,
    pub blocker: Option<Seq<char>>,
    pub implementation_process: Option<AutopilotProcessSummary>,
    pub auto_review_process: Option<AutopilotProcessSummary>,
    pub review_fix_process: Option<AutopilotProcessSummary>,
    pub default_model: Seq<char>,
    pub default_reasoning: Seq<char>,
    pub daemonized: bool,
    pub workflow_state: AutopilotWorkflowState,
    pub workflow_state_reason: Seq<char>,
    pub duplicate_prevention_key: Seq<char>,
    pub token_safety_state: AutopilotTokenSafetyState,
    pub token_safety_note: Seq<char>,
    pub pr_status: Option<PrStatusView>,
}

impl View for ImplicationAutopilotStatus {
    type V = StatusView;

    open spec fn view(&self) -> StatusView {
        StatusView {
            workspace_id: self.workspace_id,
            workspace_name: view_of_option(self.workspace_name),
            implementation_state: self.implementation_state@,
            auto_review_state: self.auto_review_state,
            latest_review_decision: self.latest_review_decision,
            latest_review_excerpt: view_of_option(self.latest_review_excerpt),
            review_fix_state: self.review_fix_state@,
            pr_merge_state: self.pr_merge_state@,
            next_action: self.next_action,
            blocker: view_of_option(self.blocker),
            implementation_process: self.implementation_process,
            auto_review_process: self.auto_review_process,
            review_fix_process: self.review_fix_process,
            default_model: self.default_model@,
            default_reasoning: self.default_reasoning@,
            daemonized: self.daemonized,
            workflow_state: self.workflow_state,
            workflow_state_reason: self.workflow_state_reason@,
            duplicate_prevention_key: self.duplicate_prevention_key@,
            token_safety_state: self.token_safety_state,
            token_safety_note: self.token_safety_note@,
            pr_status: view_of_pr(self.pr_status),
        }
    }
}

#[derive(Debug, Clone)]
pub struct ImplicationAutopilotAdvanceResponse {
    pub action_taken: AutopilotAdvanceAction,
    pub status: ImplicationAutopilotStatus,
}

} // verus!
