//! The autopilot: sessions, reviews, gates, merges and batches.
use chrono::Utc;
use vibe_kanban::autopilot::agent_text::extract_process_agent_text;
use vibe_kanban::autopilot::batch::{
    plan_batch_advance, BatchAdvanceRelationship, BatchCandidate, BatchCardQueueState,
};
use vibe_kanban::autopilot::gates::{
    auto_review_start_gate, next_action, review_fix_start_gate, token_safety, workflow_state,
};
use vibe_kanban::autopilot::merge::{
    linked_pr_merge_completion_blocker, merge_plan_from_state, merge_state_from_pr_completion,
    AutopilotMergePlan,
};
use vibe_kanban::autopilot::pr_status::is_implication_issue_metadata;
use vibe_kanban::autopilot::review::{
    decide_from_review_attempts, decision_from_text, deciding_review,
};
use vibe_kanban::autopilot::sessions::{
    auto_review_session_name, is_auto_review_session, is_review_fix_session,
    review_fix_session_name, running_review_attempt,
};
use vibe_kanban::autopilot::types::{
    AutopilotDecision, AutopilotNextAction, AutopilotPrChecksState, AutopilotPrStatus,
    AutopilotTokenSafetyState, AutopilotWorkflowState, ExecutionProcessRunReason,
    ExecutionProcessStatus, MergeStatus, ProcessRow, Workspace,
};
use vibe_kanban::ids::Uuid;
use vibe_kanban::json::Json;

fn object(members: Vec<(&str, Json)>) -> Json {
    Json::Object(members.into_iter().map(|(key, value)| (key.to_string(), value)).collect())
}

fn workspace() -> Workspace {
    Workspace {
        id: Uuid::new_v4(),
        container_ref: None,
        branch: "issue-264".to_string(),
        archived: false,
        pinned: false,
        name: Some("Issue 264".to_string()),
        worktree_deleted: false,
    }
}

fn process(name: &str, status: ExecutionProcessStatus, exit_code: Option<i64>) -> ProcessRow {
    ProcessRow {
        id: Uuid::new_v4(),
        session_id: Uuid::new_v4(),
        session_name: Some(name.to_string()),
        status,
        run_reason: ExecutionProcessRunReason::CodingAgent,
        exit_code,
        started_at: Utc::now().to_rfc3339(),
        completed_at: Some(Utc::now().to_rfc3339()),
    }
}

fn completed_process(name: &str, exit_code: i64) -> ProcessRow {
    process(name, ExecutionProcessStatus::Completed, Some(exit_code))
}

fn completed_process_at(
    name: &str,
    exit_code: i64,
    started_at: &str,
    completed_at: &str,
) -> ProcessRow {
    ProcessRow {
        id: Uuid::new_v4(),
        session_id: Uuid::new_v4(),
        session_name: Some(name.to_string()),
        status: ExecutionProcessStatus::Completed,
        run_reason: ExecutionProcessRunReason::CodingAgent,
        exit_code: Some(exit_code),
        started_at: started_at.to_string(),
        completed_at: Some(completed_at.to_string()),
    }
}

fn failed_process_at(name: &str, started_at: &str, completed_at: &str) -> ProcessRow {
    ProcessRow {
        id: Uuid::new_v4(),
        session_id: Uuid::new_v4(),
        session_name: Some(name.to_string()),
        status: ExecutionProcessStatus::Failed,
        run_reason: ExecutionProcessRunReason::CodingAgent,
        exit_code: Some(1),
        started_at: started_at.to_string(),
        completed_at: Some(completed_at.to_string()),
    }
}

fn relationship(issue_id: Uuid, blocker: Uuid) -> BatchAdvanceRelationship {
    BatchAdvanceRelationship {
        issue_id,
        blocking_issue_id: blocker,
    }
}

fn pr_status(
    checks_state: AutopilotPrChecksState,
    merge_blocker: Option<&str>,
) -> AutopilotPrStatus {
    AutopilotPrStatus {
        number: 123,
        url: "https://github.com/gavinanelson/implication/pull/123".to_string(),
        state: "open".to_string(),
        is_draft: false,
        head_sha: Some("abc123".to_string()),
        base_branch: Some("main".to_string()),
        mergeable: Some("MERGEABLE".to_string()),
        merge_state_status: Some("CLEAN".to_string()),
        merge_commit_sha: None,
        checks_state,
        checks_summary: "checks summary".to_string(),
        merge_blocker: merge_blocker.map(ToString::to_string),
        source: "test".to_string(),
    }
}

#[test]
fn running_review_attempt_returns_active_review_process() {
    let completed = completed_process("Auto review - Codex (medium)", 0);
    let running = process(
        "Auto review rerun - Codex (medium)",
        ExecutionProcessStatus::Running,
        None,
    );
    let reviews = vec![&completed, &running];

    assert_eq!(
        running_review_attempt(&reviews).map(|row| row.id),
        Some(running.id)
    );
}

#[test]
fn review_fix_sessions_are_not_auto_review_sessions() {
    assert!(is_auto_review_session(Some("Auto review - Codex (medium)")));
    assert!(is_auto_review_session(Some(
        "Auto review rerun - Codex (medium)"
    )));
    assert_eq!(
        auto_review_session_name(false),
        "Auto review - Codex (medium)"
    );
    assert_eq!(
        auto_review_session_name(true),
        "Auto review rerun - Codex (medium)"
    );
    assert_eq!(review_fix_session_name(), "Review fix - Codex (medium)");
    assert!(is_review_fix_session(Some("Review fix - Codex (medium)")));
    assert!(!is_auto_review_session(Some("Review fix - Codex (medium)")));
    assert!(
        !review_fix_session_name()
            .to_ascii_lowercase()
            .starts_with("auto review")
    );
}

#[test]
fn running_review_fix_is_not_a_running_auto_review_attempt() {
    let completed_review = completed_process("Auto review - Codex (medium)", 0);
    let running_review_fix = process(
        "Review fix - Codex (medium)",
        ExecutionProcessStatus::Running,
        None,
    );
    let rows = [&running_review_fix, &completed_review];
    let review_processes = rows
        .iter()
        .copied()
        .filter(|row| is_auto_review_session(row.session_name.as_deref()))
        .collect::<Vec<_>>();

    assert_eq!(review_processes.len(), 1);
    assert_eq!(review_processes[0].id, completed_review.id);
    assert!(running_review_attempt(&review_processes).is_none());
}

#[test]
fn decision_prefers_request_changes_when_blockers_present() {
    assert_eq!(
        decision_from_text("Decision: request changes\nBlocker: test fails"),
        AutopilotDecision::RequestChanges
    );
}

#[test]
fn decision_treats_no_blockers_as_pass() {
    assert_eq!(
        decision_from_text("Decision: pass\nNo blocking regressions found."),
        AutopilotDecision::Pass
    );
}

#[test]
fn extract_process_agent_text_prefers_final_answer() {
    let line = r#"{
        "method": "item/completed",
        "params": {
            "item": {
                "id": "final-1",
                "type": "agentMessage",
                "phase": "final_answer",
                "text": "Decision: pass\nNo blockers."
            }
        }
    }"#
    .replace('\n', " ");
    assert_eq!(
        extract_process_agent_text(&[line]),
        "Decision: pass\nNo blockers."
    );
}

#[test]
fn extract_process_agent_text_reads_review_rollout_payloads() {
    let line = r#"{
        "method": "review_rollout_assistant",
        "params": {"decision": "Decision: request changes", "summary": "Blocker: missing test"}
    }"#
    .replace('\n', " ");
    assert_eq!(
        extract_process_agent_text(&[line]),
        "Blocker: missing test\nDecision: request changes"
    );
}

#[test]
fn latest_empty_review_attempt_is_failed_instead_of_falling_back_to_older_pass() {
    let latest_empty = completed_process("Auto review rerun - Codex (medium)", 0);
    let older_pass = completed_process("Auto review - Codex (medium)", 0);
    let reviews = vec![&latest_empty, &older_pass];

    let load_text = |process_id: Uuid| {
        if process_id == older_pass.id {
            "Decision: pass\nNo blockers.".to_string()
        } else {
            String::new()
        }
    };
    let text = deciding_review(&reviews).map(load_text).unwrap_or_default();
    let (decision, excerpt, row) = decide_from_review_attempts(&reviews, &text);

    assert_eq!(decision, AutopilotDecision::Failed);
    assert_eq!(excerpt, None);
    assert_eq!(row.map(|row| row.id), Some(latest_empty.id));
}

#[test]
fn latest_failed_review_attempt_is_failed_instead_of_falling_back_to_older_pass() {
    let latest_failed = completed_process("Auto review rerun - Codex (medium)", 1);
    let older_pass = completed_process("Auto review - Codex (medium)", 0);
    let reviews = vec![&latest_failed, &older_pass];

    let load_text = |process_id: Uuid| {
        if process_id == older_pass.id {
            "Decision: pass\nNo blockers.".to_string()
        } else {
            String::new()
        }
    };
    let text = deciding_review(&reviews).map(load_text).unwrap_or_default();
    let (decision, excerpt, row) = decide_from_review_attempts(&reviews, &text);

    assert_eq!(decision, AutopilotDecision::Failed);
    assert_eq!(excerpt, None);
    assert_eq!(row.map(|row| row.id), Some(latest_failed.id));
}

#[test]
fn implication_eligibility_reads_repo_from_issue_metadata() {
    let metadata = object(vec![(
        "github_link",
        object(vec![
            ("repo_full_name", Json::string("gavinanelson/implication")),
            ("issue_number", Json::Integer(264)),
            ("issue_url", Json::string("https://github.com/gavinanelson/implication/issues/264")),
        ]),
    )]);

    assert!(is_implication_issue_metadata(&metadata));

    let spoofed_payload_repo = "gavinanelson/implication";
    let metadata = object(vec![(
        "github_link",
        object(vec![
            ("repo_full_name", Json::string("gavinanelson/vibe-kanban")),
            ("issue_number", Json::Integer(2)),
            ("issue_url", Json::string("https://github.com/gavinanelson/vibe-kanban/issues/2")),
        ]),
    )]);

    assert_eq!(spoofed_payload_repo, "gavinanelson/implication");
    assert!(!is_implication_issue_metadata(&metadata));
}

#[test]
fn action_gating_allows_review_fix_only_after_clean_implementation_and_requested_changes() {
    let implementation = completed_process("Implementation", 0);
    let workspace = workspace();

    assert_eq!(
        review_fix_start_gate(
            &workspace,
            Some(&implementation),
            &AutopilotDecision::RequestChanges,
            None,
            None
        ),
        Ok(())
    );
}

#[test]
fn action_gating_blocks_review_fix_without_requested_changes() {
    let implementation = completed_process("Implementation", 0);
    let workspace = workspace();

    assert_eq!(
        review_fix_start_gate(
            &workspace,
            Some(&implementation),
            &AutopilotDecision::Pass,
            None,
            None
        ),
        Err("Review fix can only start after auto-review requests changes.".to_string())
    );
}

#[test]
fn eligibility_requires_implication_repo_and_linked_issue() {
    assert!(!is_implication_issue_metadata(&object(vec![])));
    assert!(!is_implication_issue_metadata(&object(vec![(
        "github_link",
        object(vec![
            ("issue_number", Json::Integer(264)),
            ("issue_url", Json::string("https://github.com/gavinanelson/implication/issues/264")),
        ]),
    )])));
}

#[test]
fn action_gating_allows_initial_auto_review_when_next_action_starts_review() {
    let implementation = completed_process("Implementation", 0);
    let workspace = workspace();

    assert_eq!(
        auto_review_start_gate(
            &workspace,
            Some(&implementation),
            &AutopilotDecision::Missing,
            None,
            None,
            "waiting_for_review",
            None,
            false,
        ),
        Ok(())
    );
}

#[test]
fn action_gating_requires_explicit_rerun_after_review_fix_completes() {
    let implementation = completed_process("Implementation", 0);
    let review = completed_process_at(
        "Auto review - Codex (medium)",
        0,
        "2026-04-25T12:00:00Z",
        "2026-04-25T12:10:00Z",
    );
    let review_fix = completed_process_at(
        "Review fix",
        0,
        "2026-04-25T12:20:00Z",
        "2026-04-25T12:30:00Z",
    );
    let workspace = workspace();

    assert_eq!(
        auto_review_start_gate(
            &workspace,
            Some(&implementation),
            &AutopilotDecision::RequestChanges,
            Some(&review),
            Some(&review_fix),
            "blocked_by_review",
            None,
            false,
        ),
        Err("Auto-review rerun must be explicit after review fix completes.".to_string())
    );

    assert_eq!(
        auto_review_start_gate(
            &workspace,
            Some(&implementation),
            &AutopilotDecision::RequestChanges,
            Some(&review),
            Some(&review_fix),
            "blocked_by_review",
            None,
            true,
        ),
        Ok(())
    );
}

#[test]
fn action_gating_blocks_auto_review_when_review_fix_is_next() {
    let implementation = completed_process("Implementation", 0);
    let review = completed_process("Auto review - Codex (medium)", 0);
    let workspace = workspace();

    assert_eq!(
        auto_review_start_gate(
            &workspace,
            Some(&implementation),
            &AutopilotDecision::RequestChanges,
            Some(&review),
            None,
            "blocked_by_review",
            None,
            false,
        ),
        Err("Auto-review cannot start while the next action is start_review_fix.".to_string())
    );
}

#[test]
fn latest_review_requires_a_newer_review_fix_before_re_review() {
    let implementation = completed_process("Implementation", 0);
    let latest_review = completed_process_at(
        "Auto review rerun - Codex (medium)",
        0,
        "2026-04-25T12:40:00Z",
        "2026-04-25T12:50:00Z",
    );
    let old_review_fix = completed_process_at(
        "Review fix - Codex (medium)",
        0,
        "2026-04-25T12:20:00Z",
        "2026-04-25T12:30:00Z",
    );
    let workspace = workspace();

    let (next_action, blocker) = next_action(
        &workspace,
        Some(&implementation),
        &AutopilotDecision::RequestChanges,
        Some(&latest_review),
        Some(&old_review_fix),
        "blocked_by_review",
        None,
    );

    assert_eq!(next_action, AutopilotNextAction::StartReviewFix);
    assert_eq!(blocker, None);
    assert_eq!(
        auto_review_start_gate(
            &workspace,
            Some(&implementation),
            &AutopilotDecision::RequestChanges,
            Some(&latest_review),
            Some(&old_review_fix),
            "blocked_by_review",
            None,
            true,
        ),
        Err("Auto-review cannot start while the next action is start_review_fix.".to_string())
    );
}

#[test]
fn review_fix_gate_blocks_duplicate_fix_after_latest_review() {
    let implementation = completed_process("Implementation", 0);
    let latest_review = completed_process_at(
        "Auto review - Codex (medium)",
        0,
        "2026-04-25T12:00:00Z",
        "2026-04-25T12:10:00Z",
    );
    let review_fix = completed_process_at(
        "Review fix - Codex (medium)",
        0,
        "2026-04-25T12:20:00Z",
        "2026-04-25T12:30:00Z",
    );
    let workspace = workspace();

    assert_eq!(
        review_fix_start_gate(
            &workspace,
            Some(&implementation),
            &AutopilotDecision::RequestChanges,
            Some(&latest_review),
            Some(&review_fix),
        ),
        Err(
            "Review fix already completed after the latest review; rerun auto-review next."
                .to_string()
        )
    );
}

#[test]
fn failed_review_fix_after_latest_review_surfaces_blocker() {
    let implementation = completed_process("Implementation", 0);
    let latest_review = completed_process_at(
        "Auto review - Codex (medium)",
        0,
        "2026-04-25T12:00:00Z",
        "2026-04-25T12:10:00Z",
    );
    let failed_review_fix = failed_process_at(
        "Review fix - Codex (medium)",
        "2026-04-25T12:20:00Z",
        "2026-04-25T12:30:00Z",
    );
    let workspace = workspace();

    let (next_action, blocker) = next_action(
        &workspace,
        Some(&implementation),
        &AutopilotDecision::RequestChanges,
        Some(&latest_review),
        Some(&failed_review_fix),
        "blocked_by_review",
        None,
    );

    assert_eq!(next_action, AutopilotNextAction::InvestigateFailure);
    assert_eq!(
        blocker,
        Some("Review fix did not complete cleanly.".to_string())
    );
    assert_eq!(
        review_fix_start_gate(
            &workspace,
            Some(&implementation),
            &AutopilotDecision::RequestChanges,
            Some(&latest_review),
            Some(&failed_review_fix),
        ),
        Err(
            "Review fix already ran after the latest review and did not complete cleanly."
                .to_string()
        )
    );
}

#[test]
fn next_action_surfaces_review_pass_as_ready_for_app_merge() {
    let implementation = completed_process("Implementation", 0);
    let workspace = workspace();
    let (next_action, blocker) = next_action(
        &workspace,
        Some(&implementation),
        &AutopilotDecision::Pass,
        None,
        None,
        "pr_open_pending_merge",
        None,
    );

    assert_eq!(next_action, AutopilotNextAction::ReadyForMerge);
    assert!(blocker.unwrap().contains("app advance"));
}

#[test]
fn merge_plan_reconciles_merged_pr_to_done_without_new_agent_session() {
    let plan = merge_plan_from_state("merged_pending_done");

    assert_eq!(plan, AutopilotMergePlan::ReconcileDone);
}

#[test]
fn linked_pr_completion_allows_multiple_merged_pull_requests() {
    assert_eq!(
        linked_pr_merge_completion_blocker(&[MergeStatus::Merged, MergeStatus::Merged]),
        None
    );
}

#[test]
fn linked_pr_completion_blocks_when_any_pull_request_remains_open() {
    assert_eq!(
        linked_pr_merge_completion_blocker(&[
            MergeStatus::Merged,
            MergeStatus::Open,
            MergeStatus::Merged
        ]),
        Some(
            "Not all linked pull requests are merged yet: 1 open PR remains after merge attempts."
                .to_string()
        )
    );
}

#[test]
fn linked_pr_completion_blocks_closed_or_unknown_pull_requests() {
    assert_eq!(
        linked_pr_merge_completion_blocker(&[MergeStatus::Merged, MergeStatus::Closed]),
        Some("Cannot complete autopilot merge: 1 linked PR is closed.".to_string())
    );
    assert_eq!(
        linked_pr_merge_completion_blocker(&[MergeStatus::Unknown]),
        Some("Cannot complete autopilot merge: 1 linked PR has unknown status.".to_string())
    );
}

#[test]
fn linked_pr_completion_reports_missing_prs_as_recoverable() {
    assert_eq!(
        linked_pr_merge_completion_blocker(&[]),
        Some(
            "No linked pull requests were found for this workspace; create or link a PR and rerun app advance."
                .to_string()
        )
    );
}

#[test]
fn merge_state_requires_all_linked_pull_requests_merged_before_done() {
    assert_eq!(
        merge_state_from_pr_completion(&[MergeStatus::Merged, MergeStatus::Merged]),
        Some("merged_pending_done")
    );
    assert_eq!(
        merge_state_from_pr_completion(&[MergeStatus::Merged, MergeStatus::Closed]),
        Some("blocked_by_pr_requirements")
    );
    assert_eq!(
        merge_state_from_pr_completion(&[MergeStatus::Merged, MergeStatus::Unknown]),
        Some("blocked_by_pr_requirements")
    );
    assert_eq!(merge_state_from_pr_completion(&[]), None);
}

#[test]
fn done_or_archived_state_is_terminal_for_pinned_reconciliation() {
    let implementation = completed_process("Implementation", 0);
    let mut workspace = workspace();
    workspace.pinned = true;
    let (next_action, blocker) = next_action(
        &workspace,
        Some(&implementation),
        &AutopilotDecision::Pass,
        None,
        None,
        "done_or_archived",
        None,
    );

    assert_eq!(next_action, AutopilotNextAction::Done);
    assert_eq!(blocker, None);
}

#[test]
fn next_action_blocks_dirty_or_conflicted_merge_state_after_review_pass() {
    let implementation = completed_process("Implementation", 0);
    let workspace = workspace();
    let (next_action, blocker) = next_action(
        &workspace,
        Some(&implementation),
        &AutopilotDecision::Pass,
        None,
        None,
        "blocked_by_dirty_worktree",
        None,
    );

    assert_eq!(next_action, AutopilotNextAction::InvestigateFailure);
    assert_eq!(
        blocker,
        Some("Merge is blocked by dirty/conflicting workspace changes.".to_string())
    );
    assert_eq!(
        merge_plan_from_state("blocked_by_pr_requirements"),
        AutopilotMergePlan::Blocked(
            "PR merge is blocked by GitHub checks, reviews, conflicts, or mergeability."
                .to_string()
        )
    );
}

#[test]
fn next_action_blocks_review_pass_on_dirty_pr_without_rerunning_review() {
    let implementation = completed_process("Implementation", 0);
    let workspace = workspace();
    let pr = pr_status(
        AutopilotPrChecksState::Passing,
        Some("PR is not currently mergeable (CONFLICTING/DIRTY)."),
    );

    let (next_action, blocker) = next_action(
        &workspace,
        Some(&implementation),
        &AutopilotDecision::Pass,
        None,
        None,
        "blocked_by_pr_mergeability",
        Some(&pr),
    );

    assert_eq!(next_action, AutopilotNextAction::InvestigateFailure);
    assert!(blocker.unwrap().contains("not currently mergeable"));
}

#[test]
fn next_action_waits_for_pending_checks_after_review_pass() {
    let implementation = completed_process("Implementation", 0);
    let workspace = workspace();
    let pr = pr_status(
        AutopilotPrChecksState::Pending,
        Some("PR checks are not green yet."),
    );

    let (next_action, blocker) = next_action(
        &workspace,
        Some(&implementation),
        &AutopilotDecision::Pass,
        None,
        None,
        "waiting_for_checks",
        Some(&pr),
    );

    assert_eq!(next_action, AutopilotNextAction::MergeWait);
    assert!(blocker.unwrap().contains("not green"));
}

#[test]
fn token_safety_explains_guarded_re_review_without_running_tokens() {
    let implementation = completed_process("Implementation", 0);
    let review = completed_process("Auto review - Codex (medium)", 0);
    let review_fix = completed_process("Review fix - Codex (medium)", 0);

    let (state, note) = token_safety(
        &AutopilotNextAction::StartAutoReview,
        Some("Review fix completed; rerun auto-review."),
        Some(&implementation),
        Some(&review),
        Some(&review_fix),
        &AutopilotDecision::RequestChanges,
    );

    assert_eq!(state, AutopilotTokenSafetyState::Guarded);
    assert!(note.contains("explicit rerun"));
    assert!(note.contains("no agent is running"));
}

#[test]
fn workflow_state_marks_review_pass_as_app_owned_merge_without_token_use() {
    let implementation = completed_process("Implementation", 0);
    let (state, reason) = workflow_state(
        &AutopilotNextAction::ReadyForMerge,
        Some("Review passed; app advance owns merge/done reconciliation."),
        Some(&implementation),
        &AutopilotDecision::Pass,
        None,
        None,
        "pr_open_pending_merge",
    );

    assert_eq!(state, AutopilotWorkflowState::ReviewPassed);
    assert!(reason.contains("app advance"));
}

#[test]
fn batch_selection_stages_all_cards_but_only_runnable_unblocked_cards_start() {
    let blocker = Uuid::new_v4();
    let blocked = Uuid::new_v4();
    let runnable = Uuid::new_v4();
    let queued_by_cap = Uuid::new_v4();
    let candidates = vec![
        BatchCandidate {
            issue_id: blocker,
            workspace_id: Some(Uuid::new_v4()),
            done: false,
            active: true,
            next_action: Some(AutopilotNextAction::WaitForImplementation),
            blockers: vec![],
        },
        BatchCandidate {
            issue_id: blocked,
            workspace_id: None,
            done: false,
            active: false,
            next_action: None,
            blockers: vec![],
        },
        BatchCandidate {
            issue_id: runnable,
            workspace_id: None,
            done: false,
            active: false,
            next_action: None,
            blockers: vec![],
        },
        BatchCandidate {
            issue_id: queued_by_cap,
            workspace_id: None,
            done: false,
            active: false,
            next_action: None,
            blockers: vec![],
        },
    ];

    let plan = plan_batch_advance(&candidates, &[relationship(blocked, blocker)], 2);

    assert_eq!(plan.cards.len(), 4);
    assert_eq!(plan.cards[0].state, BatchCardQueueState::Active);
    assert_eq!(
        plan.cards[1].state,
        BatchCardQueueState::BlockedByDependencies
    );
    assert_eq!(plan.cards[1].blockers, vec![blocker]);
    assert_eq!(plan.cards[2].state, BatchCardQueueState::Runnable);
    assert_eq!(plan.cards[3].state, BatchCardQueueState::Queued);
}

#[test]
fn batch_selection_unblocks_dependents_when_blocker_is_done() {
    let blocker = Uuid::new_v4();
    let dependent = Uuid::new_v4();
    let candidates = vec![
        BatchCandidate {
            issue_id: blocker,
            workspace_id: Some(Uuid::new_v4()),
            done: true,
            active: false,
            next_action: None,
            blockers: vec![],
        },
        BatchCandidate {
            issue_id: dependent,
            workspace_id: None,
            done: false,
            active: false,
            next_action: None,
            blockers: vec![],
        },
    ];

    let plan = plan_batch_advance(&candidates, &[relationship(dependent, blocker)], 1);

    assert_eq!(plan.cards[0].state, BatchCardQueueState::Done);
    assert_eq!(plan.cards[1].state, BatchCardQueueState::Runnable);
    assert!(plan.cards[1].blockers.is_empty());
}
