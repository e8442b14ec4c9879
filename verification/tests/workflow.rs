//! The next step of a workspace, its status, and what is done about it.
use vibe_kanban::api::Timestamp;
use vibe_kanban::autopilot::advance::{
    advance_report, advance_step, archives_when_done, busy_report, step_after_merge, AdvanceLocks,
    AdvanceStep,
};
use vibe_kanban::autopilot::batch::{
    batch_candidates, default_batch_max_active, dependency_blockers_for, plan_batch_advance,
    BatchAdvancePlanCandidate, BatchAdvanceRelationship, BatchCandidate, BatchCardQueueState,
};
use vibe_kanban::autopilot::gates::{
    auto_review_start_gate, duplicate_prevention_key, is_instant_after, next_action,
    next_action_name, process_time_after, review_fix_start_gate, review_reference_time,
    token_safety, workflow_state,
};
use vibe_kanban::autopilot::promotion::{
    linked_issue_is_done, promote_issue_to_done, promote_issue_to_in_review, LinkedIssue,
    ProjectStatus,
};
use vibe_kanban::autopilot::sessions::{
    implementation_process, implementation_state, is_auto_review_session,
    is_implementation_process, is_review_fix_session, review_fix_process, review_fix_state,
    review_processes,
};
use vibe_kanban::autopilot::start::{
    default_codex_config, plan_auto_review, plan_review_fix, review_contexts, review_fix_request,
    review_request, running_agent_gate, BaseCodingAgent, PermissionPolicy, RepoForkPoint,
    REVIEW_FIX_PROMPT, REVIEW_PROMPT,
};
use vibe_kanban::autopilot::status::{apply_merge_blocker, build_status};
use vibe_kanban::autopilot::types::{
    process_summary, process_summary_from_parts, AutopilotAdvanceAction, AutopilotDecision,
    AutopilotNextAction, AutopilotTokenSafetyState, AutopilotWorkflowState,
    ExecutionProcessRunReason, ExecutionProcessStatus, ImplicationAutopilotStatus, ProcessRow,
    Workspace,
};
use vibe_kanban::ids::Uuid;

fn workspace() -> Workspace {
    Workspace {
        id: Uuid::from_u128(0xabc),
        container_ref: None,
        branch: "issue-1".to_string(),
        archived: false,
        pinned: false,
        name: Some("Issue 1".to_string()),
        worktree_deleted: false,
    }
}

fn row(bits: u128, name: &str, status: ExecutionProcessStatus, exit: Option<i64>) -> ProcessRow {
    ProcessRow {
        id: Uuid::from_u128(bits),
        session_id: Uuid::from_u128(bits + 100),
        session_name: Some(name.to_string()),
        status,
        run_reason: ExecutionProcessRunReason::CodingAgent,
        exit_code: exit,
        started_at: "2026-04-25T12:00:00Z".to_string(),
        completed_at: None,
    }
}

fn clean(bits: u128, name: &str, started_at: &str, completed_at: Option<&str>) -> ProcessRow {
    ProcessRow {
        started_at: started_at.to_string(),
        completed_at: completed_at.map(str::to_string),
        ..row(bits, name, ExecutionProcessStatus::Completed, Some(0))
    }
}

fn requested() -> Vec<ProcessRow> {
    vec![
        clean(2, "Auto review - Codex (medium)", "2026-04-25T12:00:00Z", None),
        clean(1, "Implementation", "2026-04-25T11:00:00Z", None),
    ]
}

const CHANGES: &str = "Decision: request changes\nBlocker: x";

#[test]
fn times_are_compared_as_points_in_time() {
    assert!(process_time_after("2026-04-25T12:00:01Z", "2026-04-25T12:00:00Z"));
    assert!(process_time_after("2026-04-25T12:00:00.000000002Z", "2026-04-25T12:00:00.000000001Z"));
    assert!(!process_time_after("2026-04-25T12:00:00Z", "2026-04-25T12:00:00Z"));
    // Later as texts, earlier as points in time.
    assert!(!process_time_after("2026-04-25T13:00:00+02:00", "2026-04-25T12:00:00Z"));
    assert!(process_time_after("2026-04-25T11:30:00-01:00", "2026-04-25T12:00:00Z"));
    // Equal points in time that are written differently.
    assert!(!process_time_after("2026-04-25T14:00:00+02:00", "2026-04-25T12:00:00Z"));
    // A leap second is after the second before it.
    assert!(process_time_after("2016-12-31T23:59:60Z", "2016-12-31T23:59:59.5Z"));
    assert!(is_instant_after((1, 0), (0, 5)));
    assert!(is_instant_after((1, 6), (1, 5)));
    assert!(!is_instant_after((1, 5), (1, 5)));
}

#[test]
fn times_that_are_no_points_in_time_are_compared_as_texts() {
    assert!(process_time_after("b", "a"));
    assert!(!process_time_after("a", "b"));
    assert!(process_time_after("2026-04-25 13:00:00", "2026-04-25 12:00:00"));
    assert!(!process_time_after("2026-04-25 13:00:00", "2026-04-25T12:00:00Z"));
}

#[test]
fn a_review_is_held_against_the_time_it_ended() {
    let ended = clean(1, "r", "a", Some("b"));
    assert_eq!(review_reference_time(&ended), "b");
    assert_eq!(review_reference_time(&clean(1, "r", "a", None)), "a");
}

#[test]
fn sessions_are_recognised_whatever_their_case() {
    assert!(is_auto_review_session(Some("  AUTO REVIEW ")));
    assert!(!is_auto_review_session(Some("Auto review of things")));
    assert!(!is_auto_review_session(Some("Auto review - fix review")));
    assert!(is_review_fix_session(Some("Auto review - fix review")));
    assert!(is_review_fix_session(Some("Please FIX REVIEW")));
    assert!(!is_review_fix_session(None));
    assert!(!is_auto_review_session(None));
}

#[test]
fn the_latest_process_of_each_kind_is_chosen() {
    let rows = vec![
        row(5, "Review fix - Codex (medium)", ExecutionProcessStatus::Killed, None),
        row(4, "Auto review - Codex (medium)", ExecutionProcessStatus::Failed, Some(1)),
        row(3, "Build", ExecutionProcessStatus::Running, None),
        row(2, "Auto review", ExecutionProcessStatus::Completed, Some(0)),
        row(1, "Older build", ExecutionProcessStatus::Completed, Some(0)),
    ];
    assert_eq!(implementation_process(&rows).unwrap().id, Uuid::from_u128(3));
    assert_eq!(review_fix_process(&rows).unwrap().id, Uuid::from_u128(5));
    let ids: Vec<Uuid> = review_processes(&rows).iter().map(|row| row.id).collect();
    assert_eq!(ids, vec![Uuid::from_u128(4), Uuid::from_u128(2)]);
    let mut script = row(9, "Setup", ExecutionProcessStatus::Completed, Some(0));
    script.run_reason = ExecutionProcessRunReason::SetupScript;
    assert!(!is_implementation_process(&script));
    assert!(implementation_process(&[script]).is_none());
}

#[test]
fn states_of_processes_are_named() {
    let state = |status, exit| implementation_state(Some(&row(1, "x", status, exit)));
    assert_eq!(implementation_state(None), "missing");
    assert_eq!(review_fix_state(None), "not_started");
    assert_eq!(state(ExecutionProcessStatus::Running, None), "running");
    assert_eq!(state(ExecutionProcessStatus::Completed, Some(0)), "completed");
    assert_eq!(state(ExecutionProcessStatus::Completed, Some(2)), "failed");
    assert_eq!(state(ExecutionProcessStatus::Completed, None), "failed");
    assert_eq!(state(ExecutionProcessStatus::Failed, Some(0)), "failed");
    assert_eq!(state(ExecutionProcessStatus::Killed, None), "killed");
    assert_eq!(
        review_fix_state(Some(&row(1, "x", ExecutionProcessStatus::Completed, Some(0)))),
        "completed"
    );
}

#[test]
fn every_next_action_can_be_reached() {
    let done = clean(1, "Implementation", "a", None);
    let act = |implementation: Option<&ProcessRow>, decision, fix: Option<&ProcessRow>, state: &str| {
        next_action(&workspace(), implementation, &decision, None, fix, state, None)
    };
    let running = row(1, "x", ExecutionProcessStatus::Running, None);
    let failed = row(1, "x", ExecutionProcessStatus::Failed, Some(0));
    assert_eq!(
        act(None, AutopilotDecision::Missing, None, "s"),
        (
            AutopilotNextAction::NoWorkspace,
            Some("No implementation process was found for this workspace.".to_string())
        )
    );
    assert_eq!(
        act(Some(&running), AutopilotDecision::Pass, None, "s"),
        (AutopilotNextAction::WaitForImplementation, None)
    );
    assert_eq!(
        act(Some(&failed), AutopilotDecision::Pass, None, "s"),
        (
            AutopilotNextAction::InvestigateFailure,
            Some("Latest implementation process did not complete cleanly.".to_string())
        )
    );
    assert_eq!(
        act(Some(&done), AutopilotDecision::Missing, None, "s"),
        (AutopilotNextAction::StartAutoReview, None)
    );
    assert_eq!(
        act(Some(&done), AutopilotDecision::Running, None, "s"),
        (AutopilotNextAction::WaitForAutoReview, None)
    );
    assert_eq!(
        act(Some(&done), AutopilotDecision::Failed, None, "s").0,
        AutopilotNextAction::InvestigateFailure
    );
    assert_eq!(
        act(Some(&done), AutopilotDecision::RequestChanges, Some(&running), "s"),
        (AutopilotNextAction::WaitForReviewFix, None)
    );
    assert_eq!(
        act(Some(&done), AutopilotDecision::RequestChanges, None, "s"),
        (AutopilotNextAction::StartReviewFix, None)
    );
    assert_eq!(
        act(Some(&done), AutopilotDecision::Pass, None, "merged_pending_done"),
        (
            AutopilotNextAction::ReadyForMerge,
            Some("Review passed; app advance will reconcile merged PR state to Done.".to_string())
        )
    );
    assert_eq!(
        act(Some(&done), AutopilotDecision::Pass, None, "no_pr_merge_found").0,
        AutopilotNextAction::ReadyForMerge
    );
    assert_eq!(
        act(None, AutopilotDecision::Missing, None, "merged"),
        (AutopilotNextAction::Done, None)
    );
    let mut deleted = workspace();
    deleted.worktree_deleted = true;
    assert_eq!(
        next_action(&deleted, None, &AutopilotDecision::Pass, None, None, "s", None),
        (AutopilotNextAction::Done, None)
    );
}

#[test]
fn actions_have_names() {
    for (action, name) in [
        (AutopilotNextAction::NoWorkspace, "no_workspace"),
        (AutopilotNextAction::WaitForImplementation, "wait_for_implementation"),
        (AutopilotNextAction::StartAutoReview, "start_auto_review"),
        (AutopilotNextAction::WaitForAutoReview, "wait_for_auto_review"),
        (AutopilotNextAction::StartReviewFix, "start_review_fix"),
        (AutopilotNextAction::WaitForReviewFix, "wait_for_review_fix"),
        (AutopilotNextAction::ReadyForMerge, "ready_for_merge"),
        (AutopilotNextAction::MergeWait, "merge_wait"),
        (AutopilotNextAction::Done, "done"),
        (AutopilotNextAction::InvestigateFailure, "investigate_failure"),
    ] {
        assert_eq!(next_action_name(&action), name);
    }
}

#[test]
fn fixes_are_refused_with_their_reason() {
    let done = clean(1, "Implementation", "a", None);
    let gate = |workspace: &Workspace, implementation: Option<&ProcessRow>, fix: Option<&ProcessRow>| {
        review_fix_start_gate(
            workspace,
            implementation,
            &AutopilotDecision::RequestChanges,
            None,
            fix,
        )
        .unwrap_err()
    };
    let mut archived = workspace();
    archived.archived = true;
    let running = row(1, "x", ExecutionProcessStatus::Running, None);
    let broken = row(1, "x", ExecutionProcessStatus::Completed, Some(1));
    assert_eq!(gate(&archived, Some(&done), None), "Workspace is archived or deleted.");
    assert_eq!(
        gate(&workspace(), None, None),
        "No implementation process was found for this workspace."
    );
    assert_eq!(gate(&workspace(), Some(&running), None), "Implementation is still running.");
    assert_eq!(
        gate(&workspace(), Some(&broken), None),
        "Latest implementation process did not complete cleanly."
    );
    assert_eq!(
        gate(&workspace(), Some(&done), Some(&running)),
        "Review fix is already running."
    );
}

#[test]
fn a_fix_and_a_review_never_may_start_together() {
    let done = clean(1, "Implementation", "a", None);
    let fix = clean(3, "Review fix", "2026-04-25T13:00:00Z", None);
    let review = clean(2, "Auto review", "2026-04-25T12:00:00Z", None);
    for decision in [
        AutopilotDecision::Missing,
        AutopilotDecision::Running,
        AutopilotDecision::Pass,
        AutopilotDecision::RequestChanges,
        AutopilotDecision::Failed,
    ] {
        for fix in [None, Some(&fix)] {
            let may_fix = review_fix_start_gate(
                &workspace(),
                Some(&done),
                &decision,
                Some(&review),
                fix,
            )
            .is_ok();
            let may_review = auto_review_start_gate(
                &workspace(),
                Some(&done),
                &decision,
                Some(&review),
                fix,
                "s",
                None,
                true,
            )
            .is_ok();
            assert!(!(may_fix && may_review));
            if decision == AutopilotDecision::Pass {
                assert!(!may_fix && !may_review);
            }
        }
    }
}

#[test]
fn token_safety_follows_what_runs_and_what_comes_next() {
    let safety = |action, blocker, implementation: Option<&ProcessRow>, decision| {
        token_safety(&action, blocker, implementation, None, None, &decision)
    };
    let running = row(1, "x", ExecutionProcessStatus::Running, None);
    let (state, note) = safety(
        AutopilotNextAction::Done,
        None,
        Some(&running),
        AutopilotDecision::Pass,
    );
    assert_eq!(state, AutopilotTokenSafetyState::Guarded);
    assert!(note.starts_with("A single agent session is running."));
    let (state, note) = safety(
        AutopilotNextAction::NoWorkspace,
        None,
        None,
        AutopilotDecision::Missing,
    );
    assert_eq!(state, AutopilotTokenSafetyState::Blocked);
    assert_eq!(note, "Autopilot is blocked before any new Codex session can start.");
    let (state, note) = safety(
        AutopilotNextAction::InvestigateFailure,
        Some("why"),
        None,
        AutopilotDecision::Missing,
    );
    assert_eq!((state, note.as_str()), (AutopilotTokenSafetyState::Blocked, "why"));
    let (state, note) = safety(
        AutopilotNextAction::StartAutoReview,
        None,
        None,
        AutopilotDecision::Missing,
    );
    assert_eq!(state, AutopilotTokenSafetyState::Guarded);
    assert!(note.starts_with("Auto-review starts are guarded"));
    let (state, _) = safety(
        AutopilotNextAction::MergeWait,
        None,
        None,
        AutopilotDecision::Pass,
    );
    assert_eq!(state, AutopilotTokenSafetyState::Idle);
}

#[test]
fn workflow_states_say_why() {
    let review = clean(2, "Auto review", "2026-04-25T12:00:00Z", None);
    let fix = clean(3, "Review fix", "2026-04-25T13:00:00Z", None);
    let flow = |action, blocker, decision, fix| {
        workflow_state(&action, blocker, None, &decision, Some(&review), fix, "s")
    };
    for (action, state, reason) in [
        (
            AutopilotNextAction::NoWorkspace,
            AutopilotWorkflowState::Queued,
            "Queued until a local workspace is linked.",
        ),
        (
            AutopilotNextAction::WaitForImplementation,
            AutopilotWorkflowState::ImplementationRunning,
            "Implementation session is running; no duplicate workspace or review will start.",
        ),
        (
            AutopilotNextAction::StartAutoReview,
            AutopilotWorkflowState::ReadyToAdvance,
            "Implementation completed; app advance may promote to In review and start exactly one auto-review.",
        ),
        (
            AutopilotNextAction::WaitForAutoReview,
            AutopilotWorkflowState::ReviewRunning,
            "One auto-review is already running for this workspace state.",
        ),
        (
            AutopilotNextAction::StartReviewFix,
            AutopilotWorkflowState::ReviewRequestedChanges,
            "Latest review requested changes; app advance may start exactly one review-fix session.",
        ),
        (
            AutopilotNextAction::WaitForReviewFix,
            AutopilotWorkflowState::ReviewFixRunning,
            "One review-fix session is already running.",
        ),
        (
            AutopilotNextAction::ReadyForMerge,
            AutopilotWorkflowState::ReviewPassed,
            "Review passed; app advance owns merge/done reconciliation.",
        ),
        (
            AutopilotNextAction::MergeWait,
            AutopilotWorkflowState::MergeWaiting,
            "Merge/check work is waiting.",
        ),
        (
            AutopilotNextAction::Done,
            AutopilotWorkflowState::Done,
            "Workspace is done or archived.",
        ),
        (
            AutopilotNextAction::InvestigateFailure,
            AutopilotWorkflowState::Blocked,
            "Autopilot is blocked before another Codex session can start.",
        ),
    ] {
        assert_eq!(
            flow(action, None, AutopilotDecision::Missing, None),
            (state, reason.to_string())
        );
    }
    assert_eq!(
        flow(
            AutopilotNextAction::StartAutoReview,
            None,
            AutopilotDecision::RequestChanges,
            Some(&fix)
        ),
        (
            AutopilotWorkflowState::ReadyToAdvance,
            "Review fix completed; app advance may start exactly one re-review.".to_string()
        )
    );
    assert_eq!(
        flow(AutopilotNextAction::InvestigateFailure, Some("b"), AutopilotDecision::Pass, None).1,
        "b"
    );
}

#[test]
fn keys_tell_states_apart() {
    let one = clean(1, "x", "a", None);
    let two = clean(2, "x", "a", None);
    let key = |a, b, c, decision| duplicate_prevention_key(&workspace(), a, b, c, &decision);
    assert_eq!(
        key(Some(&one), None, Some(&two), AutopilotDecision::RequestChanges),
        "00000000-0000-0000-0000-000000000abc:00000000-0000-0000-0000-000000000001:no-review:00000000-0000-0000-0000-000000000002:RequestChanges"
    );
    assert_eq!(
        key(None, None, None, AutopilotDecision::Missing),
        "00000000-0000-0000-0000-000000000abc:no-implementation:no-review:no-review-fix:Missing"
    );
    let keys = [
        key(Some(&one), None, None, AutopilotDecision::Pass),
        key(None, Some(&one), None, AutopilotDecision::Pass),
        key(None, None, Some(&one), AutopilotDecision::Pass),
        key(Some(&two), None, None, AutopilotDecision::Pass),
        key(Some(&one), None, None, AutopilotDecision::Running),
        key(Some(&one), None, None, AutopilotDecision::Failed),
    ];
    for i in 0..keys.len() {
        for j in 0..i {
            assert_ne!(keys[i], keys[j]);
        }
    }
}

fn status(rows: &[ProcessRow], text: &str, state: &str) -> ImplicationAutopilotStatus {
    build_status(&workspace(), rows, text, None, state)
}

#[test]
fn a_status_is_put_together() {
    let status = status(&requested(), CHANGES, "blocked_by_review");
    assert_eq!(status.workspace_id, Uuid::from_u128(0xabc));
    assert_eq!(status.workspace_name.as_deref(), Some("Issue 1"));
    assert_eq!(status.implementation_state, "completed");
    assert_eq!(status.auto_review_state, AutopilotDecision::RequestChanges);
    assert_eq!(status.latest_review_decision, AutopilotDecision::RequestChanges);
    assert_eq!(
        status.latest_review_excerpt.as_deref(),
        Some("Decision: request changes Blocker: x")
    );
    assert_eq!(status.review_fix_state, "not_started");
    assert_eq!(status.pr_merge_state, "blocked_by_review");
    assert_eq!(status.next_action, AutopilotNextAction::StartReviewFix);
    assert_eq!(status.blocker, None);
    assert_eq!(status.implementation_process.unwrap().id, Uuid::from_u128(1));
    assert_eq!(status.auto_review_process.unwrap().id, Uuid::from_u128(2));
    assert!(status.review_fix_process.is_none());
    assert_eq!(status.default_model, "gpt-5.5");
    assert_eq!(status.default_reasoning, "medium");
    assert!(status.daemonized);
    assert_eq!(status.workflow_state, AutopilotWorkflowState::ReviewRequestedChanges);
    assert_eq!(status.token_safety_state, AutopilotTokenSafetyState::Idle);
    assert!(status.pr_status.is_none());
    assert!(status.duplicate_prevention_key.ends_with(":RequestChanges"));
}

#[test]
fn an_older_review_that_runs_is_shown_as_running() {
    let mut rows = requested();
    rows.insert(1, row(9, "Auto review", ExecutionProcessStatus::Running, None));
    let status = status(&rows, CHANGES, "blocked_by_review");
    assert_eq!(status.auto_review_state, AutopilotDecision::Running);
    assert_eq!(status.latest_review_decision, AutopilotDecision::RequestChanges);
}

#[test]
fn a_merge_blocker_overrides_the_status() {
    let mut status = status(&requested(), CHANGES, "blocked_by_review");
    apply_merge_blocker(&mut status, &None);
    assert_eq!(status.next_action, AutopilotNextAction::StartReviewFix);
    apply_merge_blocker(&mut status, &Some("conflict".to_string()));
    assert_eq!(status.blocker.as_deref(), Some("conflict"));
    assert_eq!(status.next_action, AutopilotNextAction::InvestigateFailure);
    assert_eq!(status.workflow_state, AutopilotWorkflowState::Blocked);
    assert_eq!(status.workflow_state_reason, "conflict");
    assert_eq!(status.token_safety_state, AutopilotTokenSafetyState::Blocked);
    assert_eq!(
        status.token_safety_note,
        "Merge/done reconciliation is blocked before another Codex session can start."
    );
    assert_eq!(status.latest_review_decision, AutopilotDecision::RequestChanges);
}

#[test]
fn summaries_hold_what_the_process_holds() {
    let row = clean(4, "x", "a", Some("b"));
    let summary = process_summary(&row);
    assert_eq!(summary.id, row.id);
    assert_eq!(summary.session_id, row.session_id);
    assert_eq!(summary.session_name.as_deref(), Some("x"));
    assert_eq!(summary.exit_code, Some(0));
    assert_eq!(summary.completed_at.as_deref(), Some("b"));
    let parts = process_summary_from_parts(
        row.id,
        row.session_id,
        None,
        ExecutionProcessStatus::Running,
        ExecutionProcessRunReason::CodingAgent,
        None,
        "s".to_string(),
        None,
    );
    assert_eq!(parts.status, ExecutionProcessStatus::Running);
    assert_eq!(parts.started_at, "s");
}

#[test]
fn a_review_session_is_planned_behind_its_conditions() {
    let implementation = vec![clean(1, "Implementation", "2026-04-25T11:00:00Z", None)];
    let session =
        plan_auto_review(&workspace(), &implementation, "", "waiting_for_review", None, false)
            .unwrap();
    assert_eq!(session.executor.as_deref(), Some("CODEX"));
    assert_eq!(session.name.as_deref(), Some("Auto review - Codex (medium)"));
    assert_eq!(
        plan_auto_review(&workspace(), &requested(), CHANGES, "blocked_by_review", None, true)
            .unwrap_err(),
        "Auto-review cannot start while the next action is start_review_fix."
    );
    assert_eq!(running_agent_gate(false), Ok(()));
    assert_eq!(
        running_agent_gate(true),
        Err("Workspace already has a running agent process".to_string())
    );
}

#[test]
fn a_fix_session_is_told_what_the_review_found() {
    let plan = plan_review_fix(&workspace(), &requested(), CHANGES).unwrap();
    assert_eq!(plan.session.name.as_deref(), Some("Review fix - Codex (medium)"));
    assert_eq!(
        plan.prompt,
        format!(
            "{REVIEW_FIX_PROMPT}\n\nLatest auto-review excerpt:\nDecision: request changes Blocker: x"
        )
    );
    assert_eq!(
        plan_review_fix(&workspace(), &requested(), "Decision: pass").unwrap_err(),
        "Review fix can only start after auto-review requests changes."
    );
}

#[test]
fn sessions_run_with_the_default_agent() {
    let config = default_codex_config();
    assert_eq!(config.executor, BaseCodingAgent::Codex);
    assert_eq!(config.model_id.as_deref(), Some("gpt-5.5"));
    assert_eq!(config.reasoning_id.as_deref(), Some("medium"));
    assert_eq!(config.permission_policy, Some(PermissionPolicy::Auto));
    assert!(config.variant.is_none() && config.agent_id.is_none());

    let repo = |bits, base: Option<&str>| RepoForkPoint {
        repo_id: Uuid::from_u128(bits),
        repo_name: "r".to_string(),
        base_commit: base.map(str::to_string),
    };
    assert!(review_contexts(&[repo(1, None)]).is_none());
    let contexts = review_contexts(&[repo(1, None), repo(2, Some("sha"))]).unwrap();
    assert_eq!(contexts.len(), 1);
    assert_eq!(contexts[0].repo_id, Uuid::from_u128(2));
    assert_eq!(contexts[0].base_commit, "sha");

    let review = review_request(Some(contexts), REVIEW_PROMPT.to_string(), Some(String::new()));
    assert_eq!(review.working_dir.as_deref(), Some(""));
    assert!(review.session_id.is_none());
    assert!(review.prompt.ends_with("`Decision: pass` or `Decision: request changes`."));
    let fix = review_fix_request("p".to_string(), Some(String::new()));
    assert_eq!(fix.working_dir, None);
    let fix = review_fix_request("p".to_string(), Some("dir".to_string()));
    assert_eq!(fix.working_dir.as_deref(), Some("dir"));
    assert_eq!(fix.prompt, "p");
}

#[test]
fn a_workspace_is_advanced_by_one_request_at_a_time() {
    let mut locks = AdvanceLocks::new();
    let (a, b) = (Uuid::from_u128(1), Uuid::from_u128(2));
    assert!(locks.try_acquire(a));
    assert!(!locks.try_acquire(a));
    assert!(locks.try_acquire(b));
    locks.release(a);
    assert!(locks.try_acquire(a));
    assert!(!locks.try_acquire(b));
    assert_eq!(busy_report(), (AutopilotAdvanceAction::Noop, None));
}

#[test]
fn each_status_leads_to_its_step() {
    let step = |rows: &[ProcessRow], text: &str, state: &str| {
        advance_step(&status(rows, text, state))
    };
    assert!(matches!(
        step(&requested(), CHANGES, "blocked_by_review"),
        AdvanceStep::StartReviewFix
    ));
    assert!(matches!(
        step(&requested()[1..], "", "waiting_for_review"),
        AdvanceStep::StartAutoReview { rerun: false }
    ));
    let mut fixed = requested();
    fixed.insert(0, clean(3, "Review fix", "2026-04-25T13:00:00Z", None));
    assert!(matches!(
        step(&fixed, CHANGES, "blocked_by_review"),
        AdvanceStep::StartAutoReview { rerun: true }
    ));
    let pass = "Decision: pass";
    assert!(matches!(
        step(&requested(), pass, "pr_open_pending_merge"),
        AdvanceStep::MergePullRequests
    ));
    assert!(matches!(
        step(&requested(), pass, "merged_pending_done"),
        AdvanceStep::ReconcileDone
    ));
    assert!(matches!(
        step(&requested(), pass, "no_pr_merge_found"),
        AdvanceStep::Finish { action: AutopilotAdvanceAction::Blocked, blocker: Some(_) }
    ));
    assert!(matches!(
        step(&requested(), pass, "waiting_for_checks"),
        AdvanceStep::Finish { action: AutopilotAdvanceAction::Noop, blocker: None }
    ));
    assert!(matches!(
        step(&[], "", "waiting_for_review"),
        AdvanceStep::Finish { action: AutopilotAdvanceAction::Blocked, blocker: Some(_) }
    ));
    assert!(matches!(
        step(&[], "", "done_or_archived"),
        AdvanceStep::Finish { action: AutopilotAdvanceAction::Noop, blocker: None }
    ));
}

#[test]
fn each_step_leads_to_its_report() {
    assert_eq!(
        advance_report(AdvanceStep::StartAutoReview { rerun: true }),
        Some((AutopilotAdvanceAction::StartedAutoReview, None))
    );
    assert_eq!(
        advance_report(AdvanceStep::StartReviewFix),
        Some((AutopilotAdvanceAction::StartedReviewFix, None))
    );
    assert_eq!(advance_report(AdvanceStep::MergePullRequests), None);
    assert_eq!(
        advance_report(step_after_merge(Ok(()))),
        Some((AutopilotAdvanceAction::Noop, None))
    );
    assert_eq!(
        advance_report(step_after_merge(Err("b".to_string()))),
        Some((AutopilotAdvanceAction::Blocked, Some("b".to_string())))
    );
    let mut pinned = workspace();
    pinned.pinned = true;
    assert!(archives_when_done(&workspace()));
    assert!(!archives_when_done(&pinned));
}

#[test]
fn issues_move_along_their_board() {
    let column = |bits, name: &str| ProjectStatus {
        id: Uuid::from_u128(bits),
        name: name.to_string(),
    };
    let board = vec![column(1, "To do"), column(2, " In Review "), column(3, "DONE")];
    let now = Timestamp { seconds: 9, nanos: 1 };
    let issue = LinkedIssue {
        id: Uuid::from_u128(50),
        status_id: Uuid::from_u128(1),
        completed_at: None,
    };
    let update = promote_issue_to_in_review(&issue, &board).unwrap();
    assert_eq!(update.status_id, Some(Uuid::from_u128(2)));
    assert_eq!(update.completed_at, None);
    assert!(update.title.is_none() && update.extension_metadata.is_none());
    assert!(promote_issue_to_in_review(&issue, &board[..1]).is_none());
    let there = LinkedIssue { status_id: Uuid::from_u128(2), ..issue };
    assert!(promote_issue_to_in_review(&there, &board).is_none());

    let update = promote_issue_to_done(&issue, &board, now).unwrap();
    assert_eq!(update.status_id, Some(Uuid::from_u128(3)));
    assert_eq!(update.completed_at, Some(Some(now)));
    let moved = LinkedIssue { status_id: Uuid::from_u128(3), ..issue };
    assert!(promote_issue_to_done(&moved, &board, now).is_some());
    let finished = LinkedIssue { completed_at: Some(now), ..moved };
    assert!(promote_issue_to_done(&finished, &board, now).is_none());
    assert!(promote_issue_to_done(&issue, &[], now).is_none());
    assert!(linked_issue_is_done(&Some(finished)));
    assert!(!linked_issue_is_done(&Some(issue)));
    assert!(!linked_issue_is_done(&None));
}

fn candidate(bits: u128, done: bool, active: bool, blockers: Vec<u128>) -> BatchCandidate {
    BatchCandidate {
        issue_id: Uuid::from_u128(bits),
        workspace_id: None,
        done,
        active,
        next_action: Some(AutopilotNextAction::StartAutoReview),
        blockers: blockers.into_iter().map(Uuid::from_u128).collect(),
    }
}

#[test]
fn batches_keep_their_cap() {
    assert_eq!(default_batch_max_active(), 3);
    let candidates: Vec<BatchCandidate> =
        (1..=5).map(|bits| candidate(bits, false, bits == 5, vec![])).collect();
    for max in 0..4 {
        let plan = plan_batch_advance(&candidates, &[], max);
        let runnable = plan
            .cards
            .iter()
            .filter(|card| card.state == BatchCardQueueState::Runnable)
            .count();
        assert_eq!(plan.max_active, max.max(1));
        assert_eq!(plan.active_count, 1);
        assert_eq!(plan.active_count + runnable, max.max(1));
        assert_eq!(plan.cards.len(), 5);
    }
}

#[test]
fn blockers_are_named_once_and_not_when_done() {
    let link = |a, b| BatchAdvanceRelationship {
        issue_id: Uuid::from_u128(a),
        blocking_issue_id: Uuid::from_u128(b),
    };
    let candidates = vec![
        candidate(1, true, false, vec![9]),
        candidate(2, false, false, vec![1, 9, 8, 9]),
        candidate(3, false, true, vec![9]),
    ];
    let links = [link(2, 8), link(2, 7), link(2, 1), link(4, 6)];
    let plan = plan_batch_advance(&candidates, &links, 5);
    let ids = |all: Vec<u128>| all.into_iter().map(Uuid::from_u128).collect::<Vec<_>>();
    assert_eq!(plan.cards[1].state, BatchCardQueueState::BlockedByDependencies);
    assert_eq!(plan.cards[1].blockers, ids(vec![9, 8, 7]));
    assert_eq!(plan.cards[1].action, None);
    assert_eq!(
        plan.cards[1].reason,
        "Card is staged, but dependency blockers must finish before it starts."
    );
    assert_eq!(plan.cards[0].state, BatchCardQueueState::Done);
    assert_eq!(plan.cards[0].reason, "Card is already done.");
    assert_eq!(plan.cards[2].state, BatchCardQueueState::Active);
    assert_eq!(plan.cards[2].action, Some(AutopilotNextAction::StartAutoReview));
    assert_eq!(
        dependency_blockers_for(Uuid::from_u128(2), &ids(vec![1]), &links),
        ids(vec![8, 7])
    );
}

#[test]
fn requests_become_candidates() {
    let cards = vec![BatchAdvancePlanCandidate {
        issue_id: Uuid::from_u128(1),
        workspace_id: Some(Uuid::from_u128(2)),
        done: true,
        active: false,
        next_action: None,
        blockers: vec![Uuid::from_u128(3)],
    }];
    let candidates = batch_candidates(cards);
    assert_eq!(candidates.len(), 1);
    assert_eq!(candidates[0].issue_id, Uuid::from_u128(1));
    assert_eq!(candidates[0].workspace_id, Some(Uuid::from_u128(2)));
    assert!(candidates[0].done && !candidates[0].active);
    assert_eq!(candidates[0].blockers, vec![Uuid::from_u128(3)]);
}
