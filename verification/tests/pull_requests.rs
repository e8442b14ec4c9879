//! Pull requests: their status, their merge state and a run over them.
use vibe_kanban::api::Timestamp;
use vibe_kanban::autopilot::merge::{
    linked_pr_merge_completion_blocker, merge_plan_from_state,
    pull_request_status_from_merge_status, upsert_pull_request_request, AutopilotMergePlan,
};
use vibe_kanban::autopilot::merge_run::{MergeEvent, MergeRequest, MergeRun};
use vibe_kanban::autopilot::merge_state::{
    infer_pr_merge_state, worktree_step, MergeEvidence, MergeStateStep, WorktreeEvidence,
    WorktreeStep,
};
use vibe_kanban::autopilot::pr_status::{
    check_name, implication_autopilot_gate, latest_pr_url_from_issue_metadata, local_pr_status,
    merge_status_label, pr_merge_blocker, pr_status_from_output, pr_status_from_value,
    summarize_check_rollup,
};
use vibe_kanban::autopilot::types::{
    AutopilotDecision, AutopilotPrChecksState, AutopilotPrStatus, LocalPullRequest, Merge,
    MergeStatus, PrMerge, PullRequestDetail, PullRequestStatus, Workspace,
};
use vibe_kanban::ids::Uuid;
use vibe_kanban::json::Json;

fn parse(text: &str) -> Json {
    Json::parse(text).unwrap()
}

fn workspace(pinned: bool) -> Workspace {
    Workspace {
        id: Uuid::from_u128(7),
        container_ref: Some("/tmp/work".to_string()),
        branch: "issue-1".to_string(),
        archived: false,
        pinned,
        name: None,
        worktree_deleted: false,
    }
}

fn linked(number: i64, status: MergeStatus) -> PrMerge {
    PrMerge {
        number,
        url: format!("https://github.com/o/r/pull/{number}"),
        status,
        target_branch_name: "main".to_string(),
    }
}

fn detail(number: i64, status: MergeStatus) -> PullRequestDetail {
    PullRequestDetail {
        number,
        url: format!("https://github.com/o/r/pull/{number}"),
        status,
        merged_at: Some(Timestamp { seconds: 5, nanos: 6 }),
        merge_commit_sha: Some("abc".to_string()),
    }
}

fn pr(state: &str, merge_blocker: Option<&str>) -> AutopilotPrStatus {
    AutopilotPrStatus {
        number: 1,
        url: "u".to_string(),
        state: state.to_string(),
        is_draft: false,
        head_sha: None,
        base_branch: None,
        mergeable: None,
        merge_state_status: None,
        merge_commit_sha: None,
        checks_state: AutopilotPrChecksState::Passing,
        checks_summary: String::new(),
        merge_blocker: merge_blocker.map(str::to_string),
        source: "github".to_string(),
    }
}

fn no_evidence() -> MergeEvidence {
    MergeEvidence { merges: None, worktree_blocked: None, issue_done: None }
}

fn known(step: MergeStateStep) -> String {
    match step {
        MergeStateStep::Known(state) => state,
        other => panic!("{other:?}"),
    }
}

#[test]
fn checks_are_summed_up() {
    let summary = |text: &str| {
        let value = parse(text);
        summarize_check_rollup(Some(&value))
    };
    assert_eq!(
        summarize_check_rollup(None),
        (
            AutopilotPrChecksState::Unknown,
            "GitHub did not return check details.".to_string()
        )
    );
    assert_eq!(summary("{}").0, AutopilotPrChecksState::Unknown);
    assert_eq!(
        summary("[]"),
        (
            AutopilotPrChecksState::NoChecks,
            "No required or reported checks were found.".to_string()
        )
    );
    assert_eq!(
        summary(r#"[{"conclusion":"success"},{"state":"SKIPPED"},{"status":"COMPLETED"}]"#),
        (AutopilotPrChecksState::Passing, "3 check(s) passing.".to_string())
    );
    assert_eq!(
        summary(r#"[{"conclusion":null,"status":"COMPLETED"},{"state":"NEUTRAL"},{}]"#),
        (
            AutopilotPrChecksState::Pending,
            "2 pending check(s), 1 passing.".to_string()
        )
    );
    assert_eq!(
        summary(
            r#"[{"conclusion":"FAILURE","name":"a"},{"state":"ERROR","context":"b"},
                {"conclusion":"timed_out","workflowName":"c"},{"conclusion":"CANCELLED"},
                {"conclusion":"PENDING"}]"#
        ),
        (
            AutopilotPrChecksState::Failing,
            "4 failing check(s): a, b, c".to_string()
        )
    );
}

#[test]
fn checks_are_named_by_the_first_text_that_is_not_blank() {
    assert_eq!(check_name(&parse(r#"{"name":" ","context":"ci"}"#)), "ci");
    assert_eq!(check_name(&parse(r#"{"name":5,"workflowName":"w"}"#)), "w");
    assert_eq!(check_name(&parse("{}")), "unnamed check");
}

#[test]
fn each_thing_that_keeps_a_pull_request_from_a_merge_is_named() {
    let passing = AutopilotPrChecksState::Passing;
    let blocker = |draft, mergeable, state, checks: &AutopilotPrChecksState| {
        pr_merge_blocker(draft, mergeable, state, checks)
    };
    assert_eq!(
        blocker(true, None, None, &passing),
        Some("PR is still a draft.".to_string())
    );
    assert_eq!(
        blocker(false, None, None, &passing),
        Some("PR mergeability is unknown.".to_string())
    );
    assert_eq!(
        blocker(false, Some("conflicting"), None, &passing),
        Some("PR is not currently mergeable (conflicting/unknown).".to_string())
    );
    assert_eq!(
        blocker(false, Some("MERGEABLE"), Some("behind"), &passing),
        Some("PR is not currently mergeable (MERGEABLE/behind).".to_string())
    );
    assert_eq!(
        blocker(false, Some("MERGEABLE"), Some("CLEAN"), &AutopilotPrChecksState::Failing),
        Some("PR has failing checks.".to_string())
    );
    for checks in [AutopilotPrChecksState::Pending, AutopilotPrChecksState::Unknown] {
        assert_eq!(
            blocker(false, Some("MERGEABLE"), None, &checks),
            Some("PR checks are not green yet.".to_string())
        );
    }
    for checks in [AutopilotPrChecksState::NoChecks, passing] {
        assert_eq!(blocker(false, Some("MERGEABLE"), Some("CLEAN"), &checks), None);
    }
}

#[test]
fn reports_of_github_are_read() {
    let text = br#"{"number": 12, "url": "https://github.com/o/r/pull/12", "state": "OPEN",
        "isDraft": false, "headRefOid": "head", "baseRefName": "main",
        "mergeable": "MERGEABLE", "mergeStateStatus": "CLEAN", "mergeCommit": {"oid": "sha"},
        "statusCheckRollup": [{"conclusion": "SUCCESS"}]}"#;
    let status = pr_status_from_output(true, text, "asked").unwrap();
    assert_eq!(status.number, 12);
    assert_eq!(status.url, "https://github.com/o/r/pull/12");
    assert_eq!(status.state, "open");
    assert!(!status.is_draft);
    assert_eq!(status.head_sha.as_deref(), Some("head"));
    assert_eq!(status.base_branch.as_deref(), Some("main"));
    assert_eq!(status.mergeable.as_deref(), Some("MERGEABLE"));
    assert_eq!(status.merge_state_status.as_deref(), Some("CLEAN"));
    assert_eq!(status.merge_commit_sha.as_deref(), Some("sha"));
    assert_eq!(status.checks_state, AutopilotPrChecksState::Passing);
    assert_eq!(status.checks_summary, "1 check(s) passing.");
    assert_eq!(status.merge_blocker, None);
    assert_eq!(status.source, "github");

    assert!(pr_status_from_output(false, text, "asked").is_none());
    assert!(pr_status_from_output(true, b"oops", "asked").is_none());
    assert!(pr_status_from_value(&parse("{}"), "asked").is_none());

    let bare = pr_status_from_value(&parse(r#"{"number": 1, "isDraft": true}"#), "asked").unwrap();
    assert_eq!(bare.url, "asked");
    assert_eq!(bare.state, "unknown");
    assert_eq!(bare.merge_blocker.as_deref(), Some("PR is still a draft."));
    assert_eq!(bare.checks_state, AutopilotPrChecksState::Unknown);
}

#[test]
fn a_pull_request_that_cannot_be_reached_is_not_ready() {
    let local = LocalPullRequest {
        pr_number: 3,
        pr_url: "url".to_string(),
        pr_status: MergeStatus::Closed,
        target_branch_name: "main".to_string(),
        merge_commit_sha: Some("sha".to_string()),
    };
    let status = local_pr_status(None, &local);
    assert_eq!(status.number, 3);
    assert_eq!(status.state, "closed");
    assert_eq!(status.base_branch.as_deref(), Some("main"));
    assert_eq!(status.merge_commit_sha.as_deref(), Some("sha"));
    assert_eq!(status.source, "local");
    assert!(status.merge_blocker.unwrap().contains("unavailable"));
    assert_eq!(local_pr_status(Some(pr("open", None)), &local).source, "github");
}

#[test]
fn metadata_links_to_a_pull_request() {
    let url = |text: &str| latest_pr_url_from_issue_metadata(&parse(text));
    assert_eq!(
        url(r#"{"github_link":{"latest_pr_url":"  https://x  "}}"#),
        Some("https://x".to_string())
    );
    assert_eq!(url(r#"{"github_link":{"latest_pr_url":"  "}}"#), None);
    assert_eq!(url(r#"{"github_link":{}}"#), None);
    assert_eq!(url("null"), None);
}

#[test]
fn the_autopilot_serves_one_repository() {
    assert_eq!(
        implication_autopilot_gate(None),
        Err("Implication autopilot requires a linked board issue.".to_string())
    );
    let other = parse(r#"{"github_link":{"repo_full_name":"a/b"}}"#);
    assert_eq!(
        implication_autopilot_gate(Some(&other)),
        Err(
            "Implication autopilot is only enabled for gavinanelson/implication issues."
                .to_string()
        )
    );
    let own = parse(r#"{"github_link":{"repo_full_name":" GavinANelson/Implication "}}"#);
    assert_eq!(implication_autopilot_gate(Some(&own)), Ok(()));
}

#[test]
fn completion_is_counted_in_words() {
    let (open, merged) = (MergeStatus::Open, MergeStatus::Merged);
    let (closed, unknown) = (MergeStatus::Closed, MergeStatus::Unknown);
    let blocker = |statuses: &[MergeStatus]| linked_pr_merge_completion_blocker(statuses);
    assert_eq!(
        blocker(&[open, closed, open]),
        Some(
            "Not all linked pull requests are merged yet: 2 open PRs remain after merge attempts."
                .to_string()
        )
    );
    assert_eq!(
        blocker(&[closed, closed, unknown]),
        Some("Cannot complete autopilot merge: 2 linked PRs are closed.".to_string())
    );
    assert_eq!(
        blocker(&[unknown, merged, unknown]),
        Some("Cannot complete autopilot merge: 2 linked PRs have unknown status.".to_string())
    );
    assert_eq!(blocker(&[merged]), None);
}

#[test]
fn merge_plans_follow_the_state() {
    for state in ["pr_open_pending_merge", "review_passed_merge_status_unknown"] {
        assert_eq!(merge_plan_from_state(state), AutopilotMergePlan::AttemptPrMerge);
    }
    for (state, blocker) in [
        (
            "blocked_by_dirty_worktree",
            "Merge is blocked by dirty/conflicting workspace changes.",
        ),
        ("blocked_by_draft_pr", "PR is still a draft."),
        ("blocked_by_failing_checks", "PR has failing checks."),
        (
            "blocked_by_pr_mergeability",
            "PR is not currently mergeable according to GitHub.",
        ),
        ("waiting_for_checks", "PR checks are not green yet."),
        (
            "no_pr_merge_found",
            "Review passed, but no open or merged pull request is linked to this workspace.",
        ),
        (
            "anything else",
            "Review passed, but merge state is not specific enough for the app to advance safely.",
        ),
    ] {
        assert_eq!(
            merge_plan_from_state(state),
            AutopilotMergePlan::Blocked(blocker.to_string())
        );
    }
}

#[test]
fn the_board_is_told_of_a_pull_request() {
    for (status, told) in [
        (MergeStatus::Open, PullRequestStatus::Open),
        (MergeStatus::Unknown, PullRequestStatus::Open),
        (MergeStatus::Merged, PullRequestStatus::Merged),
        (MergeStatus::Closed, PullRequestStatus::Closed),
    ] {
        assert_eq!(pull_request_status_from_merge_status(&status), told);
    }
    assert_eq!(merge_status_label(&MergeStatus::Unknown), "unknown");
    let request = upsert_pull_request_request(
        &detail(0x1_0000_0005, MergeStatus::Merged),
        &linked(5, MergeStatus::Open),
        Uuid::from_u128(9),
    );
    assert_eq!(request.number, 5);
    assert_eq!(request.status, PullRequestStatus::Merged);
    assert_eq!(request.merged_at, Some(Timestamp { seconds: 5, nanos: 6 }));
    assert_eq!(request.merge_commit_sha.as_deref(), Some("abc"));
    assert_eq!(request.target_branch_name, "main");
    assert_eq!(request.local_workspace_id, Uuid::from_u128(9));
}

#[test]
fn merge_states_before_a_review_has_passed() {
    let state = |workspace: &Workspace, decision| {
        known(infer_pr_merge_state(workspace, &decision, None, &no_evidence()))
    };
    let open = workspace(false);
    assert_eq!(state(&open, AutopilotDecision::Missing), "waiting_for_review");
    assert_eq!(state(&open, AutopilotDecision::Running), "waiting_for_review");
    assert_eq!(state(&open, AutopilotDecision::Failed), "review_failed");
    assert_eq!(state(&open, AutopilotDecision::RequestChanges), "blocked_by_review");
    let mut archived = workspace(false);
    archived.archived = true;
    assert_eq!(state(&archived, AutopilotDecision::Pass), "done_or_archived");
}

#[test]
fn merge_states_that_the_pull_request_tells() {
    let state = |status: &AutopilotPrStatus| {
        known(infer_pr_merge_state(
            &workspace(false),
            &AutopilotDecision::Pass,
            Some(status),
            &no_evidence(),
        ))
    };
    assert_eq!(state(&pr("MERGED", Some("PR is still a draft."))), "merged_pending_done");
    assert_eq!(state(&pr("open", Some("PR is still a draft."))), "blocked_by_draft_pr");
    assert_eq!(state(&pr("open", Some("PR has failing checks."))), "blocked_by_failing_checks");
    assert_eq!(state(&pr("open", Some("PR checks are not green yet."))), "waiting_for_checks");
    assert_eq!(state(&pr("open", Some("anything"))), "blocked_by_pr_mergeability");
}

#[test]
fn merge_states_ask_for_evidence_step_by_step() {
    let step = |workspace: &Workspace, evidence: &MergeEvidence| {
        infer_pr_merge_state(
            workspace,
            &AutopilotDecision::Pass,
            Some(&pr("open", None)),
            evidence,
        )
    };
    let free = workspace(false);
    let pinned = workspace(true);
    assert!(matches!(step(&free, &no_evidence()), MergeStateStep::NeedMerges));

    let evidence = |merges: Vec<Merge>, worktree_blocked, issue_done| MergeEvidence {
        merges: Some(merges),
        worktree_blocked,
        issue_done,
    };
    let open = || vec![Merge::Direct, Merge::Pr(linked(1, MergeStatus::Open))];
    assert!(matches!(
        step(&free, &evidence(open(), None, None)),
        MergeStateStep::NeedWorktree
    ));
    assert_eq!(
        known(step(&free, &evidence(open(), Some(true), None))),
        "blocked_by_dirty_worktree"
    );
    assert_eq!(
        known(step(&free, &evidence(open(), Some(false), None))),
        "pr_open_pending_merge"
    );
    let mut bare = workspace(false);
    bare.container_ref = None;
    assert_eq!(known(step(&bare, &evidence(open(), None, None))), "pr_open_pending_merge");

    let merged = || vec![Merge::Pr(linked(1, MergeStatus::Merged))];
    assert_eq!(known(step(&free, &evidence(merged(), None, None))), "merged_pending_done");
    assert!(matches!(
        step(&pinned, &evidence(merged(), None, None)),
        MergeStateStep::NeedIssue
    ));
    assert_eq!(
        known(step(&pinned, &evidence(merged(), None, Some(true)))),
        "done_or_archived"
    );
    assert_eq!(
        known(step(&pinned, &evidence(merged(), None, Some(false)))),
        "merged_pending_done"
    );
    assert_eq!(
        known(step(
            &free,
            &evidence(vec![Merge::Pr(linked(1, MergeStatus::Closed))], None, None)
        )),
        "blocked_by_pr_requirements"
    );
    assert_eq!(
        known(step(&free, &evidence(vec![Merge::Direct], None, None))),
        "merged_pending_done"
    );
    assert_eq!(
        known(step(&pinned, &evidence(vec![Merge::Direct], None, Some(true)))),
        "done_or_archived"
    );
    assert_eq!(known(step(&free, &evidence(vec![], None, None))), "no_pr_merge_found");
}

#[test]
fn worktrees_are_looked_at_step_by_step() {
    let step = |conflicted_files, rebase_in_progress, changes| {
        worktree_step(&WorktreeEvidence { conflicted_files, rebase_in_progress, changes })
    };
    assert_eq!(step(None, None, None), WorktreeStep::NeedConflicts);
    assert_eq!(step(Some(1), None, None), WorktreeStep::Blocked);
    assert_eq!(step(Some(0), None, None), WorktreeStep::NeedRebase);
    assert_eq!(step(Some(0), Some(true), None), WorktreeStep::Blocked);
    assert_eq!(step(Some(0), Some(false), None), WorktreeStep::NeedChanges);
    assert_eq!(step(Some(0), Some(false), Some((1, 0))), WorktreeStep::Blocked);
    assert_eq!(step(Some(0), Some(false), Some((0, 1))), WorktreeStep::Blocked);
    assert_eq!(step(Some(0), Some(false), Some((0, 0))), WorktreeStep::Clear);
}

fn finished(run: &MergeRun) -> Result<(), String> {
    match run.request() {
        MergeRequest::Finished(result) => result,
        other => panic!("{other:?}"),
    }
}

#[test]
fn a_run_without_pull_requests_reports_that_there_are_none() {
    let message = "No linked pull requests were found for this workspace; create or link a PR and rerun app advance.";
    assert_eq!(finished(&MergeRun::new(&[])), Err(message.to_string()));
    assert_eq!(finished(&MergeRun::new(&[Merge::Direct])), Err(message.to_string()));
}

#[test]
fn a_run_over_merged_pull_requests_asks_for_nothing() {
    let run = MergeRun::new(&[
        Merge::Pr(linked(1, MergeStatus::Merged)),
        Merge::Pr(linked(2, MergeStatus::Merged)),
    ]);
    assert_eq!(finished(&run), Ok(()));
}

#[test]
fn a_run_refreshes_merges_and_records() {
    let run = MergeRun::new(&[
        Merge::Pr(linked(1, MergeStatus::Merged)),
        Merge::Pr(linked(2, MergeStatus::Open)),
        Merge::Pr(linked(3, MergeStatus::Unknown)),
    ]);
    assert!(matches!(run.request(), MergeRequest::Refresh(url) if url.ends_with("/2")));
    let run = run.handle(MergeEvent::Refreshed(detail(2, MergeStatus::Open)));
    assert!(matches!(run.request(), MergeRequest::Merge(url) if url.ends_with("/2")));
    let run = run.handle(MergeEvent::MergeReturned(detail(2, MergeStatus::Merged)));
    assert!(matches!(
        run.request(),
        MergeRequest::Record(report, link)
            if report.status == MergeStatus::Merged && link.number == 2
    ));
    let run = run.handle(MergeEvent::Recorded(None));
    assert!(matches!(run.request(), MergeRequest::Refresh(url) if url.ends_with("/3")));
    let run = run.handle(MergeEvent::Refreshed(detail(3, MergeStatus::Merged)));
    let run = run.handle(MergeEvent::Recorded(None));
    assert_eq!(finished(&run), Ok(()));
}

#[test]
fn a_run_ignores_events_that_it_does_not_wait_for() {
    let run = MergeRun::new(&[Merge::Pr(linked(2, MergeStatus::Open))]);
    let run = run.handle(MergeEvent::Recorded(None));
    let run = run.handle(MergeEvent::MergeFailed("x".to_string()));
    assert!(matches!(run.request(), MergeRequest::Refresh(_)));
    let run = run.handle(MergeEvent::Refreshed(detail(2, MergeStatus::Open)));
    let run = run.handle(MergeEvent::RefreshFailed("x".to_string()));
    assert!(matches!(run.request(), MergeRequest::Merge(_)));
}

#[test]
fn a_run_names_everything_that_stands_in_its_way() {
    let one = |events: Vec<MergeEvent>| {
        let mut run = MergeRun::new(&[Merge::Pr(linked(4, MergeStatus::Open))]);
        for event in events {
            run = run.handle(event);
        }
        finished(&run).unwrap_err()
    };
    let named = "PR #4 (https://github.com/o/r/pull/4)";
    let failed = |text: &str| MergeEvent::Recorded(Some(text.to_string()));
    assert_eq!(
        one(vec![MergeEvent::ProviderUnknown("no host".to_string())]),
        format!("Cannot identify pull request provider for {named}: no host")
    );
    assert_eq!(
        one(vec![MergeEvent::RefreshFailed("timeout".to_string())]),
        format!("Failed to refresh {named} merge status from GitHub: timeout")
    );
    assert_eq!(
        one(vec![
            MergeEvent::Refreshed(detail(4, MergeStatus::Closed)),
            MergeEvent::Recorded(None)
        ]),
        format!("Cannot complete autopilot merge: {named} is closed after refresh.")
    );
    assert_eq!(
        one(vec![MergeEvent::Refreshed(detail(4, MergeStatus::Unknown)), failed("db")]),
        format!(
            "{named} refreshed as unknown, but status persistence failed: db Cannot complete autopilot merge: {named} is unknown after refresh."
        )
    );
    assert_eq!(
        one(vec![
            MergeEvent::Refreshed(detail(4, MergeStatus::Open)),
            MergeEvent::MergeFailed("checks".to_string()),
            MergeEvent::Recorded(None)
        ]),
        format!("{named} merge is blocked by GitHub requirements: checks.")
    );
    assert_eq!(
        one(vec![
            MergeEvent::Refreshed(detail(4, MergeStatus::Open)),
            MergeEvent::MergeFailed("checks".to_string()),
            failed("db")
        ]),
        format!(
            "{named} merge is blocked by GitHub requirements: checks. Refreshed PR status persistence also failed: db."
        )
    );
    assert_eq!(
        one(vec![
            MergeEvent::Refreshed(detail(4, MergeStatus::Open)),
            MergeEvent::MergeReturned(detail(4, MergeStatus::Open)),
            failed("db")
        ]),
        format!(
            "{named} status persistence failed after merge attempt: db GitHub accepted the merge command for {named}, but it is open instead of merged."
        )
    );
    assert_eq!(
        one(vec![MergeEvent::Refreshed(detail(4, MergeStatus::Merged)), failed("db")]),
        format!("{named} merged, but local/remote PR status update failed: db")
    );
}
