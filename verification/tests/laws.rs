//! Properties that span several functions, on concrete values.
use vibe_kanban::api::SortOrder;
use vibe_kanban::autopilot::advance::{advance_step, AdvanceStep};
use vibe_kanban::autopilot::merge_run::{MergeEvent, MergeRequest, MergeRun};
use vibe_kanban::autopilot::merge_state::{
    infer_pr_merge_state, MergeEvidence, MergeStateStep,
};
use vibe_kanban::autopilot::pr_status::pr_status_from_value;
use vibe_kanban::autopilot::start::{plan_auto_review, plan_review_fix};
use vibe_kanban::autopilot::status::build_status;
use vibe_kanban::autopilot::types::{
    AutopilotDecision, AutopilotPrStatus, ExecutionProcessRunReason, ExecutionProcessStatus,
    Merge, MergeStatus, PrMerge, ProcessRow, PullRequestDetail, Workspace,
};
use vibe_kanban::ids::Uuid;
use vibe_kanban::json::Json;
use vibe_kanban::sync::comments::github_comment_id_from_kanban_message;
use vibe_kanban::sync::plan::plan_sync_with_state;
use vibe_kanban::sync::prepare::{prepare_sync_actions, PrepareSyncOptions, PreparedSyncAction};
use vibe_kanban::sync::types::{
    GitHubIssue, GitHubIssueRef, GitHubIssueState, GitHubLabel, GitHubMirrorComment, KanbanIssueRef,
    KanbanMirroredCommentRef, KanbanRelationshipRef, KanbanRelationshipType, KanbanSyncState,
    SyncOp,
};

fn workspace() -> Workspace {
    Workspace {
        id: Uuid::from_u128(1),
        container_ref: Some("/work".to_string()),
        branch: "b".to_string(),
        archived: false,
        pinned: false,
        name: None,
        worktree_deleted: false,
    }
}

fn row(bits: u128, name: &str, status: ExecutionProcessStatus, started_at: &str) -> ProcessRow {
    ProcessRow {
        id: Uuid::from_u128(bits),
        session_id: Uuid::from_u128(bits),
        session_name: Some(name.to_string()),
        status,
        run_reason: ExecutionProcessRunReason::CodingAgent,
        exit_code: Some(0),
        started_at: started_at.to_string(),
        completed_at: None,
    }
}

fn pull_request(text: &str) -> AutopilotPrStatus {
    pr_status_from_value(&Json::parse(text).unwrap(), "url").unwrap()
}

fn issue(number: u64) -> GitHubIssue {
    GitHubIssue {
        number,
        url: format!("https://github.com/owner/repo/issues/{number}"),
        title: format!("Issue {number}"),
        body: None,
        state: GitHubIssueState::Open,
        labels: vec![],
        assignees: vec![],
        sub_issues: vec![],
        blocked_by: vec![],
        related_issues: vec![],
        mirror_comments: vec![],
        unsupported_relations: vec![],
    }
}

#[test]
fn what_is_started_to_advance_may_start() {
    let done = ExecutionProcessStatus::Completed;
    let build = row(1, "Build", done, "2026-01-01T00:00:00Z");
    let review = row(2, "Auto review", done, "2026-01-02T00:00:00Z");
    let fix = row(3, "Review fix", done, "2026-01-03T00:00:00Z");
    let killed = row(3, "Review fix", ExecutionProcessStatus::Killed, "2026-01-03T00:00:00Z");
    let running = row(3, "Review fix", ExecutionProcessStatus::Running, "2026-01-03T00:00:00Z");
    let histories = [
        vec![],
        vec![build.clone()],
        vec![review.clone(), build.clone()],
        vec![fix, review.clone(), build.clone()],
        vec![killed, review.clone(), build.clone()],
        vec![running, review, build],
    ];
    for rows in &histories {
        for text in ["", "Decision: pass", "Decision: request changes", "unclear"] {
            for state in ["blocked_by_review", "pr_open_pending_merge", "done_or_archived"] {
                let status = build_status(&workspace(), rows, text, None, state);
                match advance_step(&status) {
                    AdvanceStep::StartAutoReview { rerun } => assert!(
                        plan_auto_review(&workspace(), rows, text, state, None, rerun).is_ok()
                    ),
                    AdvanceStep::StartReviewFix => {
                        assert!(plan_review_fix(&workspace(), rows, text).is_ok())
                    }
                    _ => {}
                }
            }
        }
    }
}

#[test]
fn the_pull_request_is_shown_and_decides_nothing_by_itself() {
    let rows = vec![row(1, "Build", ExecutionProcessStatus::Completed, "2026-01-01T00:00:00Z")];
    let pr = pull_request(r#"{"number": 4, "isDraft": true}"#);
    let with = build_status(&workspace(), &rows, "", Some(pr), "waiting_for_review");
    let without = build_status(&workspace(), &rows, "", None, "waiting_for_review");
    assert_eq!(with.next_action, without.next_action);
    assert_eq!(with.blocker, without.blocker);
    assert_eq!(with.duplicate_prevention_key, without.duplicate_prevention_key);
    assert_eq!(with.pr_status.unwrap().number, 4);
}

#[test]
fn what_keeps_a_pull_request_from_a_merge_leads_to_its_state() {
    for (text, wanted) in [
        (r#"{"number": 1, "isDraft": true}"#, "blocked_by_draft_pr"),
        (r#"{"number": 1}"#, "blocked_by_pr_mergeability"),
        (
            r#"{"number": 1, "mergeable": "MERGEABLE", "statusCheckRollup": [{"conclusion": "FAILURE"}]}"#,
            "blocked_by_failing_checks",
        ),
        (
            r#"{"number": 1, "mergeable": "MERGEABLE", "statusCheckRollup": [{}]}"#,
            "waiting_for_checks",
        ),
        (
            r#"{"number": 1, "mergeable": "CONFLICTING", "mergeStateStatus": "DIRTY"}"#,
            "blocked_by_pr_mergeability",
        ),
    ] {
        let step = infer_pr_merge_state(
            &workspace(),
            &AutopilotDecision::Pass,
            Some(&pull_request(text)),
            &MergeEvidence { merges: None, worktree_blocked: None, issue_done: None },
        );
        assert!(matches!(step, MergeStateStep::Known(state) if state == wanted), "{text}");
    }
}

#[test]
fn evidence_that_was_not_asked_for_changes_nothing() {
    let merged = || {
        Some(vec![Merge::Pr(PrMerge {
            number: 1,
            url: "u".to_string(),
            status: MergeStatus::Merged,
            target_branch_name: "main".to_string(),
        })])
    };
    let state = |worktree_blocked, issue_done| {
        let evidence = MergeEvidence { merges: merged(), worktree_blocked, issue_done };
        match infer_pr_merge_state(&workspace(), &AutopilotDecision::Pass, None, &evidence) {
            MergeStateStep::Known(state) => state,
            other => panic!("{other:?}"),
        }
    };
    for worktree_blocked in [None, Some(true), Some(false)] {
        for issue_done in [None, Some(true), Some(false)] {
            assert_eq!(state(worktree_blocked, issue_done), "merged_pending_done");
        }
    }
}

#[test]
fn a_run_ends_after_at_most_three_events_for_each_pull_request() {
    let statuses =
        [MergeStatus::Open, MergeStatus::Merged, MergeStatus::Closed, MergeStatus::Unknown];
    let merges: Vec<Merge> = statuses
        .iter()
        .map(|status| {
            Merge::Pr(PrMerge {
                number: 1,
                url: "u".to_string(),
                status: *status,
                target_branch_name: "main".to_string(),
            })
        })
        .collect();
    let detail = |status| PullRequestDetail {
        number: 1,
        url: "u".to_string(),
        status,
        merged_at: None,
        merge_commit_sha: None,
    };
    for refreshed in statuses {
        for returned in statuses {
            let mut run = MergeRun::new(&merges);
            let mut events = 0;
            let result = loop {
                let event = match run.request() {
                    MergeRequest::Refresh(_) => MergeEvent::Refreshed(detail(refreshed)),
                    MergeRequest::Merge(_) => MergeEvent::MergeReturned(detail(returned)),
                    MergeRequest::Record(_, _) => MergeEvent::Recorded(None),
                    MergeRequest::Finished(result) => break result,
                };
                run = run.handle(event);
                events += 1;
            };
            assert!(events <= 3 * merges.len());
            let merged = refreshed == MergeStatus::Merged
                || (refreshed == MergeStatus::Open && returned == MergeStatus::Merged);
            assert_eq!(result.is_ok(), merged);
        }
    }
}

fn apply(board: &mut KanbanSyncState, ops: &[SyncOp]) {
    for op in ops {
        match op {
            SyncOp::CreateIssue { kanban_id, github_number, title, description, .. } => {
                board.issues.push(KanbanIssueRef {
                    id: *kanban_id,
                    github_issue_number: Some(*github_number),
                    title: title.clone(),
                    description: description.clone(),
                })
            }
            SyncOp::AddBlockingRelationship { blocker_kanban_id, blocked_kanban_id } => {
                board.relationships.push(KanbanRelationshipRef {
                    from_kanban_id: *blocker_kanban_id,
                    to_kanban_id: *blocked_kanban_id,
                    relationship_type: KanbanRelationshipType::Blocking,
                })
            }
            SyncOp::AddRelatedLink { from_kanban_id, to_kanban_id } => {
                board.relationships.push(KanbanRelationshipRef {
                    from_kanban_id: *from_kanban_id,
                    to_kanban_id: *to_kanban_id,
                    relationship_type: KanbanRelationshipType::Related,
                })
            }
            SyncOp::AddComment { kanban_id, github_comment_id, .. } => {
                board.mirrored_comments.push(KanbanMirroredCommentRef {
                    kanban_id: *kanban_id,
                    github_comment_id: *github_comment_id,
                })
            }
            SyncOp::UpdateTitle { kanban_id, new_title } => {
                for issue in board.issues.iter_mut().filter(|issue| issue.id == *kanban_id) {
                    issue.title = new_title.clone();
                }
            }
            SyncOp::UpdateDescription { kanban_id, new_description } => {
                for issue in board.issues.iter_mut().filter(|issue| issue.id == *kanban_id) {
                    issue.description = new_description.clone();
                }
            }
            SyncOp::LinkSubIssue { .. } | SyncOp::EnsureTag { .. } => {}
        }
    }
}

#[test]
fn planning_again_after_applying_a_plan_writes_nothing_new() {
    let mut one = issue(1);
    one.blocked_by =
        vec![GitHubIssueRef { number: 2, url: String::new() }, GitHubIssueRef { number: 9, url: String::new() }];
    one.related_issues = vec![GitHubIssueRef { number: 2, url: String::new() }];
    one.mirror_comments = vec![GitHubMirrorComment {
        github_comment_id: 77,
        author_login: "a".to_string(),
        body: "b".to_string(),
    }];
    let issues = [one, issue(2)];
    let plan = plan_sync_with_state(&issues, &KanbanSyncState::default());
    assert_eq!(plan.unresolved_github_refs, vec![9]);

    let mut board = KanbanSyncState::default();
    apply(&mut board, &plan.ops);
    assert_eq!(board.relationships.len(), 2);
    let again = plan_sync_with_state(&issues, &board);
    assert!(again.ops.is_empty());
    assert_eq!(again.unresolved_github_refs, vec![9]);
}

#[test]
fn planning_again_leaves_only_links_and_tags() {
    let mut one = issue(1);
    one.body = Some("new".to_string());
    one.labels = vec![GitHubLabel { name: "bug".to_string(), color: None }];
    one.sub_issues =
        vec![GitHubIssueRef { number: 2, url: String::new() }, GitHubIssueRef { number: 8, url: String::new() }];
    let issues = [one, issue(2)];
    let mut board = KanbanSyncState::default();
    board.issues.push(KanbanIssueRef {
        id: Uuid::from_u128(5),
        github_issue_number: Some(1),
        title: "Old".to_string(),
        description: None,
    });
    let plan = plan_sync_with_state(&issues, &board);
    assert!(plan.ops.iter().any(|op| matches!(op, SyncOp::UpdateTitle { .. })));
    assert!(plan.ops.iter().any(|op| matches!(op, SyncOp::UpdateDescription { .. })));
    assert!(plan.ops.iter().any(|op| matches!(op, SyncOp::CreateIssue { .. })));
    apply(&mut board, &plan.ops);
    assert_eq!(board.issues[0].title, "Issue 1");
    assert_eq!(board.issues[0].description, Some("new".to_string()));

    let again = plan_sync_with_state(&issues, &board);
    assert_eq!(
        again.ops,
        vec![
            SyncOp::LinkSubIssue {
                parent_kanban_id: Uuid::from_u128(5),
                child_kanban_id: board.issues[1].id,
            },
            SyncOp::EnsureTag { kanban_id: Uuid::from_u128(5), tag_name: "bug".to_string() },
        ]
    );
    assert_eq!(again.unresolved_github_refs, plan.unresolved_github_refs);
    assert_eq!(again.notes, plan.notes);
}

#[test]
fn prepared_comments_carry_their_id() {
    let mut commented = issue(1);
    commented.mirror_comments = vec![GitHubMirrorComment {
        github_comment_id: 4242,
        author_login: "octocat".to_string(),
        body: "Ready".to_string(),
    }];
    let plan = plan_sync_with_state(&[commented], &KanbanSyncState::default());
    let prepared = prepare_sync_actions(
        &plan,
        PrepareSyncOptions {
            project_id: Uuid::from_u128(1),
            default_status_id: Uuid::from_u128(2),
            default_sort_order: SortOrder { bits: 0 },
        },
    );
    let ids: Vec<Option<u64>> = prepared
        .actions
        .iter()
        .filter_map(|action| match action {
            PreparedSyncAction::CreateIssueComment(request) => {
                Some(github_comment_id_from_kanban_message(&request.message))
            }
            _ => None,
        })
        .collect();
    assert_eq!(ids, vec![Some(4242)]);
}
