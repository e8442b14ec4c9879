//! Planning and preparing a sync run.
use vibe_kanban::api::{IssueRelationshipType, SortOrder};
use vibe_kanban::ids::Uuid;
use vibe_kanban::json::Json;
use vibe_kanban::sync::comments::{
    format_mirrored_github_comment, github_comment_id_from_kanban_message,
};
use vibe_kanban::sync::plan::{
    plan_sync, plan_sync_with_ids, plan_sync_with_state, sorted_unique,
};
use vibe_kanban::sync::prepare::{
    github_extension_metadata, prepare_sync_actions, PrepareSyncOptions, PreparedSyncAction,
};
use vibe_kanban::sync::types::{
    GitHubIssue, GitHubIssueRef, GitHubIssueState, GitHubLabel, GitHubMirrorComment,
    GitHubRelationKind, KanbanIssueRef, KanbanMirroredCommentRef, KanbanRelationshipRef,
    KanbanRelationshipType, KanbanSyncState, SyncOp, UnsupportedGitHubRelation,
    UnsupportedSyncItem,
};

fn issue_number(metadata: &Json) -> Option<i64> {
    metadata.get("github")?.get("issue_number")?.as_i64()
}

fn make_uuid(n: u64) -> Uuid {
    // Deterministic UUIDs for test readability.
    Uuid::from_u128(n as u128)
}

fn simple_gh_issue(number: u64, title: &str) -> GitHubIssue {
    GitHubIssue {
        number,
        url: format!("https://github.com/owner/repo/issues/{number}"),
        title: title.to_string(),
        body: None,
        state: GitHubIssueState::Open,
        labels: vec![],
        assignees: vec![],
        sub_issues: vec![],
        blocked_by: vec![],
        related_issues: vec![],
        mirror_comments: vec![],
        unsupported_relations: vec![],
    }
}

fn kanban_ref(id_n: u64, gh_number: u64, title: &str) -> KanbanIssueRef {
    KanbanIssueRef {
        id: make_uuid(id_n),
        github_issue_number: Some(gh_number),
        title: title.to_string(),
        description: None,
    }
}

// --- CreateIssue ---

#[test]
fn creates_issue_when_no_kanban_match() {
    let gh = [simple_gh_issue(42, "New feature")];
    let plan = plan_sync(&gh, &[]);

    assert_eq!(plan.ops.len(), 1, "expected exactly one op");
    assert!(
        matches!(
            &plan.ops[0],
            SyncOp::CreateIssue {
                github_number: 42,
                ..
            }
        ),
        "expected CreateIssue"
    );
    // Notes for TODO items should always be present.
    assert!(!plan.notes.is_empty());
}

#[test]
fn no_create_when_already_tracked() {
    let gh = [simple_gh_issue(7, "Same title")];
    let kanban = [kanban_ref(1, 7, "Same title")];
    let plan = plan_sync(&gh, &kanban);

    let creates: Vec<_> = plan
        .ops
        .iter()
        .filter(|op| matches!(op, SyncOp::CreateIssue { .. }))
        .collect();
    assert!(
        creates.is_empty(),
        "should not create an already-tracked issue"
    );
}

// --- UpdateTitle ---

#[test]
fn emits_title_update_when_title_differs() {
    let gh = [simple_gh_issue(10, "Renamed title")];
    let kanban = [kanban_ref(1, 10, "Old title")];
    let plan = plan_sync(&gh, &kanban);

    let updates: Vec<_> = plan
        .ops
        .iter()
        .filter(|op| matches!(op, SyncOp::UpdateTitle { .. }))
        .collect();
    assert_eq!(updates.len(), 1);
    assert!(matches!(
        updates[0],
        SyncOp::UpdateTitle { new_title, .. } if new_title == "Renamed title"
    ));
}

#[test]
fn no_title_update_when_title_matches() {
    let gh = [simple_gh_issue(10, "Same")];
    let kanban = [kanban_ref(1, 10, "Same")];
    let plan = plan_sync(&gh, &kanban);

    assert!(
        !plan
            .ops
            .iter()
            .any(|op| matches!(op, SyncOp::UpdateTitle { .. })),
        "should not emit title update when title is unchanged"
    );
}

// --- UpdateDescription ---

#[test]
fn emits_description_update_when_body_differs() {
    let mut gh = simple_gh_issue(5, "Title");
    gh.body = Some("New body".into());
    let kanban = [KanbanIssueRef {
        id: make_uuid(1),
        github_issue_number: Some(5),
        title: "Title".into(),
        description: Some("Old body".into()),
    }];
    let plan = plan_sync(&[gh], &kanban);

    assert!(
        plan.ops
            .iter()
            .any(|op| matches!(op, SyncOp::UpdateDescription { new_description: Some(d), .. } if d == "New body")),
        "expected UpdateDescription"
    );
}

// --- LinkSubIssue ---

#[test]
fn emits_sub_issue_link_when_both_tracked() {
    let mut parent = simple_gh_issue(1, "Parent");
    parent.sub_issues = vec![GitHubIssueRef {
        number: 2,
        url: "https://github.com/owner/repo/issues/2".into(),
    }];
    let child = simple_gh_issue(2, "Child");

    let kanban = [kanban_ref(10, 1, "Parent"), kanban_ref(20, 2, "Child")];
    let plan = plan_sync(&[parent, child], &kanban);

    assert!(
        plan.ops.iter().any(|op| matches!(
            op,
            SyncOp::LinkSubIssue {
                parent_kanban_id,
                child_kanban_id,
            } if *parent_kanban_id == make_uuid(10) && *child_kanban_id == make_uuid(20)
        )),
        "expected LinkSubIssue"
    );
}

#[test]
fn unresolved_ref_when_sub_issue_not_in_scope() {
    let mut parent = simple_gh_issue(1, "Parent");
    parent.sub_issues = vec![GitHubIssueRef {
        number: 99,
        url: "https://github.com/owner/repo/issues/99".into(),
    }];
    let plan = plan_sync(&[parent], &[]);

    assert!(
        plan.unresolved_github_refs.contains(&99),
        "should record unresolved sub-issue ref"
    );
}

// --- Blocking relationship ---

#[test]
fn emits_blocking_relationship_when_both_tracked() {
    let mut issue_a = simple_gh_issue(3, "A");
    issue_a.blocked_by = vec![GitHubIssueRef {
        number: 4,
        url: "https://github.com/owner/repo/issues/4".into(),
    }];
    let issue_b = simple_gh_issue(4, "B");

    let kanban = [kanban_ref(30, 3, "A"), kanban_ref(40, 4, "B")];
    let plan = plan_sync(&[issue_a, issue_b], &kanban);

    assert!(
        plan.ops.iter().any(|op| matches!(
            op,
            SyncOp::AddBlockingRelationship {
                blocker_kanban_id,
                blocked_kanban_id,
            } if *blocker_kanban_id == make_uuid(40) && *blocked_kanban_id == make_uuid(30)
        )),
        "expected AddBlockingRelationship with correct blocker/blocked direction"
    );
}

// --- Related link ---

#[test]
fn emits_related_link_when_both_tracked() {
    let mut issue_x = simple_gh_issue(5, "X");
    issue_x.related_issues = vec![GitHubIssueRef {
        number: 6,
        url: "https://github.com/owner/repo/issues/6".into(),
    }];
    let issue_y = simple_gh_issue(6, "Y");

    let kanban = [kanban_ref(50, 5, "X"), kanban_ref(60, 6, "Y")];
    let plan = plan_sync(&[issue_x, issue_y], &kanban);

    assert!(
        plan.ops
            .iter()
            .any(|op| matches!(op, SyncOp::AddRelatedLink { .. })),
        "expected AddRelatedLink"
    );
}

// --- Labels → tags ---

#[test]
fn emits_ensure_tag_for_each_label() {
    let mut gh = simple_gh_issue(7, "Tagged");
    gh.labels = vec![
        GitHubLabel {
            name: "bug".into(),
            color: Some("d73a4a".into()),
        },
        GitHubLabel {
            name: "p1".into(),
            color: None,
        },
    ];
    let kanban = [kanban_ref(70, 7, "Tagged")];
    let plan = plan_sync(&[gh], &kanban);

    let tags: Vec<_> = plan
        .ops
        .iter()
        .filter_map(|op| {
            if let SyncOp::EnsureTag { tag_name, .. } = op {
                Some(tag_name.as_str())
            } else {
                None
            }
        })
        .collect();
    assert!(tags.contains(&"bug"), "expected 'bug' tag");
    assert!(tags.contains(&"p1"), "expected 'p1' tag");
}

// --- Mirror comments ---

#[test]
fn emits_add_comment_for_mirror_comments() {
    let mut gh = simple_gh_issue(8, "With comment");
    gh.mirror_comments = vec![GitHubMirrorComment {
        github_comment_id: 9999,
        author_login: "alice".into(),
        body: "Status: shipped".into(),
    }];
    let kanban = [kanban_ref(80, 8, "With comment")];
    let plan = plan_sync(&[gh], &kanban);

    assert!(
        plan.ops.iter().any(|op| matches!(
            op,
            SyncOp::AddComment {
                github_comment_id: 9999,
                ..
            }
        )),
        "expected AddComment for mirror comment"
    );
}

// --- Deduplication of unresolved refs ---

#[test]
fn deduplicates_unresolved_refs() {
    let mut issue_a = simple_gh_issue(1, "A");
    issue_a.blocked_by = vec![GitHubIssueRef {
        number: 99,
        url: "https://github.com/owner/repo/issues/99".into(),
    }];
    let mut issue_b = simple_gh_issue(2, "B");
    issue_b.related_issues = vec![GitHubIssueRef {
        number: 99,
        url: "https://github.com/owner/repo/issues/99".into(),
    }];
    let plan = plan_sync(&[issue_a, issue_b], &[]);

    let count_99 = plan
        .unresolved_github_refs
        .iter()
        .filter(|&&n| n == 99)
        .count();
    assert_eq!(count_99, 1, "unresolved refs should be deduplicated");
}

// --- Empty inputs ---

#[test]
fn empty_inputs_produce_empty_plan() {
    let plan = plan_sync(&[], &[]);
    assert!(plan.ops.is_empty());
    assert!(plan.unresolved_github_refs.is_empty());
    assert!(
        !plan.notes.is_empty(),
        "notes (TODOs) should always be populated"
    );
}

#[test]
fn creates_sub_issue_with_reserved_parent_id_when_both_missing() {
    let mut parent = simple_gh_issue(1, "Parent");
    parent.sub_issues = vec![GitHubIssueRef {
        number: 2,
        url: "https://github.com/owner/repo/issues/2".into(),
    }];
    let child = simple_gh_issue(2, "Child");

    let plan = plan_sync(&[parent, child], &[]);

    let parent_id = plan
        .ops
        .iter()
        .find_map(|op| match op {
            SyncOp::CreateIssue {
                github_number: 1,
                kanban_id,
                ..
            } => Some(*kanban_id),
            _ => None,
        })
        .expect("parent create should reserve a kanban id");

    assert!(
        plan.ops.iter().any(|op| matches!(
            op,
            SyncOp::CreateIssue {
                github_number: 2,
                parent_kanban_id: Some(id),
                ..
            } if *id == parent_id
        )),
        "child create should point at the reserved parent id"
    );
}

#[test]
fn skips_relationships_and_comments_already_mirrored_in_state() {
    let mut issue = simple_gh_issue(10, "Blocked");
    issue.blocked_by = vec![GitHubIssueRef {
        number: 11,
        url: "https://github.com/owner/repo/issues/11".into(),
    }];
    issue.related_issues = vec![GitHubIssueRef {
        number: 12,
        url: "https://github.com/owner/repo/issues/12".into(),
    }];
    issue.mirror_comments = vec![GitHubMirrorComment {
        github_comment_id: 500,
        author_login: "alice".into(),
        body: "Already imported".into(),
    }];

    let blocker = simple_gh_issue(11, "Blocker");
    let related = simple_gh_issue(12, "Related");
    let state = KanbanSyncState {
        issues: vec![
            kanban_ref(10, 10, "Blocked"),
            kanban_ref(11, 11, "Blocker"),
            kanban_ref(12, 12, "Related"),
        ],
        relationships: vec![
            KanbanRelationshipRef {
                from_kanban_id: make_uuid(11),
                to_kanban_id: make_uuid(10),
                relationship_type: KanbanRelationshipType::Blocking,
            },
            KanbanRelationshipRef {
                from_kanban_id: make_uuid(10),
                to_kanban_id: make_uuid(12),
                relationship_type: KanbanRelationshipType::Related,
            },
        ],
        mirrored_comments: vec![KanbanMirroredCommentRef {
            kanban_id: make_uuid(10),
            github_comment_id: 500,
        }],
    };

    let plan = plan_sync_with_state(&[issue, blocker, related], &state);

    assert!(
        !plan
            .ops
            .iter()
            .any(|op| matches!(op, SyncOp::AddBlockingRelationship { .. })),
        "existing blocking relationship should not be duplicated"
    );
    assert!(
        !plan
            .ops
            .iter()
            .any(|op| matches!(op, SyncOp::AddRelatedLink { .. })),
        "existing related relationship should not be duplicated"
    );
    assert!(
        !plan
            .ops
            .iter()
            .any(|op| matches!(op, SyncOp::AddComment { .. })),
        "existing mirrored comment should not be duplicated"
    );
}

#[test]
fn prepares_remote_api_actions_for_creates_updates_relationships_and_comments() {
    let project_id = make_uuid(1000);
    let status_id = make_uuid(1001);

    let mut issue = simple_gh_issue(21, "Parent");
    issue.body = Some("Canonical body".into());
    issue.sub_issues = vec![GitHubIssueRef {
        number: 22,
        url: "https://github.com/owner/repo/issues/22".into(),
    }];
    issue.mirror_comments = vec![GitHubMirrorComment {
        github_comment_id: 2222,
        author_login: "octocat".into(),
        body: "Kanban update: ready".into(),
    }];
    let child = simple_gh_issue(22, "Child");

    let plan = plan_sync(&[issue, child], &[]);
    let prepared = prepare_sync_actions(
        &plan,
        PrepareSyncOptions {
            project_id,
            default_status_id: status_id,
            default_sort_order: SortOrder { bits: 0.0f64.to_bits() },
        },
    );

    assert_eq!(prepared.actions.len(), 3);
    assert!(prepared.actions.iter().any(|action| matches!(
        action,
        PreparedSyncAction::CreateIssue(request)
            if request.project_id == project_id
                && request.status_id == status_id
                && issue_number(&request.extension_metadata) == Some(21)
    )));
    assert!(prepared.actions.iter().any(|action| matches!(
        action,
        PreparedSyncAction::CreateIssue(request)
            if request.parent_issue_id.is_some()
                && issue_number(&request.extension_metadata) == Some(22)
    )));
    assert!(prepared.actions.iter().any(|action| matches!(
        action,
        PreparedSyncAction::CreateIssueComment(request)
            if request.message.contains("vibe-kanban-github-comment-id:2222")
                && request.message.contains("@octocat")
    )));
}

#[test]
fn records_unsupported_relation_fetches_as_manual_sync_notes() {
    let mut issue = simple_gh_issue(31, "Needs GraphQL");
    issue.unsupported_relations = vec![UnsupportedGitHubRelation {
        kind: GitHubRelationKind::SubIssues,
        reason: "GitHub GraphQL subIssues query unavailable in this runtime".into(),
    }];

    let plan = plan_sync(&[issue], &[]);

    assert!(plan.unsupported.iter().any(|unsupported| matches!(
        unsupported,
        UnsupportedSyncItem::GitHubRelation {
            github_number: 31,
            kind: GitHubRelationKind::SubIssues,
            ..
        }
    )));
    assert!(
        plan.notes
            .iter()
            .any(|note| note.contains("needs manual sync"))
    );
}

// --- Further scenarios ---

fn issue_ref(number: u64) -> GitHubIssueRef {
    GitHubIssueRef { number, url: format!("https://github.com/owner/repo/issues/{number}") }
}

#[test]
fn comment_ids_are_read_back_from_mirrored_comments() {
    for id in [0, 7, 2222, u64::MAX] {
        let message = format_mirrored_github_comment(id, "octocat", "body\nwith lines");
        assert_eq!(github_comment_id_from_kanban_message(&message), Some(id));
    }
    assert_eq!(
        format_mirrored_github_comment(5, "a", "b"),
        "GitHub comment by @a:\n\nb\n\n<!-- vibe-kanban-github-comment-id:5 -->"
    );
}

#[test]
fn messages_without_a_number_behind_the_marker_carry_no_comment_id() {
    assert_eq!(github_comment_id_from_kanban_message("hello"), None);
    assert_eq!(github_comment_id_from_kanban_message("vibe-kanban-github-comment-id:"), None);
    assert_eq!(github_comment_id_from_kanban_message("vibe-kanban-github-comment-id:x1"), None);
    assert_eq!(
        github_comment_id_from_kanban_message(
            "vibe-kanban-github-comment-id:18446744073709551616"
        ),
        None
    );
    // The first marker counts, wherever it stands.
    let message = format_mirrored_github_comment(1, "a", "vibe-kanban-github-comment-id:9");
    assert_eq!(github_comment_id_from_kanban_message(&message), Some(9));
}

#[test]
fn reserved_identifiers_go_to_new_issues_only() {
    let mut parent = simple_gh_issue(1, "Parent");
    parent.sub_issues = vec![issue_ref(2)];
    let child = simple_gh_issue(2, "Child");
    let state = KanbanSyncState { issues: vec![kanban_ref(10, 1, "Parent")], ..Default::default() };
    let plan =
        plan_sync_with_ids(&[parent, child], &state, &vec![make_uuid(90), make_uuid(91)]);
    assert_eq!(
        plan.ops,
        vec![SyncOp::CreateIssue {
            kanban_id: make_uuid(91),
            github_number: 2,
            github_url: "https://github.com/owner/repo/issues/2".to_string(),
            title: "Child".to_string(),
            description: None,
            parent_kanban_id: Some(make_uuid(10)),
        }]
    );
}

#[test]
fn the_last_kanban_issue_with_a_number_tracks_it() {
    let gh = [simple_gh_issue(3, "T")];
    let kanban = [kanban_ref(1, 3, "T"), kanban_ref(2, 3, "Other")];
    let plan = plan_sync(&gh, &kanban);
    assert_eq!(
        plan.ops,
        vec![SyncOp::UpdateTitle { kanban_id: make_uuid(2), new_title: "T".to_string() }]
    );
}

#[test]
fn unresolved_references_are_increasing() {
    let mut issue = simple_gh_issue(1, "A");
    issue.blocked_by = vec![issue_ref(9), issue_ref(3)];
    issue.related_issues = vec![issue_ref(9), issue_ref(1), issue_ref(5)];
    let plan = plan_sync(&[issue], &[]);
    assert_eq!(plan.unresolved_github_refs, vec![3, 5, 9]);
    assert_eq!(sorted_unique(&vec![4, 1, 4, 2]), vec![1, 2, 4]);
}

#[test]
fn an_issue_is_not_linked_as_its_own_sub_issue() {
    let mut issue = simple_gh_issue(1, "Loop");
    issue.sub_issues = vec![issue_ref(1)];
    let plan = plan_sync(&[issue], &[kanban_ref(1, 1, "Loop")]);
    assert!(plan.ops.is_empty());
}

#[test]
fn a_settled_board_is_left_alone_but_for_links_and_tags() {
    let mut parent = simple_gh_issue(1, "Parent");
    parent.sub_issues = vec![issue_ref(2)];
    parent.labels = vec![GitHubLabel { name: "bug".into(), color: None }];
    let child = simple_gh_issue(2, "Child");
    let kanban = [kanban_ref(10, 1, "Parent"), kanban_ref(20, 2, "Child")];
    let plan = plan_sync(&[parent, child], &kanban);
    assert_eq!(
        plan.ops,
        vec![
            SyncOp::LinkSubIssue {
                parent_kanban_id: make_uuid(10),
                child_kanban_id: make_uuid(20),
            },
            SyncOp::EnsureTag { kanban_id: make_uuid(10), tag_name: "bug".to_string() },
        ]
    );
}

#[test]
fn notes_name_what_needs_manual_work() {
    let mut issue = simple_gh_issue(31, "X");
    issue.unsupported_relations = vec![UnsupportedGitHubRelation {
        kind: GitHubRelationKind::BlockedBy,
        reason: "offline".into(),
    }];
    let plan = plan_sync(&[issue], &[]);
    assert_eq!(
        plan.notes,
        vec![
            "GitHub issue #31 BlockedBy needs manual sync: offline".to_string(),
            "TODO(#171): push-back from Kanban → GitHub (status, labels, assignees)".to_string(),
        ]
    );
}

#[test]
fn actions_come_in_phases_and_none_is_lost() {
    let mut one = simple_gh_issue(1, "One");
    one.labels = vec![GitHubLabel { name: "bug".into(), color: None }];
    one.mirror_comments = vec![GitHubMirrorComment {
        github_comment_id: 4,
        author_login: "a".into(),
        body: "b".into(),
    }];
    one.blocked_by = vec![issue_ref(2)];
    one.related_issues = vec![issue_ref(2)];
    one.unsupported_relations = vec![UnsupportedGitHubRelation {
        kind: GitHubRelationKind::Comments,
        reason: "r".into(),
    }];
    let mut two = simple_gh_issue(2, "Two");
    two.body = Some("body".into());
    let plan = plan_sync(&[one, two], &[kanban_ref(20, 2, "Old")]);
    let prepared = prepare_sync_actions(
        &plan,
        PrepareSyncOptions {
            project_id: make_uuid(1),
            default_status_id: make_uuid(2),
            default_sort_order: SortOrder { bits: 1.5f64.to_bits() },
        },
    );
    assert_eq!(prepared.actions.len(), plan.ops.len() + plan.unsupported.len());
    let phases: Vec<u8> = prepared
        .actions
        .iter()
        .map(|action| match action {
            PreparedSyncAction::CreateIssue(_) | PreparedSyncAction::UpdateIssue { .. } => 0,
            PreparedSyncAction::CreateIssueRelationship(_) => 1,
            PreparedSyncAction::CreateIssueComment(_) => 2,
            PreparedSyncAction::Unsupported(_) => 3,
        })
        .collect();
    assert_eq!(phases, vec![0, 0, 0, 1, 1, 2, 3, 3]);
    assert!(prepared.actions.iter().any(|action| matches!(
        action,
        PreparedSyncAction::CreateIssueRelationship(request)
            if request.issue_id == make_uuid(20)
                && request.relationship_type == IssueRelationshipType::Blocking
    )));
    assert!(prepared.actions.iter().any(|action| matches!(
        action,
        PreparedSyncAction::UpdateIssue { issue_id, request }
            if *issue_id == make_uuid(20) && request.title.as_deref() == Some("Two")
                && request.description.is_none()
    )));
    assert!(matches!(
        &prepared.actions[0],
        PreparedSyncAction::CreateIssue(request)
            if request.sort_order.bits == 1.5f64.to_bits()
    ));
    assert!(matches!(
        &prepared.actions[6],
        PreparedSyncAction::Unsupported(UnsupportedSyncItem::Tags { tag_name, reason, .. })
            if tag_name == "bug"
                && reason == "Kanban tag API mapping is not available in github_sync_plan"
    ));
}

#[test]
fn metadata_marks_the_github_issue() {
    let metadata = github_extension_metadata(12, "https://x");
    let github = metadata.get("github").unwrap();
    assert_eq!(github.get("issue_number").unwrap().as_i64(), Some(12));
    assert_eq!(github.get_str("url"), Some("https://x"));
    assert_eq!(github.get("sync").unwrap().get_str("source"), Some("github"));
    assert_eq!(github.get("sync").unwrap().get_str("mode"), Some("opt_in"));
}
