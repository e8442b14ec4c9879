//! Preparation: the requests that execute a plan, in the order in which they can be sent.
use vstd::prelude::*;

use crate::api::{
    empty_update_issue_request, CreateIssueCommentRequest, CreateIssueRelationshipRequest,
    CreateIssueRequest, IssueRelationshipType, SortOrder, UpdateIssueRequest,
};
#[allow(unused_imports)]
use crate::api::{
    no_change, CreateIssueCommentRequestView, CreateIssueRequestView, UpdateIssueRequestView,
};
use crate::ids::Uuid;
use crate::json::Json;
#[allow(unused_imports)]
use crate::json::{lemma_object_view, JsonView};
use crate::sync::comments::format_mirrored_github_comment;
#[allow(unused_imports)]
use crate::sync::comments::mirrored_text;
use crate::sync::types::{SyncOp, SyncPlan, UnsupportedSyncItem};
#[allow(unused_imports)]
use crate::sync::types::{op_views, unsupported_views, SyncOpView, UnsupportedSyncItemView};
use crate::text::{copy_option, owned};

verus! {

/// Where new issues are put.
#[derive(Debug, Clone, Copy, PartialEq, Eq, Structural)]
pub struct PrepareSyncOptions {
    pub project_id: Uuid,
    pub default_status_id: Uuid,
    pub default_sort_order: SortOrder,
}

#[derive(Debug, Clone)]
pub enum PreparedSyncAction {
    CreateIssue(CreateIssueRequest),
    UpdateIssue { issue_id: Uuid, request: UpdateIssueRequest },
    CreateIssueRelationship(CreateIssueRelationshipRequest),
    CreateIssueComment(CreateIssueCommentRequest),
    Unsupported(UnsupportedSyncItem),
}

/// What a prepared action says.
pub enum PreparedSyncActionView {
    CreateIssue(CreateIssueRequestView),
    UpdateIssue { issue_id: Uuid, request: UpdateIssueRequestView },
    CreateIssueRelationship(CreateIssueRelationshipRequest),
    CreateIssueComment(CreateIssueCommentRequestView),
    Unsupported(UnsupportedSyncItemView),
}

impl View for PreparedSyncAction {
    type V = PreparedSyncActionView;

    open spec fn view(&self) -> PreparedSyncActionView {
        match *self {
            PreparedSyncAction::CreateIssue(request) => PreparedSyncActionView::CreateIssue(
                request@,
            ),
            PreparedSyncAction::UpdateIssue { issue_id, request } => {
                PreparedSyncActionView::UpdateIssue { issue_id, request: request@ }
            },
            PreparedSyncAction::CreateIssueRelationship(request) => {
                PreparedSyncActionView::CreateIssueRelationship(request)
            },
            PreparedSyncAction::CreateIssueComment(request) => {
                PreparedSyncActionView::CreateIssueComment(request@)
            },
            PreparedSyncAction::Unsupported(item) => PreparedSyncActionView::Unsupported(item@),
        }
    }
}

/// What a list of prepared actions says.
pub open spec fn action_views(actions: Seq<PreparedSyncAction>) -> Seq<PreparedSyncActionView> {
    actions.map_values(|action: PreparedSyncAction| action@)
}

#[derive(Debug, Clone)]
pub struct PreparedSync {
    pub actions: Vec<PreparedSyncAction>,
}

impl Default for PreparedSync {
    fn default() -> (r: PreparedSync)
        ensures
            r.actions@.len() == 0,
    {
        PreparedSync { actions: Vec::new() }
    }
}

// ---------------------------------------------------------------------------
// What the preparation of a plan says
// ---------------------------------------------------------------------------

/// The metadata that marks a Kanban issue as that of a GitHub issue.
pub open spec fn github_metadata(number: u64, url: Seq<char>) -> JsonView {
    JsonView::Object(
        seq![
            (
                "github"@,
                JsonView::Object(
                    seq![
                        ("issue_number"@, JsonView::Integer(number as i128)),
                        ("url"@, JsonView::Text(url)),
                        (
                            "sync"@,
                            JsonView::Object(
                                seq![
                                    ("source"@, JsonView::Text("github"@)),
                                    ("mode"@, JsonView::Text("opt_in"@)),
                                ],
                            ),
                        ),
                    ],
                ),
            ),
        ],
    )
}

/// The phases of a prepared sync, in their order.
pub enum Phase {
    Issues,
    Relationships,
    Comments,
    Unsupported,
}

/// The phase in which an operation is executed.
pub open spec fn phase_of(op: SyncOpView) -> Phase {
    match op {
        SyncOpView::CreateIssue { .. } => Phase::Issues,
        SyncOpView::UpdateTitle { .. } => Phase::Issues,
        SyncOpView::UpdateDescription { .. } => Phase::Issues,
        SyncOpView::LinkSubIssue { .. } => Phase::Issues,
        SyncOpView::AddBlockingRelationship { .. } => Phase::Relationships,
        SyncOpView::AddRelatedLink { .. } => Phase::Relationships,
        SyncOpView::AddComment { .. } => Phase::Comments,
        SyncOpView::EnsureTag { .. } => Phase::Unsupported,
    }
}

/// The action that executes an operation.
pub open spec fn action_of(op: SyncOpView, options: PrepareSyncOptions) -> PreparedSyncActionView {
    match op {
        SyncOpView::CreateIssue {
            kanban_id,
            github_number,
            github_url,
            title,
            description,
            parent_kanban_id,
        } => PreparedSyncActionView::CreateIssue(
            CreateIssueRequestView {
                id: Some(kanban_id),
                project_id: options.project_id,
                status_id: options.default_status_id,
                title,
                description,
                priority: None,
                start_date: None,
                target_date: None,
                completed_at: None,
                sort_order: options.default_sort_order,
                parent_issue_id: parent_kanban_id,
                parent_issue_sort_order: None,
                extension_metadata: github_metadata(github_number, github_url),
            },
        ),
        SyncOpView::UpdateTitle { kanban_id, new_title } => PreparedSyncActionView::UpdateIssue {
            issue_id: kanban_id,
            request: UpdateIssueRequestView { title: Some(new_title), ..no_change() },
        },
        SyncOpView::UpdateDescription { kanban_id, new_description } => {
            PreparedSyncActionView::UpdateIssue {
                issue_id: kanban_id,
                request: UpdateIssueRequestView {
                    description: Some(new_description),
                    ..no_change()
                },
            }
        },
        SyncOpView::LinkSubIssue { parent_kanban_id, child_kanban_id } => {
            PreparedSyncActionView::UpdateIssue {
                issue_id: child_kanban_id,
                request: UpdateIssueRequestView {
                    parent_issue_id: Some(Some(parent_kanban_id)),
                    ..no_change()
                },
            }
        },
        SyncOpView::AddBlockingRelationship { blocker_kanban_id, blocked_kanban_id } => {
            PreparedSyncActionView::CreateIssueRelationship(
                CreateIssueRelationshipRequest {
                    id: None,
                    issue_id: blocker_kanban_id,
                    related_issue_id: blocked_kanban_id,
                    relationship_type: IssueRelationshipType::Blocking,
                },
            )
        },
        SyncOpView::AddRelatedLink { from_kanban_id, to_kanban_id } => {
            PreparedSyncActionView::CreateIssueRelationship(
                CreateIssueRelationshipRequest {
                    id: None,
                    issue_id: from_kanban_id,
                    related_issue_id: to_kanban_id,
                    relationship_type: IssueRelationshipType::Related,
                },
            )
        },
        SyncOpView::EnsureTag { kanban_id, tag_name } => PreparedSyncActionView::Unsupported(
            UnsupportedSyncItemView::Tags {
                kanban_id,
                tag_name,
                reason: "Kanban tag API mapping is not available in github_sync_plan"@,
            },
        ),
        SyncOpView::AddComment { kanban_id, github_comment_id, author_login, body } => {
            PreparedSyncActionView::CreateIssueComment(
                CreateIssueCommentRequestView {
                    id: None,
                    issue_id: kanban_id,
                    message: mirrored_text(github_comment_id, author_login, body),
                    parent_id: None,
                },
            )
        },
    }
}

/// The action that executes an operation, where it belongs to `phase`.
pub open spec fn action_in(phase: Phase, options: PrepareSyncOptions) -> spec_fn(SyncOpView) -> Seq<
    PreparedSyncActionView,
> {
    |op: SyncOpView|
        if phase_of(op) == phase {
            seq![action_of(op, options)]
        } else {
            Seq::empty()
        }
}

/// The actions of one phase, in the order of their operations.
pub open spec fn phase_actions(
    ops: Seq<SyncOpView>,
    phase: Phase,
    options: PrepareSyncOptions,
) -> Seq<PreparedSyncActionView> {
    ops.flat_map(action_in(phase, options))
}

/// The actions that hand on what the plan did not guess.
pub open spec fn handed_on(items: Seq<UnsupportedSyncItemView>) -> Seq<PreparedSyncActionView> {
    items.map_values(
        |item: UnsupportedSyncItemView| PreparedSyncActionView::Unsupported(item),
    )
}

/// All the actions for a plan: the issues first, so that what refers to them finds them.
pub open spec fn prepared_actions(
    ops: Seq<SyncOpView>,
    unsupported: Seq<UnsupportedSyncItemView>,
    options: PrepareSyncOptions,
) -> Seq<PreparedSyncActionView> {
    phase_actions(ops, Phase::Issues, options) + phase_actions(ops, Phase::Relationships, options)
        + phase_actions(ops, Phase::Comments, options) + phase_actions(
        ops,
        Phase::Unsupported,
        options,
    ) + handed_on(unsupported)
}

// ---------------------------------------------------------------------------
// The preparation
// ---------------------------------------------------------------------------

/// A member of an object under construction.
fn member(key: &str, value: Json) -> (r: (String, Json))
    ensures
        r.0@ == key@,
        r.1@ == value@,
{
    (owned(key), value)
}

/// The metadata that marks a Kanban issue as that of a GitHub issue.
pub fn github_extension_metadata(github_number: u64, github_url: &str) -> (r: Json)
    ensures
        r@ == github_metadata(github_number, github_url@),
{
    let sync = vec![
        member("source", Json::string("github")),
        member("mode", Json::string("opt_in")),
    ];
    proof {
        lemma_object_view(sync);
    }
    let sync_json = Json::Object(sync);
    let github = vec![
        member("issue_number", Json::Integer(github_number as i128)),
        member("url", Json::string(github_url)),
        member("sync", sync_json),
    ];
    proof {
        lemma_object_view(github);
    }
    let github_json = Json::Object(github);
    let root = vec![member("github", github_json)];
    proof {
        lemma_object_view(root);
        let wanted = github_metadata(github_number, github_url@);
        let inner = wanted->Object_0[0].1;
        assert(sync_json@->Object_0 =~= inner->Object_0[2].1->Object_0);
        assert(github_json@->Object_0 =~= inner->Object_0);
        assert(Json::Object(root)@->Object_0 =~= wanted->Object_0);
    }
    Json::Object(root)
}

/// The action that executes an operation.
fn action_for(op: &SyncOp, options: &PrepareSyncOptions) -> (r: PreparedSyncAction)
    ensures
        r@ == action_of(op@, *options),
{
    match op {
        SyncOp::CreateIssue {
            kanban_id,
            github_number,
            github_url,
            title,
            description,
            parent_kanban_id,
        } => PreparedSyncAction::CreateIssue(
            CreateIssueRequest {
                id: Some(*kanban_id),
                project_id: options.project_id,
                status_id: options.default_status_id,
                title: title.clone(),
                description: copy_option(description),
                priority: None,
                start_date: None,
                target_date: None,
                completed_at: None,
                sort_order: options.default_sort_order,
                parent_issue_id: *parent_kanban_id,
                parent_issue_sort_order: None,
                extension_metadata: github_extension_metadata(*github_number, github_url.as_str()),
            },
        ),
        SyncOp::UpdateTitle { kanban_id, new_title } => PreparedSyncAction::UpdateIssue {
            issue_id: *kanban_id,
            request: UpdateIssueRequest {
                title: Some(new_title.clone()),
                ..empty_update_issue_request()
            },
        },
        SyncOp::UpdateDescription { kanban_id, new_description } => {
            PreparedSyncAction::UpdateIssue {
                issue_id: *kanban_id,
                request: UpdateIssueRequest {
                    description: Some(copy_option(new_description)),
                    ..empty_update_issue_request()
                },
            }
        },
        SyncOp::LinkSubIssue { parent_kanban_id, child_kanban_id } => {
            PreparedSyncAction::UpdateIssue {
                issue_id: *child_kanban_id,
                request: UpdateIssueRequest {
                    parent_issue_id: Some(Some(*parent_kanban_id)),
                    ..empty_update_issue_request()
                },
            }
        },
        SyncOp::AddBlockingRelationship { blocker_kanban_id, blocked_kanban_id } => {
            PreparedSyncAction::CreateIssueRelationship(
                CreateIssueRelationshipRequest {
                    id: None,
                    issue_id: *blocker_kanban_id,
                    related_issue_id: *blocked_kanban_id,
                    relationship_type: IssueRelationshipType::Blocking,
                },
            )
        },
        SyncOp::AddRelatedLink { from_kanban_id, to_kanban_id } => {
            PreparedSyncAction::CreateIssueRelationship(
                CreateIssueRelationshipRequest {
                    id: None,
                    issue_id: *from_kanban_id,
                    related_issue_id: *to_kanban_id,
                    relationship_type: IssueRelationshipType::Related,
                },
            )
        },
        SyncOp::EnsureTag { kanban_id, tag_name } => PreparedSyncAction::Unsupported(
            UnsupportedSyncItem::Tags {
                kanban_id: *kanban_id,
                tag_name: tag_name.clone(),
                reason: owned("Kanban tag API mapping is not available in github_sync_plan"),
            },
        ),
        SyncOp::AddComment { kanban_id, github_comment_id, author_login, body } => {
            PreparedSyncAction::CreateIssueComment(
                CreateIssueCommentRequest {
                    id: None,
                    issue_id: *kanban_id,
                    message: format_mirrored_github_comment(
                        *github_comment_id,
                        author_login.as_str(),
                        body.as_str(),
                    ),
                    parent_id: None,
                },
            )
        },
    }
}

/// Appends one action.
fn push_action(actions: &mut Vec<PreparedSyncAction>, action: PreparedSyncAction)
    ensures
        action_views(final(actions)@) == action_views(old(actions)@).push(action@),
{
    actions.push(action);
    assert(action_views(actions@) =~= action_views(old(actions)@).push(action@));
}

/// Moves `more` behind `actions`.
fn append_actions(actions: &mut Vec<PreparedSyncAction>, more: &mut Vec<PreparedSyncAction>)
    ensures
        action_views(final(actions)@) == action_views(old(actions)@) + action_views(old(more)@),
{
    actions.append(more);
    assert(action_views(actions@) =~= action_views(old(actions)@) + action_views(old(more)@));
}

/// One operation more.
proof fn lemma_phase_step(
    ops: Seq<SyncOpView>,
    i: int,
    phase: Phase,
    options: PrepareSyncOptions,
)
    requires
        0 <= i < ops.len(),
    ensures
        phase_actions(ops.take(i + 1), phase, options) == if phase_of(ops[i]) == phase {
            phase_actions(ops.take(i), phase, options).push(action_of(ops[i], options))
        } else {
            phase_actions(ops.take(i), phase, options)
        },
{
    let f = action_in(phase, options);
    ops.lemma_flat_map_take_append(f, i);
    assert(phase_actions(ops.take(i + 1), phase, options) =~= phase_actions(
        ops.take(i),
        phase,
        options,
    ) + f(ops[i]));
}

/// The actions that execute a plan: the issues first, the relationships and the comments after
/// them, and what is not supported last.
pub fn prepare_sync_actions(plan: &SyncPlan, options: PrepareSyncOptions) -> (r: PreparedSync)
    ensures
        action_views(r.actions@) == prepared_actions(
            op_views(plan.ops@),
            unsupported_views(plan.unsupported@),
            options,
        ),
{
    let mut issue_actions: Vec<PreparedSyncAction> = Vec::new();
    let mut relationship_actions: Vec<PreparedSyncAction> = Vec::new();
    let mut comment_actions: Vec<PreparedSyncAction> = Vec::new();
    let mut unsupported_actions: Vec<PreparedSyncAction> = Vec::new();
    let ghost ops = op_views(plan.ops@);
    proof {
        let none = ops.take(0);
        assert(action_views(issue_actions@) =~= Seq::empty());
        assert(phase_actions(none, Phase::Issues, options) =~= Seq::empty());
        assert(phase_actions(none, Phase::Relationships, options) =~= Seq::empty());
        assert(phase_actions(none, Phase::Comments, options) =~= Seq::empty());
        assert(phase_actions(none, Phase::Unsupported, options) =~= Seq::empty());
    }
    for i in 0..plan.ops.len()
        invariant
            ops == op_views(plan.ops@),
            action_views(issue_actions@) == phase_actions(
                ops.take(i as int),
                Phase::Issues,
                options,
            ),
            action_views(relationship_actions@) == phase_actions(
                ops.take(i as int),
                Phase::Relationships,
                options,
            ),
            action_views(comment_actions@) == phase_actions(
                ops.take(i as int),
                Phase::Comments,
                options,
            ),
            action_views(unsupported_actions@) == phase_actions(
                ops.take(i as int),
                Phase::Unsupported,
                options,
            ),
    {
        let op = &plan.ops[i];
        proof {
            assert(ops[i as int] == op@);
            lemma_phase_step(ops, i as int, Phase::Issues, options);
            lemma_phase_step(ops, i as int, Phase::Relationships, options);
            lemma_phase_step(ops, i as int, Phase::Comments, options);
            lemma_phase_step(ops, i as int, Phase::Unsupported, options);
        }
        let action = action_for(op, &options);
        match op {
            SyncOp::CreateIssue { .. } => push_action(&mut issue_actions, action),
            SyncOp::UpdateTitle { .. } => push_action(&mut issue_actions, action),
            SyncOp::UpdateDescription { .. } => push_action(&mut issue_actions, action),
            SyncOp::LinkSubIssue { .. } => push_action(&mut issue_actions, action),
            SyncOp::AddBlockingRelationship { .. } => push_action(
                &mut relationship_actions,
                action,
            ),
            SyncOp::AddRelatedLink { .. } => push_action(&mut relationship_actions, action),
            SyncOp::EnsureTag { .. } => push_action(&mut unsupported_actions, action),
            SyncOp::AddComment { .. } => push_action(&mut comment_actions, action),
        }
    }
    assert(ops.take(ops.len() as int) =~= ops);
    let ghost items = unsupported_views(plan.unsupported@);
    let ghost tags = action_views(unsupported_actions@);
    assert(tags =~= tags + handed_on(items.take(0)));
    for i in 0..plan.unsupported.len()
        invariant
            items == unsupported_views(plan.unsupported@),
            action_views(unsupported_actions@) == tags + handed_on(items.take(i as int)),
    {
        let item = plan.unsupported[i].copy();
        push_action(&mut unsupported_actions, PreparedSyncAction::Unsupported(item));
        proof {
            assert(items[i as int] == item@);
            assert(handed_on(items.take(i + 1)) =~= handed_on(items.take(i as int)).push(
                PreparedSyncActionView::Unsupported(item@),
            ));
            assert(action_views(unsupported_actions@) =~= tags + handed_on(items.take(i + 1)));
        }
    }
    assert(items.take(items.len() as int) =~= items);
    let mut actions = issue_actions;
    append_actions(&mut actions, &mut relationship_actions);
    append_actions(&mut actions, &mut comment_actions);
    append_actions(&mut actions, &mut unsupported_actions);
    assert(action_views(actions@) =~= prepared_actions(ops, items, options));
    PreparedSync { actions }
}

} // verus!
