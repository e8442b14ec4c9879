//! What a plan holds, told from the snapshot and the board alone.
use vstd::prelude::*;

#[allow(unused_imports)]
use crate::api::{
    CreateIssueCommentRequestView, CreateIssueRelationshipRequest, CreateIssueRequestView,
    IssueRelationshipType, UpdateIssueRequestView,
};
use crate::ids::Uuid;
#[allow(unused_imports)]
use crate::json::{first_member, JsonView};
#[allow(unused_imports)]
use crate::sync::applying::lemma_tracking_at;
#[allow(unused_imports)]
use crate::sync::laws::{
    is_op_for, law_every_operation_is_prepared, law_ops_come_from_issues, lemma_flat_map_contains,
};
#[allow(unused_imports)]
use crate::sync::plan::{
    first_parent, is_plan_for, last_tracking, lemma_planned_in_scope, names, notes_of, references,
    standing_note, unsupported_item, unsupported_note, unsupported_of, PlanInput,
};
#[allow(unused_imports)]
use crate::sync::prepare::{
    action_in, action_of, github_metadata, handed_on, phase_actions, phase_of, prepared_actions,
    Phase, PrepareSyncOptions, PreparedSyncActionView,
};
#[allow(unused_imports)]
use crate::sync::types::{
    op_views, unsupported_views, GitHubIssue, GitHubIssueRef, GitHubLabel, GitHubMirrorComment,
    GitHubRelationKind, KanbanIssueRef,
    KanbanMirroredCommentRef, KanbanRelationshipRef, KanbanRelationshipType, SyncOpView, SyncPlan,
    UnsupportedSyncItemView,
};
#[allow(unused_imports)]
use crate::text::{decimal, view_of_option, views_of};

verus! {

// ---------------------------------------------------------------------------
// Identifiers
// ---------------------------------------------------------------------------

/// The issue at position `k` of the board tracks the GitHub issue `number`, and none behind it
/// does.
pub open spec fn tracks(board: Seq<KanbanIssueRef>, k: int, number: u64) -> bool {
    &&& 0 <= k < board.len()
    &&& board[k].github_issue_number == Some(number)
    &&& forall|j: int|
        k < j < board.len() ==> (#[trigger] board[j]).github_issue_number != Some(number)
}

/// No issue of the board tracks the GitHub issue `number`.
pub open spec fn is_untracked(board: Seq<KanbanIssueRef>, number: u64) -> bool {
    forall|j: int| 0 <= j < board.len() ==> (#[trigger] board[j]).github_issue_number != Some(number)
}

/// The issue at position `i` of the snapshot has the number `number`, and none behind it does.
pub open spec fn stands_at(issues: Seq<GitHubIssue>, i: int, number: u64) -> bool {
    &&& 0 <= i < issues.len()
    &&& issues[i].number == number
    &&& forall|j: int| i < j < issues.len() ==> (#[trigger] issues[j]).number != number
}

/// `id` is what the issue `number` of the snapshot has, or will have, on the board: the identifier
/// of the issue that tracks it, and that in reserve where none does.
pub open spec fn is_identifier(input: PlanInput, number: u64, id: Uuid) -> bool {
    exists|i: int| #[trigger]
        stands_at(input.issues, i, number) && {
            ||| exists|k: int| #[trigger]
                tracks(input.state.issues@, k, number) && input.state.issues@[k].id == id
            ||| is_untracked(input.state.issues@, number) && input.fresh[i] == id
        }
}

/// Who tracks a number.
proof fn lemma_existing(input: PlanInput, number: u64)
    ensures
        input.existing(number) is None <==> is_untracked(input.state.issues@, number),
        input.existing(number) matches Some(kanban) ==> exists|k: int| #[trigger]
            tracks(input.state.issues@, k, number) && input.state.issues@[k] == kanban,
        forall|k: int| #[trigger]
            tracks(input.state.issues@, k, number) ==> input.existing(number) == Some(
                input.state.issues@[k],
            ),
{
    let board = input.state.issues@;
    let at = lemma_tracking_at(board, number);
    if input.existing(number) is Some {
        assert(tracks(board, at, number));
    }
    assert forall|k: int| #[trigger] tracks(board, k, number) implies input.existing(number)
        == Some(board[k]) by {
        if k < at {
            assert(board[at].github_issue_number != Some(number));
        }
        if at < k {
            assert(board[k].github_issue_number != Some(number));
        }
    }
}

/// Which of the first issues of the snapshot has a number last.
proof fn lemma_last_at(input: PlanInput, count: int, number: u64) -> (i: int)
    requires
        0 <= count <= input.issues.len(),
        input.planned_among(count, number) is Some,
    ensures
        0 <= i < count,
        input.issues[i].number == number,
        forall|j: int| i < j < count ==> (#[trigger] input.issues[j]).number != number,
        input.planned_among(count, number) == Some(input.id_at(i)),
    decreases count,
{
    if input.issues[count - 1].number == number {
        count - 1
    } else {
        lemma_last_at(input, count - 1, number)
    }
}

/// Each number of the snapshot, and no other, has one identifier: that which all operations use.
pub proof fn law_identifiers_are_those_of_the_board_or_in_reserve(
    input: PlanInput,
    number: u64,
    id: Uuid,
)
    ensures
        input.planned(number) == Some(id) <==> is_identifier(input, number, id),
        input.planned(number) is Some <==> exists|i: int|
            0 <= i < input.issues.len() && (#[trigger] input.issues[i]).number == number,
{
    let count = input.issues.len() as int;
    lemma_planned_in_scope(input, count, number);
    lemma_existing(input, number);
    if input.planned(number) is Some {
        let at = lemma_last_at(input, count, number);
        assert(stands_at(input.issues, at, number));
        assert forall|i: int| #[trigger] stands_at(input.issues, i, number) implies i == at by {
            if i < at {
                assert(input.issues[at].number != number);
            }
        }
        if input.existing(number) is Some {
            let k = choose|k: int| #[trigger]
                tracks(input.state.issues@, k, number) && input.state.issues@[k] == input.existing(
                    number,
                )->0;
            assert(tracks(input.state.issues@, k, number));
            assert(input.state.issues@[k].github_issue_number == Some(number));
        }
        if is_identifier(input, number, id) {
            let i = choose|i: int| #[trigger]
                stands_at(input.issues, i, number) && {
                    ||| exists|k: int| #[trigger]
                        tracks(input.state.issues@, k, number) && input.state.issues@[k].id == id
                    ||| is_untracked(input.state.issues@, number) && input.fresh[i] == id
                };
            assert(i == at);
        }
    } else if is_identifier(input, number, id) {
        let i = choose|i: int| #[trigger] stands_at(input.issues, i, number);
        assert(input.issues[i].number == number);
    }
}

/// An issue of the snapshot has the identifier that operations use for it.
proof fn lemma_id_of(input: PlanInput, i: int)
    requires
        0 <= i < input.issues.len(),
    ensures
        is_identifier(input, input.issues[i].number, input.id_of(input.issues[i])),
        input.planned(input.issues[i].number) == Some(input.id_of(input.issues[i])),
        forall|id: Uuid| #[trigger]
            is_identifier(input, input.issues[i].number, id) ==> id == input.id_of(input.issues[i]),
{
    let number = input.issues[i].number;
    law_identifiers_are_those_of_the_board_or_in_reserve(
        input,
        number,
        input.id_of(input.issues[i]),
    );
    assert forall|id: Uuid| #[trigger] is_identifier(input, number, id) implies id == input.id_of(
        input.issues[i],
    ) by {
        law_identifiers_are_those_of_the_board_or_in_reserve(input, number, id);
    }
}

// ---------------------------------------------------------------------------
// Issues
// ---------------------------------------------------------------------------

/// The issue at position `j` of the snapshot is the first that lists `number` anywhere among its
/// sub-issues.
pub open spec fn is_first_parent(issues: Seq<GitHubIssue>, j: int, number: u64) -> bool {
    &&& 0 <= j < issues.len()
    &&& exists|k: int|
        0 <= k < issues[j].sub_issues@.len() && (#[trigger] issues[j].sub_issues@[k]).number
            == number
    &&& forall|m: int, k: int|
        0 <= m < j && 0 <= k < issues[m].sub_issues@.len() ==> (
        #[trigger] issues[m].sub_issues@[k]).number != number
}

/// No issue of the snapshot lists `number` among its sub-issues.
pub open spec fn has_no_parent(issues: Seq<GitHubIssue>, number: u64) -> bool {
    forall|m: int, k: int|
        0 <= m < issues.len() && 0 <= k < issues[m].sub_issues@.len() ==> (
        #[trigger] issues[m].sub_issues@[k]).number != number
}

/// The first parent, found from the front.
proof fn lemma_first_parent(issues: Seq<GitHubIssue>, number: u64) -> (j: int)
    ensures
        first_parent(issues, number) is None ==> has_no_parent(issues, number),
        first_parent(issues, number) matches Some(parent) ==> is_first_parent(issues, j, number)
            && issues[j] == parent,
    decreases issues.len(),
{
    if issues.len() == 0 {
        0
    } else if names(issues[0].sub_issues@, number) {
        let refs = issues[0].sub_issues@;
        let k = choose|k: int| 0 <= k < refs.len() && (#[trigger] refs[k]).number == number;
        assert(issues[0].sub_issues@[k].number == number);
        0
    } else {
        let rest = issues.drop_first();
        let j = lemma_first_parent(rest, number);
        assert forall|m: int, k: int|
            0 <= m < issues.len() && 0 <= k < issues[m].sub_issues@.len() && (m == 0 || (m > 0
                && rest[m - 1].sub_issues@[k].number != number)) implies (
        #[trigger] issues[m].sub_issues@[k]).number != number by {
            if m == 0 {
                let refs = issues[0].sub_issues@;
                if refs[k].number == number {
                    assert(names(refs, number));
                }
            } else {
                assert(rest[m - 1] == issues[m]);
            }
        }
        if first_parent(rest, number) is None {
            assert forall|m: int, k: int|
                0 <= m < issues.len() && 0 <= k < issues[m].sub_issues@.len() implies (
            #[trigger] issues[m].sub_issues@[k]).number != number by {
                if m > 0 {
                    assert(rest[m - 1].sub_issues@[k].number != number);
                }
            }
            0
        } else {
            let at = j + 1;
            assert(issues[at] == rest[j]);
            let k = choose|k: int|
                0 <= k < rest[j].sub_issues@.len() && (
                #[trigger] rest[j].sub_issues@[k]).number == number;
            assert(issues[at].sub_issues@[k].number == number);
            assert forall|m: int, k: int|
                0 <= m < at && 0 <= k < issues[m].sub_issues@.len() implies (
            #[trigger] issues[m].sub_issues@[k]).number != number by {
                if m > 0 {
                    assert(rest[m - 1].sub_issues@[k].number != number);
                }
            }
            at
        }
    }
}

/// A new issue is created under the first issue of the snapshot that lists it anywhere among its
/// sub-issues, and at the top where none does.
pub proof fn law_new_issues_stand_under_their_first_parent(
    input: PlanInput,
    op: SyncOpView,
    j: int,
)
    requires
        input.ops().contains(op),
        op is CreateIssue,
    ensures
        is_first_parent(input.issues, j, op->github_number) ==> (
        op->CreateIssue_parent_kanban_id matches Some(parent) && is_identifier(
            input,
            input.issues[j].number,
            parent,
        )),
        has_no_parent(input.issues, op->github_number) ==> op->CreateIssue_parent_kanban_id is None,
        op->CreateIssue_parent_kanban_id is None ==> has_no_parent(input.issues, op->github_number),
{
    let issues = input.issues;
    let number = op->github_number;
    law_ops_come_from_issues(input, op);
    let i = choose|i: int|
        0 <= i < input.issues.len() && is_op_for(input, #[trigger] input.issues[i], op);
    let at = lemma_first_parent(issues, number);
    assert(op->CreateIssue_parent_kanban_id == input.parent_id(number));
    if first_parent(issues, number) is Some {
        lemma_id_of(input, at);
        let k = choose|k: int|
            0 <= k < issues[at].sub_issues@.len() && (
            #[trigger] issues[at].sub_issues@[k]).number == number;
        assert(issues[at].sub_issues@[k].number == number);
    }
    if is_first_parent(issues, j, number) {
        let k = choose|k: int|
            0 <= k < issues[j].sub_issues@.len() && (
            #[trigger] issues[j].sub_issues@[k]).number == number;
        assert(issues[j].sub_issues@[k].number == number);
        if j < at {
            assert(issues[j].sub_issues@[k].number != number);
        }
        if at < j {
            let m = choose|m: int|
                0 <= m < issues[at].sub_issues@.len() && (
                #[trigger] issues[at].sub_issues@[m]).number == number;
            assert(issues[at].sub_issues@[m].number != number);
        }
    }
}

/// Exactly the issues of the snapshot that the board does not track are created, each under its
/// own identifier and with its own number, URL, title and description.
pub proof fn law_untracked_issues_are_created(
    input: PlanInput,
    kanban_id: Uuid,
    github_number: u64,
    github_url: Seq<char>,
    title: Seq<char>,
    description: Option<Seq<char>>,
)
    ensures
        (exists|parent: Option<Uuid>|
            input.ops().contains(
                #[trigger] created(kanban_id, github_number, github_url, title, description, parent),
            )) <==> is_untracked(input.state.issues@, github_number) && is_identifier(
            input,
            github_number,
            kanban_id,
        ) && exists|i: int|
            0 <= i < input.issues.len() && (#[trigger] input.issues[i]).number == github_number
                && input.issues[i].url@ == github_url && input.issues[i].title@ == title
                && view_of_option(input.issues[i].body) == description,
{
    lemma_existing(input, github_number);
    if exists|parent: Option<Uuid>|
        input.ops().contains(
            #[trigger] created(kanban_id, github_number, github_url, title, description, parent),
        ) {
        let parent = choose|parent: Option<Uuid>|
            input.ops().contains(
                #[trigger] created(kanban_id, github_number, github_url, title, description, parent),
            );
        let op = created(kanban_id, github_number, github_url, title, description, parent);
        let i = lemma_issue_for(input, op);
        lemma_id_of(input, i);
        assert(input.issues[i].number == github_number);
    }
    if is_untracked(input.state.issues@, github_number) && is_identifier(
        input,
        github_number,
        kanban_id,
    ) && exists|i: int|
        0 <= i < input.issues.len() && (#[trigger] input.issues[i]).number == github_number
            && input.issues[i].url@ == github_url && input.issues[i].title@ == title
            && view_of_option(input.issues[i].body) == description {
        let i = choose|i: int|
            0 <= i < input.issues.len() && (#[trigger] input.issues[i]).number == github_number
                && input.issues[i].url@ == github_url && input.issues[i].title@ == title
                && view_of_option(input.issues[i].body) == description;
        lemma_id_of(input, i);
        let op = created(
            kanban_id,
            github_number,
            github_url,
            title,
            description,
            input.parent_id(github_number),
        );
        assert(input.own_ops(input.issues[i])[0] == op);
        lemma_is_op(input, i, op);
    }
}

/// The operation that creates an issue.
pub open spec fn created(
    kanban_id: Uuid,
    github_number: u64,
    github_url: Seq<char>,
    title: Seq<char>,
    description: Option<Seq<char>>,
    parent_kanban_id: Option<Uuid>,
) -> SyncOpView {
    SyncOpView::CreateIssue {
        kanban_id,
        github_number,
        github_url,
        title,
        description,
        parent_kanban_id,
    }
}

/// The issue that an operation is for.
proof fn lemma_issue_for(input: PlanInput, op: SyncOpView) -> (i: int)
    requires
        input.ops().contains(op),
    ensures
        0 <= i < input.issues.len(),
        is_op_for(input, input.issues[i], op),
{
    law_ops_come_from_issues(input, op);
    choose|i: int|
        0 <= i < input.issues.len() && is_op_for(input, #[trigger] input.issues[i], op)
}

/// An operation for an issue is part of the plan.
proof fn lemma_is_op(input: PlanInput, i: int, op: SyncOpView)
    requires
        0 <= i < input.issues.len(),
        is_op_for(input, input.issues[i], op),
    ensures
        input.ops().contains(op),
{
    law_ops_come_from_issues(input, op);
    assert(is_op_for(input, input.issues[i], op));
}

/// A title is changed exactly where the issue that tracks one of the snapshot has another, and to
/// that of the snapshot.
pub proof fn law_titles_follow_the_snapshot(input: PlanInput, kanban_id: Uuid, new_title: Seq<char>)
    ensures
        input.ops().contains(SyncOpView::UpdateTitle { kanban_id, new_title }) <==> exists|
            i: int,
            k: int,
        |
            0 <= i < input.issues.len() && #[trigger] tracks(
                input.state.issues@,
                k,
                #[trigger] input.issues[i].number,
            ) && input.state.issues@[k].id == kanban_id && input.state.issues@[k].title@
                != input.issues[i].title@ && input.issues[i].title@ == new_title,
{
    let op = SyncOpView::UpdateTitle { kanban_id, new_title };
    let board = input.state.issues@;
    if input.ops().contains(op) {
        let i = lemma_issue_for(input, op);
        let number = input.issues[i].number;
        lemma_existing(input, number);
        let k = choose|k: int| #[trigger]
            tracks(board, k, number) && board[k] == input.existing(number)->0;
        assert(tracks(board, k, input.issues[i].number));
    }
    if exists|i: int, k: int|
        0 <= i < input.issues.len() && #[trigger] tracks(
            board,
            k,
            #[trigger] input.issues[i].number,
        ) && board[k].id == kanban_id && board[k].title@ != input.issues[i].title@
            && input.issues[i].title@ == new_title {
        let (i, k) = choose|i: int, k: int|
            0 <= i < input.issues.len() && #[trigger] tracks(
                board,
                k,
                #[trigger] input.issues[i].number,
            ) && board[k].id == kanban_id && board[k].title@ != input.issues[i].title@
                && input.issues[i].title@ == new_title;
        lemma_existing(input, input.issues[i].number);
        assert(input.own_ops(input.issues[i])[0] == op);
        lemma_is_op(input, i, op);
    }
}

/// A description is changed exactly where the issue that tracks one of the snapshot has another,
/// and to that of the snapshot.
pub proof fn law_descriptions_follow_the_snapshot(
    input: PlanInput,
    kanban_id: Uuid,
    new_description: Option<Seq<char>>,
)
    ensures
        input.ops().contains(SyncOpView::UpdateDescription { kanban_id, new_description })
            <==> exists|i: int, k: int|
            0 <= i < input.issues.len() && #[trigger] tracks(
                input.state.issues@,
                k,
                #[trigger] input.issues[i].number,
            ) && input.state.issues@[k].id == kanban_id && view_of_option(
                input.state.issues@[k].description,
            ) != view_of_option(input.issues[i].body) && view_of_option(input.issues[i].body)
                == new_description,
{
    let op = SyncOpView::UpdateDescription { kanban_id, new_description };
    let board = input.state.issues@;
    if input.ops().contains(op) {
        let i = lemma_issue_for(input, op);
        let number = input.issues[i].number;
        lemma_existing(input, number);
        let k = choose|k: int| #[trigger]
            tracks(board, k, number) && board[k] == input.existing(number)->0;
        assert(tracks(board, k, input.issues[i].number));
    }
    if exists|i: int, k: int|
        0 <= i < input.issues.len() && #[trigger] tracks(
            board,
            k,
            #[trigger] input.issues[i].number,
        ) && board[k].id == kanban_id && view_of_option(board[k].description) != view_of_option(
            input.issues[i].body,
        ) && view_of_option(input.issues[i].body) == new_description {
        let (i, k) = choose|i: int, k: int|
            0 <= i < input.issues.len() && #[trigger] tracks(
                board,
                k,
                #[trigger] input.issues[i].number,
            ) && board[k].id == kanban_id && view_of_option(board[k].description)
                != view_of_option(input.issues[i].body) && view_of_option(input.issues[i].body)
                == new_description;
        lemma_existing(input, input.issues[i].number);
        let own = input.own_ops(input.issues[i]);
        assert(own[own.len() - 1] == op);
        lemma_is_op(input, i, op);
    }
}

// ---------------------------------------------------------------------------
// Links, relationships, tags and comments
// ---------------------------------------------------------------------------

/// `number` is in the snapshot.
pub open spec fn is_in_snapshot(issues: Seq<GitHubIssue>, number: u64) -> bool {
    exists|j: int| 0 <= j < issues.len() && (#[trigger] issues[j]).number == number
}

/// Sub-issues are linked exactly where the board tracks the child and the snapshot holds it, and
/// the two are not the same.
pub proof fn law_sub_issues_on_the_board_are_linked(
    input: PlanInput,
    parent_kanban_id: Uuid,
    child_kanban_id: Uuid,
)
    ensures
        input.ops().contains(SyncOpView::LinkSubIssue { parent_kanban_id, child_kanban_id })
            <==> parent_kanban_id != child_kanban_id && exists|i: int, r: int, k: int|
            0 <= i < input.issues.len() && 0 <= r < input.issues[i].sub_issues@.len()
                && is_in_snapshot(input.issues, input.issues[i].sub_issues@[r].number)
                && is_identifier(input, input.issues[i].number, parent_kanban_id)
                && #[trigger] tracks(
                input.state.issues@,
                k,
                (#[trigger] input.issues[i].sub_issues@[r]).number,
            ) && input.state.issues@[k].id == child_kanban_id,
{
    let op = SyncOpView::LinkSubIssue { parent_kanban_id, child_kanban_id };
    let board = input.state.issues@;
    if input.ops().contains(op) {
        let i = lemma_issue_for(input, op);
        let issue = input.issues[i];
        let id = input.id_of(issue);
        lemma_id_of(input, i);
        assert(!input.own_ops(issue).contains(op));
        let r = choose|r: int|
            0 <= r < issue.sub_issues@.len() && input.sub_issue_op(id)(
                #[trigger] issue.sub_issues@[r],
            ).contains(op);
        let number = issue.sub_issues@[r].number;
        lemma_existing(input, number);
        let k = choose|k: int| #[trigger]
            tracks(board, k, number) && board[k] == input.existing(number)->0;
        assert(tracks(board, k, input.issues[i].sub_issues@[r].number));
        assert(input.in_scope(number));
        assert(is_in_snapshot(input.issues, number));
    }
    if parent_kanban_id != child_kanban_id && exists|i: int, r: int, k: int|
        0 <= i < input.issues.len() && 0 <= r < input.issues[i].sub_issues@.len() && is_in_snapshot(
            input.issues,
            input.issues[i].sub_issues@[r].number,
        ) && is_identifier(input, input.issues[i].number, parent_kanban_id) && #[trigger] tracks(
            board,
            k,
            (#[trigger] input.issues[i].sub_issues@[r]).number,
        ) && board[k].id == child_kanban_id {
        let (i, r, k) = choose|i: int, r: int, k: int|
            0 <= i < input.issues.len() && 0 <= r < input.issues[i].sub_issues@.len()
                && is_in_snapshot(input.issues, input.issues[i].sub_issues@[r].number)
                && is_identifier(input, input.issues[i].number, parent_kanban_id)
                && #[trigger] tracks(
                board,
                k,
                (#[trigger] input.issues[i].sub_issues@[r]).number,
            ) && board[k].id == child_kanban_id;
        let issue = input.issues[i];
        lemma_id_of(input, i);
        lemma_existing(input, issue.sub_issues@[r].number);
        assert(input.in_scope(issue.sub_issues@[r].number));
        let ops = input.sub_issue_op(input.id_of(issue))(issue.sub_issues@[r]);
        assert(ops[0] == op);
        assert(ops.contains(op));
        lemma_is_op(input, i, op);
    }
}

/// A blocking relationship is added exactly where an issue of the snapshot names another of it
/// among those that block it, and the board does not have it yet: from the blocker to the blocked.
pub proof fn law_blockers_are_related(
    input: PlanInput,
    blocker_kanban_id: Uuid,
    blocked_kanban_id: Uuid,
)
    ensures
        input.ops().contains(
            SyncOpView::AddBlockingRelationship { blocker_kanban_id, blocked_kanban_id },
        ) <==> !input.state.relationships@.contains(
            KanbanRelationshipRef {
                from_kanban_id: blocker_kanban_id,
                to_kanban_id: blocked_kanban_id,
                relationship_type: KanbanRelationshipType::Blocking,
            },
        ) && exists|i: int, r: int|
            0 <= i < input.issues.len() && 0 <= r < input.issues[i].blocked_by@.len()
                && is_identifier(input, input.issues[i].number, blocked_kanban_id)
                && is_identifier(
                input,
                (#[trigger] input.issues[i].blocked_by@[r]).number,
                blocker_kanban_id,
            ),
{
    let op = SyncOpView::AddBlockingRelationship { blocker_kanban_id, blocked_kanban_id };
    if input.ops().contains(op) {
        let i = lemma_issue_for(input, op);
        let issue = input.issues[i];
        let id = input.id_of(issue);
        lemma_id_of(input, i);
        assert(!input.own_ops(issue).contains(op));
        let r = choose|r: int|
            0 <= r < issue.blocked_by@.len() && input.blocker_op(id)(
                #[trigger] issue.blocked_by@[r],
            ).contains(op);
        law_identifiers_are_those_of_the_board_or_in_reserve(
            input,
            issue.blocked_by@[r].number,
            blocker_kanban_id,
        );
        assert(is_identifier(input, input.issues[i].blocked_by@[r].number, blocker_kanban_id));
    }
    if !input.related(blocker_kanban_id, blocked_kanban_id, KanbanRelationshipType::Blocking)
        && exists|i: int, r: int|
        0 <= i < input.issues.len() && 0 <= r < input.issues[i].blocked_by@.len() && is_identifier(
            input,
            input.issues[i].number,
            blocked_kanban_id,
        ) && is_identifier(
            input,
            (#[trigger] input.issues[i].blocked_by@[r]).number,
            blocker_kanban_id,
        ) {
        let (i, r) = choose|i: int, r: int|
            0 <= i < input.issues.len() && 0 <= r < input.issues[i].blocked_by@.len()
                && is_identifier(input, input.issues[i].number, blocked_kanban_id)
                && is_identifier(
                input,
                (#[trigger] input.issues[i].blocked_by@[r]).number,
                blocker_kanban_id,
            );
        let issue = input.issues[i];
        lemma_id_of(input, i);
        law_identifiers_are_those_of_the_board_or_in_reserve(
            input,
            issue.blocked_by@[r].number,
            blocker_kanban_id,
        );
        let ops = input.blocker_op(input.id_of(issue))(issue.blocked_by@[r]);
        assert(ops[0] == op);
        assert(ops.contains(op));
        lemma_is_op(input, i, op);
    }
}

/// A link to a related issue is added exactly where an issue of the snapshot names another of it
/// as related, and the board does not have it yet: from the issue to the one that it names.
pub proof fn law_related_issues_are_linked(
    input: PlanInput,
    from_kanban_id: Uuid,
    to_kanban_id: Uuid,
)
    ensures
        input.ops().contains(SyncOpView::AddRelatedLink { from_kanban_id, to_kanban_id })
            <==> !input.state.relationships@.contains(
            KanbanRelationshipRef {
                from_kanban_id,
                to_kanban_id,
                relationship_type: KanbanRelationshipType::Related,
            },
        ) && exists|i: int, r: int|
            0 <= i < input.issues.len() && 0 <= r < input.issues[i].related_issues@.len()
                && is_identifier(input, input.issues[i].number, from_kanban_id) && is_identifier(
                input,
                (#[trigger] input.issues[i].related_issues@[r]).number,
                to_kanban_id,
            ),
{
    let op = SyncOpView::AddRelatedLink { from_kanban_id, to_kanban_id };
    if input.ops().contains(op) {
        let i = lemma_issue_for(input, op);
        let issue = input.issues[i];
        let id = input.id_of(issue);
        lemma_id_of(input, i);
        assert(!input.own_ops(issue).contains(op));
        let r = choose|r: int|
            0 <= r < issue.related_issues@.len() && input.related_op(id)(
                #[trigger] issue.related_issues@[r],
            ).contains(op);
        law_identifiers_are_those_of_the_board_or_in_reserve(
            input,
            issue.related_issues@[r].number,
            to_kanban_id,
        );
        assert(is_identifier(input, input.issues[i].related_issues@[r].number, to_kanban_id));
    }
    if !input.related(from_kanban_id, to_kanban_id, KanbanRelationshipType::Related) && exists|
        i: int,
        r: int,
    |
        0 <= i < input.issues.len() && 0 <= r < input.issues[i].related_issues@.len()
            && is_identifier(input, input.issues[i].number, from_kanban_id) && is_identifier(
            input,
            (#[trigger] input.issues[i].related_issues@[r]).number,
            to_kanban_id,
        ) {
        let (i, r) = choose|i: int, r: int|
            0 <= i < input.issues.len() && 0 <= r < input.issues[i].related_issues@.len()
                && is_identifier(input, input.issues[i].number, from_kanban_id) && is_identifier(
                input,
                (#[trigger] input.issues[i].related_issues@[r]).number,
                to_kanban_id,
            );
        let issue = input.issues[i];
        lemma_id_of(input, i);
        law_identifiers_are_those_of_the_board_or_in_reserve(
            input,
            issue.related_issues@[r].number,
            to_kanban_id,
        );
        let ops = input.related_op(input.id_of(issue))(issue.related_issues@[r]);
        assert(ops[0] == op);
        assert(ops.contains(op));
        lemma_is_op(input, i, op);
    }
}

/// Exactly the labels of the issues of the snapshot become tags of theirs.
pub proof fn law_labels_become_tags(input: PlanInput, kanban_id: Uuid, tag_name: Seq<char>)
    ensures
        input.ops().contains(SyncOpView::EnsureTag { kanban_id, tag_name }) <==> exists|
            i: int,
            r: int,
        |
            0 <= i < input.issues.len() && 0 <= r < input.issues[i].labels@.len() && is_identifier(
                input,
                input.issues[i].number,
                kanban_id,
            ) && (#[trigger] input.issues[i].labels@[r]).name@ == tag_name,
{
    let op = SyncOpView::EnsureTag { kanban_id, tag_name };
    if input.ops().contains(op) {
        let i = lemma_issue_for(input, op);
        let issue = input.issues[i];
        let id = input.id_of(issue);
        lemma_id_of(input, i);
        assert(!input.own_ops(issue).contains(op));
        let r = choose|r: int|
            0 <= r < issue.labels@.len() && input.tag_op(id)(#[trigger] issue.labels@[r]).contains(
                op,
            );
        assert(input.issues[i].labels@[r].name@ == tag_name);
    }
    if exists|i: int, r: int|
        0 <= i < input.issues.len() && 0 <= r < input.issues[i].labels@.len() && is_identifier(
            input,
            input.issues[i].number,
            kanban_id,
        ) && (#[trigger] input.issues[i].labels@[r]).name@ == tag_name {
        let (i, r) = choose|i: int, r: int|
            0 <= i < input.issues.len() && 0 <= r < input.issues[i].labels@.len() && is_identifier(
                input,
                input.issues[i].number,
                kanban_id,
            ) && (#[trigger] input.issues[i].labels@[r]).name@ == tag_name;
        let issue = input.issues[i];
        lemma_id_of(input, i);
        let ops = input.tag_op(input.id_of(issue))(issue.labels@[r]);
        assert(ops[0] == op);
        assert(ops.contains(op));
        lemma_is_op(input, i, op);
    }
}

/// Exactly the comments of the snapshot that the board does not have yet are added, to their issue
/// and with their author and body.
pub proof fn law_new_comments_are_mirrored(
    input: PlanInput,
    kanban_id: Uuid,
    github_comment_id: u64,
    author_login: Seq<char>,
    body: Seq<char>,
)
    ensures
        input.ops().contains(
            SyncOpView::AddComment { kanban_id, github_comment_id, author_login, body },
        ) <==> !input.state.mirrored_comments@.contains(
            KanbanMirroredCommentRef { kanban_id, github_comment_id },
        ) && exists|i: int, r: int|
            0 <= i < input.issues.len() && 0 <= r < input.issues[i].mirror_comments@.len()
                && is_identifier(input, input.issues[i].number, kanban_id) && (
            #[trigger] input.issues[i].mirror_comments@[r]).github_comment_id == github_comment_id
                && input.issues[i].mirror_comments@[r].author_login@ == author_login
                && input.issues[i].mirror_comments@[r].body@ == body,
{
    let op = SyncOpView::AddComment { kanban_id, github_comment_id, author_login, body };
    if input.ops().contains(op) {
        let i = lemma_issue_for(input, op);
        let issue = input.issues[i];
        let id = input.id_of(issue);
        lemma_id_of(input, i);
        assert(!input.own_ops(issue).contains(op));
        let r = choose|r: int|
            0 <= r < issue.mirror_comments@.len() && input.comment_op(id)(
                #[trigger] issue.mirror_comments@[r],
            ).contains(op);
        assert(input.issues[i].mirror_comments@[r].github_comment_id == github_comment_id);
    }
    if !input.mirrored(kanban_id, github_comment_id) && exists|i: int, r: int|
        0 <= i < input.issues.len() && 0 <= r < input.issues[i].mirror_comments@.len()
            && is_identifier(input, input.issues[i].number, kanban_id) && (
        #[trigger] input.issues[i].mirror_comments@[r]).github_comment_id == github_comment_id
            && input.issues[i].mirror_comments@[r].author_login@ == author_login
            && input.issues[i].mirror_comments@[r].body@ == body {
        let (i, r) = choose|i: int, r: int|
            0 <= i < input.issues.len() && 0 <= r < input.issues[i].mirror_comments@.len()
                && is_identifier(input, input.issues[i].number, kanban_id) && (
            #[trigger] input.issues[i].mirror_comments@[r]).github_comment_id == github_comment_id
                && input.issues[i].mirror_comments@[r].author_login@ == author_login
                && input.issues[i].mirror_comments@[r].body@ == body;
        let issue = input.issues[i];
        lemma_id_of(input, i);
        let ops = input.comment_op(input.id_of(issue))(issue.mirror_comments@[r]);
        assert(ops[0] == op);
        assert(ops.contains(op));
        lemma_is_op(input, i, op);
    }
}

// ---------------------------------------------------------------------------
// What is reported
// ---------------------------------------------------------------------------

/// Exactly the numbers that some issue of the snapshot names as a sub-issue, a blocker or a
/// related issue, and that no issue of it has, are reported as unresolved.
pub proof fn law_unresolved_references_are_reported(input: PlanInput, plan: SyncPlan, number: u64)
    requires
        is_plan_for(plan, input),
    ensures
        plan.unresolved_github_refs@.contains(number) <==> !is_in_snapshot(input.issues, number) && {
            ||| exists|i: int, r: int|
                0 <= i < input.issues.len() && 0 <= r < input.issues[i].sub_issues@.len() && (
                #[trigger] input.issues[i].sub_issues@[r]).number == number
            ||| exists|i: int, r: int|
                0 <= i < input.issues.len() && 0 <= r < input.issues[i].blocked_by@.len() && (
                #[trigger] input.issues[i].blocked_by@[r]).number == number
            ||| exists|i: int, r: int|
                0 <= i < input.issues.len() && 0 <= r < input.issues[i].related_issues@.len() && (
                #[trigger] input.issues[i].related_issues@[r]).number == number
        },
        forall|i: int, j: int|
            0 <= i < j < plan.unresolved_github_refs@.len() ==> plan.unresolved_github_refs@[i]
                < plan.unresolved_github_refs@[j],
{
    let issues = input.issues;
    assert(is_in_snapshot(issues, number) == input.in_scope(number));
    if exists|i: int| 0 <= i < issues.len() && references(#[trigger] issues[i], number) {
        let i = choose|i: int| 0 <= i < issues.len() && references(#[trigger] issues[i], number);
        let issue = issues[i];
        if names(issue.sub_issues@, number) {
            let r = choose|r: int|
                0 <= r < issue.sub_issues@.len() && (#[trigger] issue.sub_issues@[r]).number
                    == number;
            assert(issues[i].sub_issues@[r].number == number);
        } else if names(issue.blocked_by@, number) {
            let r = choose|r: int|
                0 <= r < issue.blocked_by@.len() && (#[trigger] issue.blocked_by@[r]).number
                    == number;
            assert(issues[i].blocked_by@[r].number == number);
        } else {
            let r = choose|r: int|
                0 <= r < issue.related_issues@.len() && (
                #[trigger] issue.related_issues@[r]).number == number;
            assert(issues[i].related_issues@[r].number == number);
        }
    }
    if exists|i: int, r: int|
        0 <= i < issues.len() && 0 <= r < issues[i].sub_issues@.len() && (
        #[trigger] issues[i].sub_issues@[r]).number == number {
        let (i, r) = choose|i: int, r: int|
            0 <= i < issues.len() && 0 <= r < issues[i].sub_issues@.len() && (
            #[trigger] issues[i].sub_issues@[r]).number == number;
        assert(names(issues[i].sub_issues@, number));
        assert(references(issues[i], number));
    }
    if exists|i: int, r: int|
        0 <= i < issues.len() && 0 <= r < issues[i].blocked_by@.len() && (
        #[trigger] issues[i].blocked_by@[r]).number == number {
        let (i, r) = choose|i: int, r: int|
            0 <= i < issues.len() && 0 <= r < issues[i].blocked_by@.len() && (
            #[trigger] issues[i].blocked_by@[r]).number == number;
        assert(names(issues[i].blocked_by@, number));
        assert(references(issues[i], number));
    }
    if exists|i: int, r: int|
        0 <= i < issues.len() && 0 <= r < issues[i].related_issues@.len() && (
        #[trigger] issues[i].related_issues@[r]).number == number {
        let (i, r) = choose|i: int, r: int|
            0 <= i < issues.len() && 0 <= r < issues[i].related_issues@.len() && (
            #[trigger] issues[i].related_issues@[r]).number == number;
        assert(names(issues[i].related_issues@, number));
        assert(references(issues[i], number));
    }
}

/// Exactly the relations that could not be fetched are handed on as unsupported, each with its
/// issue, its kind and its reason, and each with a note; the standing note comes last.
pub proof fn law_unfetched_relations_are_handed_on(
    input: PlanInput,
    number: u64,
    kind: GitHubRelationKind,
    reason: Seq<char>,
)
    ensures
        input.unsupported().contains(
            UnsupportedSyncItemView::GitHubRelation { github_number: number, kind, reason },
        ) <==> exists|i: int, r: int|
            0 <= i < input.issues.len() && 0 <= r < input.issues[i].unsupported_relations@.len()
                && input.issues[i].number == number && (
            #[trigger] input.issues[i].unsupported_relations@[r]).kind == kind
                && input.issues[i].unsupported_relations@[r].reason@ == reason,
        input.notes().len() == input.unsupported().len() + 1,
        input.notes().last()
            == "TODO(#171): push-back from Kanban → GitHub (status, labels, assignees)"@,
        forall|i: int|
            0 <= i < input.unsupported().len() ==> {
                let note = #[trigger] input.notes()[i];
                input.unsupported()[i] matches UnsupportedSyncItemView::GitHubRelation {
                    github_number,
                    kind,
                    reason,
                } && note == "GitHub issue #"@ + decimal(github_number as nat) + " "@ + (match kind {
                    GitHubRelationKind::SubIssues => "SubIssues"@,
                    GitHubRelationKind::BlockedBy => "BlockedBy"@,
                    GitHubRelationKind::Related => "Related"@,
                    GitHubRelationKind::Comments => "Comments"@,
                }) + " needs manual sync: "@ + reason
            },
{
    let item = UnsupportedSyncItemView::GitHubRelation { github_number: number, kind, reason };
    let issues = input.issues;
    lemma_flat_map_contains(issues, unsupported_of(), item);
    if input.unsupported().contains(item) {
        let i = choose|i: int|
            0 <= i < issues.len() && unsupported_of()(#[trigger] issues[i]).contains(item);
        let relations = issues[i].unsupported_relations@;
        lemma_flat_map_contains(relations, unsupported_item(issues[i].number), item);
        let r = choose|r: int|
            0 <= r < relations.len() && unsupported_item(issues[i].number)(
                #[trigger] relations[r],
            ).contains(item);
        assert(issues[i].unsupported_relations@[r].kind == kind);
    }
    if exists|i: int, r: int|
        0 <= i < issues.len() && 0 <= r < issues[i].unsupported_relations@.len()
            && issues[i].number == number && (#[trigger] issues[i].unsupported_relations@[r]).kind
            == kind && issues[i].unsupported_relations@[r].reason@ == reason {
        let (i, r) = choose|i: int, r: int|
            0 <= i < issues.len() && 0 <= r < issues[i].unsupported_relations@.len()
                && issues[i].number == number && (
            #[trigger] issues[i].unsupported_relations@[r]).kind == kind
                && issues[i].unsupported_relations@[r].reason@ == reason;
        let relations = issues[i].unsupported_relations@;
        assert(unsupported_item(number)(relations[r])[0] == item);
        assert(unsupported_item(number)(relations[r]).contains(item));
        lemma_flat_map_contains(relations, unsupported_item(number), item);
        assert(unsupported_of()(issues[i]).contains(item));
    }
    lemma_notes(issues);
    assert forall|i: int| 0 <= i < input.unsupported().len() implies {
        let note = #[trigger] input.notes()[i];
        input.unsupported()[i] matches UnsupportedSyncItemView::GitHubRelation {
            github_number,
            kind,
            reason,
        } && note == "GitHub issue #"@ + decimal(github_number as nat) + " "@ + (match kind {
            GitHubRelationKind::SubIssues => "SubIssues"@,
            GitHubRelationKind::BlockedBy => "BlockedBy"@,
            GitHubRelationKind::Related => "Related"@,
            GitHubRelationKind::Comments => "Comments"@,
        }) + " needs manual sync: "@ + reason
    } by {
        assert(input.notes()[i] == issues.flat_map(notes_of())[i]);
        assert(is_note_for(issues.flat_map(unsupported_of())[i], issues.flat_map(notes_of())[i]));
    }
}

/// The note is that for the unsupported item.
spec fn is_note_for(item: UnsupportedSyncItemView, note: Seq<char>) -> bool {
    item matches UnsupportedSyncItemView::GitHubRelation { github_number, kind, reason } && note
        == "GitHub issue #"@ + decimal(github_number as nat) + " "@ + (match kind {
        GitHubRelationKind::SubIssues => "SubIssues"@,
        GitHubRelationKind::BlockedBy => "BlockedBy"@,
        GitHubRelationKind::Related => "Related"@,
        GitHubRelationKind::Comments => "Comments"@,
    }) + " needs manual sync: "@ + reason
}

/// Items and notes of one issue go together.
proof fn lemma_notes_of_relations(issue: GitHubIssue, count: int)
    requires
        0 <= count <= issue.unsupported_relations@.len(),
    ensures
        ({
            let relations = issue.unsupported_relations@.take(count);
            let items = relations.flat_map(unsupported_item(issue.number));
            let notes = relations.flat_map(unsupported_note(issue.number));
            &&& items.len() == notes.len()
            &&& forall|i: int|
                0 <= i < items.len() ==> is_note_for(#[trigger] items[i], notes[i])
        }),
    decreases count,
{
    let all = issue.unsupported_relations@;
    let f = unsupported_item(issue.number);
    let g = unsupported_note(issue.number);
    if count == 0 {
        assert(all.take(0).flat_map(f) =~= Seq::empty());
        assert(all.take(0).flat_map(g) =~= Seq::empty());
    } else {
        let last = count - 1;
        lemma_notes_of_relations(issue, last);
        all.lemma_flat_map_take_append(f, last);
        all.lemma_flat_map_take_append(g, last);
        assert(is_note_for(f(all[last])[0], g(all[last])[0]));
    }
}

/// Items and notes go together.
proof fn lemma_notes(issues: Seq<GitHubIssue>)
    ensures
        ({
            let items = issues.flat_map(unsupported_of());
            let notes = issues.flat_map(notes_of());
            &&& items.len() == notes.len()
            &&& forall|i: int|
                0 <= i < items.len() ==> is_note_for(#[trigger] items[i], notes[i])
        }),
    decreases issues.len(),
{
    let f = unsupported_of();
    let g = notes_of();
    if issues.len() == 0 {
        assert(issues.flat_map(f) =~= Seq::empty());
        assert(issues.flat_map(g) =~= Seq::empty());
    } else {
        let last = issues.len() - 1;
        let front = issues.take(last);
        lemma_notes(front);
        issues.lemma_flat_map_take_append(f, last);
        issues.lemma_flat_map_take_append(g, last);
        assert(issues.take(issues.len() as int) =~= issues);
        let issue = issues[last];
        let relations = issue.unsupported_relations@;
        lemma_notes_of_relations(issue, relations.len() as int);
        assert(relations.take(relations.len() as int) =~= relations);
        let a = front.flat_map(f);
        let b = front.flat_map(g);
        assert forall|i: int| 0 <= i < issues.flat_map(f).len() implies is_note_for(
            #[trigger] issues.flat_map(f)[i],
            issues.flat_map(g)[i],
        ) by {
            if i < a.len() {
                assert(is_note_for(a[i], b[i]));
            } else {
                assert(is_note_for(f(issue)[i - a.len()], g(issue)[i - a.len()]));
            }
        }
    }
}

// ---------------------------------------------------------------------------
// Requests
// ---------------------------------------------------------------------------

/// Each operation is executed by the request that it stands for: a new issue is created with its
/// reserved identifier, in the project and the status and at the place that the options give, under
/// its parent, and marked with its number and URL; a change changes one field of its issue and no
/// other; a relationship goes from the blocker to the blocked, or from an issue to what it names; a
/// comment carries its author, its body and its number; a tag is handed on as unsupported.
pub proof fn law_requests_execute_their_operations(
    ops: Seq<SyncOpView>,
    unsupported: Seq<UnsupportedSyncItemView>,
    options: PrepareSyncOptions,
    op: SyncOpView,
)
    requires
        ops.contains(op),
    ensures
        ({
            let actions = prepared_actions(ops, unsupported, options);
            match op {
                SyncOpView::CreateIssue {
                    kanban_id,
                    github_number,
                    github_url,
                    title,
                    description,
                    parent_kanban_id,
                } => exists|request: CreateIssueRequestView|
                    {
                        &&& #[trigger] actions.contains(
                            PreparedSyncActionView::CreateIssue(request),
                        )
                        &&& request.id == Some(kanban_id)
                        &&& request.project_id == options.project_id
                        &&& request.status_id == options.default_status_id
                        &&& request.sort_order == options.default_sort_order
                        &&& request.title == title
                        &&& request.description == description
                        &&& request.parent_issue_id == parent_kanban_id
                        &&& request.priority is None && request.start_date is None
                        &&& request.target_date is None && request.completed_at is None
                        &&& request.parent_issue_sort_order is None
                        &&& request.extension_metadata.member("github"@) matches Some(github)
                            && github.member("issue_number"@) == Some(
                            JsonView::Integer(github_number as i128),
                        ) && github.member("url"@) == Some(JsonView::Text(github_url)) && (
                        github.member("sync"@) matches Some(sync) && sync.member("source"@) == Some(
                            JsonView::Text("github"@),
                        ) && sync.member("mode"@) == Some(JsonView::Text("opt_in"@)))
                    },
                SyncOpView::UpdateTitle { kanban_id, new_title } => exists|
                    request: UpdateIssueRequestView,
                |
                    {
                        &&& #[trigger] actions.contains(
                            PreparedSyncActionView::UpdateIssue { issue_id: kanban_id, request },
                        )
                        &&& request.title == Some(new_title)
                        &&& request.description is None && request.parent_issue_id is None
                        &&& request.status_id is None && request.priority is None
                        &&& request.start_date is None && request.target_date is None
                        &&& request.completed_at is None && request.sort_order is None
                        &&& request.parent_issue_sort_order is None
                        &&& request.extension_metadata is None
                    },
                SyncOpView::UpdateDescription { kanban_id, new_description } => exists|
                    request: UpdateIssueRequestView,
                |
                    {
                        &&& #[trigger] actions.contains(
                            PreparedSyncActionView::UpdateIssue { issue_id: kanban_id, request },
                        )
                        &&& request.description == Some(new_description)
                        &&& request.title is None && request.parent_issue_id is None
                        &&& request.status_id is None && request.priority is None
                        &&& request.start_date is None && request.target_date is None
                        &&& request.completed_at is None && request.sort_order is None
                        &&& request.parent_issue_sort_order is None
                        &&& request.extension_metadata is None
                    },
                SyncOpView::LinkSubIssue { parent_kanban_id, child_kanban_id } => exists|
                    request: UpdateIssueRequestView,
                |
                    {
                        &&& #[trigger] actions.contains(
                            PreparedSyncActionView::UpdateIssue {
                                issue_id: child_kanban_id,
                                request,
                            },
                        )
                        &&& request.parent_issue_id == Some(Some(parent_kanban_id))
                        &&& request.title is None && request.description is None
                        &&& request.status_id is None && request.priority is None
                        &&& request.start_date is None && request.target_date is None
                        &&& request.completed_at is None && request.sort_order is None
                        &&& request.parent_issue_sort_order is None
                        &&& request.extension_metadata is None
                    },
                SyncOpView::AddBlockingRelationship { blocker_kanban_id, blocked_kanban_id } => {
                    actions.contains(
                        PreparedSyncActionView::CreateIssueRelationship(
                            CreateIssueRelationshipRequest {
                                id: None,
                                issue_id: blocker_kanban_id,
                                related_issue_id: blocked_kanban_id,
                                relationship_type: IssueRelationshipType::Blocking,
                            },
                        ),
                    )
                },
                SyncOpView::AddRelatedLink { from_kanban_id, to_kanban_id } => actions.contains(
                    PreparedSyncActionView::CreateIssueRelationship(
                        CreateIssueRelationshipRequest {
                            id: None,
                            issue_id: from_kanban_id,
                            related_issue_id: to_kanban_id,
                            relationship_type: IssueRelationshipType::Related,
                        },
                    ),
                ),
                SyncOpView::EnsureTag { kanban_id, tag_name } => exists|reason: Seq<char>|
                    #[trigger] actions.contains(
                        PreparedSyncActionView::Unsupported(
                            UnsupportedSyncItemView::Tags { kanban_id, tag_name, reason },
                        ),
                    ),
                SyncOpView::AddComment { kanban_id, github_comment_id, author_login, body } => {
                    exists|request: CreateIssueCommentRequestView|
                        {
                            &&& #[trigger] actions.contains(
                                PreparedSyncActionView::CreateIssueComment(request),
                            )
                            &&& request.issue_id == kanban_id
                            &&& request.id is None && request.parent_id is None
                            &&& request.message == "GitHub comment by @"@ + author_login + ":\n\n"@
                                + body + "\n\n<!-- "@ + "vibe-kanban-github-comment-id:"@ + decimal(
                                github_comment_id as nat,
                            ) + " -->"@
                        }
                },
            }
        }),
{
    let action = action_of(op, options);
    let actions = prepared_actions(ops, unsupported, options);
    law_every_operation_is_prepared(ops, unsupported, options, op);
    assert(actions.contains(action));
    match op {
        SyncOpView::CreateIssue { github_number, github_url, .. } => {
            lemma_metadata_members(github_number, github_url);
            assert(actions.contains(PreparedSyncActionView::CreateIssue(action->CreateIssue_0)));
        },
        SyncOpView::UpdateTitle { kanban_id, .. } => {
            assert(actions.contains(
                PreparedSyncActionView::UpdateIssue {
                    issue_id: kanban_id,
                    request: action->UpdateIssue_request,
                },
            ));
        },
        SyncOpView::UpdateDescription { kanban_id, .. } => {
            assert(actions.contains(
                PreparedSyncActionView::UpdateIssue {
                    issue_id: kanban_id,
                    request: action->UpdateIssue_request,
                },
            ));
        },
        SyncOpView::LinkSubIssue { child_kanban_id, .. } => {
            assert(actions.contains(
                PreparedSyncActionView::UpdateIssue {
                    issue_id: child_kanban_id,
                    request: action->UpdateIssue_request,
                },
            ));
        },
        SyncOpView::AddComment { .. } => {
            assert(actions.contains(
                PreparedSyncActionView::CreateIssueComment(action->CreateIssueComment_0),
            ));
        },
        _ => {},
    }
}

/// The number and the URL stand in the metadata of a new issue.
proof fn lemma_metadata_members(number: u64, url: Seq<char>)
    ensures
        github_metadata(number, url).member("github"@) matches Some(github) && github.member(
            "issue_number"@,
        ) == Some(JsonView::Integer(number as i128)) && github.member("url"@) == Some(
            JsonView::Text(url),
        ) && (github.member("sync"@) matches Some(sync) && sync.member("source"@) == Some(
            JsonView::Text("github"@),
        ) && sync.member("mode"@) == Some(JsonView::Text("opt_in"@))),
{
    reveal_strlit("issue_number");
    reveal_strlit("url");
    reveal_strlit("sync");
    reveal_strlit("source");
    reveal_strlit("mode");
    assert("issue_number"@.len() == 12 && "url"@.len() == 3 && "sync"@.len() == 4);
    assert("source"@.len() == 6 && "mode"@.len() == 4);
    reveal_with_fuel(first_member, 4);
    let inner = github_metadata(number, url)->Object_0[0].1;
    let members = inner->Object_0;
    assert(members.drop_first()[0] == members[1]);
    assert(members.drop_first().drop_first()[0] == members[2]);
    let marks = members[2].1->Object_0;
    assert(marks.drop_first()[0] == marks[1]);
}

/// The place of the kind of an action: issues, relationships, comments, what is not supported.
pub open spec fn rank(action: PreparedSyncActionView) -> int {
    match action {
        PreparedSyncActionView::CreateIssue(_) => 0,
        PreparedSyncActionView::UpdateIssue { .. } => 0,
        PreparedSyncActionView::CreateIssueRelationship(_) => 1,
        PreparedSyncActionView::CreateIssueComment(_) => 2,
        PreparedSyncActionView::Unsupported(_) => 3,
    }
}

/// Issues come before relationships, relationships before comments, and what is not supported
/// comes last.
pub proof fn law_kinds_come_in_order(
    ops: Seq<SyncOpView>,
    unsupported: Seq<UnsupportedSyncItemView>,
    options: PrepareSyncOptions,
    i: int,
    j: int,
)
    requires
        0 <= i < j < prepared_actions(ops, unsupported, options).len(),
    ensures
        rank(prepared_actions(ops, unsupported, options)[i]) <= rank(
            prepared_actions(ops, unsupported, options)[j],
        ),
{
    let a = phase_actions(ops, Phase::Issues, options);
    let b = phase_actions(ops, Phase::Relationships, options);
    let c = phase_actions(ops, Phase::Comments, options);
    let d = phase_actions(ops, Phase::Unsupported, options);
    let e = handed_on(unsupported);
    let all = prepared_actions(ops, unsupported, options);
    assert forall|k: int| 0 <= k < a.len() implies rank(#[trigger] a[k]) == 0 by {
        lemma_rank(ops, Phase::Issues, options, k);
    }
    assert forall|k: int| 0 <= k < b.len() implies rank(#[trigger] b[k]) == 1 by {
        lemma_rank(ops, Phase::Relationships, options, k);
    }
    assert forall|k: int| 0 <= k < c.len() implies rank(#[trigger] c[k]) == 2 by {
        lemma_rank(ops, Phase::Comments, options, k);
    }
    assert forall|k: int| 0 <= k < d.len() implies rank(#[trigger] d[k]) == 3 by {
        lemma_rank(ops, Phase::Unsupported, options, k);
    }
    assert forall|k: int| 0 <= k < all.len() implies #[trigger] all[k] == (if k < a.len() {
        a[k]
    } else if k < a.len() + b.len() {
        b[k - a.len()]
    } else if k < a.len() + b.len() + c.len() {
        c[k - a.len() - b.len()]
    } else if k < a.len() + b.len() + c.len() + d.len() {
        d[k - a.len() - b.len() - c.len()]
    } else {
        e[k - a.len() - b.len() - c.len() - d.len()]
    }) by {}
    assert(all[i] == all[i] && all[j] == all[j]);
}

/// The actions of a phase are of its kind.
proof fn lemma_rank(ops: Seq<SyncOpView>, phase: Phase, options: PrepareSyncOptions, k: int)
    requires
        0 <= k < phase_actions(ops, phase, options).len(),
    ensures
        rank(phase_actions(ops, phase, options)[k]) == (match phase {
            Phase::Issues => 0int,
            Phase::Relationships => 1,
            Phase::Comments => 2,
            Phase::Unsupported => 3,
        }),
{
    let actions = phase_actions(ops, phase, options);
    assert(actions.contains(actions[k]));
    lemma_flat_map_contains(ops, action_in(phase, options), actions[k]);
    let m = choose|m: int|
        0 <= m < ops.len() && action_in(phase, options)(#[trigger] ops[m]).contains(actions[k]);
    assert(actions[k] == action_of(ops[m], options));
    assert(phase_of(ops[m]) == phase);
}

} // verus!
