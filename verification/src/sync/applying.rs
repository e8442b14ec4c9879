//! What a board is once a plan has been applied to it, and what planning again then gives.
use vstd::prelude::*;

use crate::ids::Uuid;
#[allow(unused_imports)]
use crate::sync::laws::{
    is_carried_out, is_op_for, law_ops_come_from_issues, law_plan_that_is_carried_out_settles,
};
#[allow(unused_imports)]
use crate::sync::plan::{
    is_plan_for, last_tracking, lemma_planned_in_scope, strictly_increasing, PlanInput,
};
#[allow(unused_imports)]
use crate::sync::types::{
    op_views, unsupported_views, GitHubIssue, GitHubMirrorComment, KanbanIssueRef, KanbanIssueView,
    KanbanMirroredCommentRef, KanbanRelationshipRef, KanbanRelationshipType, KanbanSyncStateView,
    SyncOpView, SyncPlan,
};
#[allow(unused_imports)]
use crate::text::{view_of_option, views_of};

verus! {

// ---------------------------------------------------------------------------
// Applying operations
// ---------------------------------------------------------------------------

/// An issue after an operation: it takes the title or the description that is meant for it.
pub open spec fn issue_after(issue: KanbanIssueView, op: SyncOpView) -> KanbanIssueView {
    match op {
        SyncOpView::UpdateTitle { kanban_id, new_title } if kanban_id == issue.id => {
            KanbanIssueView { title: new_title, ..issue }
        },
        SyncOpView::UpdateDescription { kanban_id, new_description } if kanban_id == issue.id => {
            KanbanIssueView { description: new_description, ..issue }
        },
        _ => issue,
    }
}

/// A board after one operation. Sub-issue links and tags are not part of what is known of it.
pub open spec fn applied_one(board: KanbanSyncStateView, op: SyncOpView) -> KanbanSyncStateView {
    match op {
        SyncOpView::CreateIssue { kanban_id, github_number, title, description, .. } => {
            KanbanSyncStateView {
                issues: board.issues.push(
                    KanbanIssueView {
                        id: kanban_id,
                        github_issue_number: Some(github_number),
                        title,
                        description,
                    },
                ),
                ..board
            }
        },
        SyncOpView::UpdateTitle { .. } | SyncOpView::UpdateDescription { .. } => {
            KanbanSyncStateView {
                issues: board.issues.map_values(|issue: KanbanIssueView| issue_after(issue, op)),
                ..board
            }
        },
        SyncOpView::AddBlockingRelationship { blocker_kanban_id, blocked_kanban_id } => {
            KanbanSyncStateView {
                relationships: board.relationships.push(
                    KanbanRelationshipRef {
                        from_kanban_id: blocker_kanban_id,
                        to_kanban_id: blocked_kanban_id,
                        relationship_type: KanbanRelationshipType::Blocking,
                    },
                ),
                ..board
            }
        },
        SyncOpView::AddRelatedLink { from_kanban_id, to_kanban_id } => {
            KanbanSyncStateView {
                relationships: board.relationships.push(
                    KanbanRelationshipRef {
                        from_kanban_id,
                        to_kanban_id,
                        relationship_type: KanbanRelationshipType::Related,
                    },
                ),
                ..board
            }
        },
        SyncOpView::AddComment { kanban_id, github_comment_id, .. } => {
            KanbanSyncStateView {
                mirrored_comments: board.mirrored_comments.push(
                    KanbanMirroredCommentRef { kanban_id, github_comment_id },
                ),
                ..board
            }
        },
        SyncOpView::LinkSubIssue { .. } | SyncOpView::EnsureTag { .. } => board,
    }
}

/// A board after the operations `ops`, one after the other.
pub open spec fn applied(board: KanbanSyncStateView, ops: Seq<SyncOpView>) -> KanbanSyncStateView
    decreases ops.len(),
{
    if ops.len() == 0 {
        board
    } else {
        applied_one(applied(board, ops.drop_last()), ops.last())
    }
}

/// No two issues of the snapshot have the same number.
pub open spec fn numbers_differ(issues: Seq<GitHubIssue>) -> bool {
    forall|i: int, j: int|
        0 <= i < j < issues.len() ==> (#[trigger] issues[i]).number != (
        #[trigger] issues[j]).number
}

/// No two issues of the board have the same identifier, and none has one that is in reserve for a
/// new issue.
pub open spec fn identifiers_differ(input: PlanInput) -> bool {
    let issues = input.state.issues@;
    &&& forall|i: int, j: int|
        0 <= i < j < issues.len() ==> (#[trigger] issues[i]).id != (#[trigger] issues[j]).id
    &&& forall|i: int, k: int|
        #![trigger input.fresh[i], issues[k]]
        0 <= i < input.issues.len() && 0 <= k < issues.len() && input.existing(
            input.issues[i].number,
        ) is None ==> input.fresh[i] != issues[k].id
}

/// `after` is planned for the same snapshot on the board of `before` with its operations applied.
pub open spec fn is_applied(before: PlanInput, after: PlanInput) -> bool {
    &&& after.issues == before.issues
    &&& after.state@ == applied(before.state@, before.ops())
}

// ---------------------------------------------------------------------------
// Lookups
// ---------------------------------------------------------------------------

/// The issue that tracks a number stands on the board, and none behind it tracks the number.
pub proof fn lemma_tracking_at(issues: Seq<KanbanIssueRef>, number: u64) -> (k: int)
    ensures
        last_tracking(issues, number) is Some ==> {
            &&& 0 <= k < issues.len()
            &&& last_tracking(issues, number) == Some(issues[k])
            &&& issues[k].github_issue_number == Some(number)
        },
        last_tracking(issues, number) is None ==> forall|i: int|
            0 <= i < issues.len() ==> (#[trigger] issues[i]).github_issue_number != Some(number),
        last_tracking(issues, number) is Some ==> forall|i: int|
            k < i < issues.len() ==> (#[trigger] issues[i]).github_issue_number != Some(number),
    decreases issues.len(),
{
    if issues.len() == 0 {
        0
    } else if issues.last().github_issue_number == Some(number) {
        issues.len() - 1
    } else {
        let front = issues.drop_last();
        let k = lemma_tracking_at(front, number);
        assert forall|i: int| 0 <= i < issues.len() - 1 implies #[trigger] issues[i]
            == front[i] by {}
        k
    }
}

/// A planned identifier is that of an issue of the snapshot with the number.
proof fn lemma_planned_at(input: PlanInput, count: int, number: u64) -> (i: int)
    requires
        0 <= count <= input.issues.len(),
        input.planned_among(count, number) is Some,
    ensures
        0 <= i < count,
        input.issues[i].number == number,
        input.planned_among(count, number) == Some(input.id_at(i)),
    decreases count,
{
    if input.issues[count - 1].number == number {
        count - 1
    } else {
        lemma_planned_at(input, count - 1, number)
    }
}

/// The identifier of a new issue is on no issue of the board.
proof fn lemma_new_identifier(input: PlanInput, i: int, k: int)
    requires
        identifiers_differ(input),
        0 <= i < input.issues.len(),
        0 <= k < input.state.issues@.len(),
        input.existing(input.issues[i].number) is None,
    ensures
        input.planned(input.issues[i].number) == Some(input.id_of(input.issues[i])),
        input.id_of(input.issues[i]) != input.state.issues@[k].id,
{
    let number = input.issues[i].number;
    let count = input.issues.len() as int;
    lemma_planned_in_scope(input, count, number);
    let at = lemma_planned_at(input, count, number);
    assert(input.fresh[at] != input.state.issues@[k].id);
}

/// The operation on an issue itself, and the issue of the snapshot that it is for.
proof fn lemma_own_op(input: PlanInput, op: SyncOpView) -> (i: int)
    requires
        input.ops().contains(op),
        op is CreateIssue || op is UpdateTitle || op is UpdateDescription,
    ensures
        0 <= i < input.issues.len(),
        input.own_ops(input.issues[i]).contains(op),
{
    law_ops_come_from_issues(input, op);
    choose|i: int|
        0 <= i < input.issues.len() && is_op_for(input, #[trigger] input.issues[i], op)
}

// ---------------------------------------------------------------------------
// What applying comes to
// ---------------------------------------------------------------------------

/// What a list holds is in front or is its last item.
proof fn lemma_contains_last<A>(items: Seq<A>, x: A)
    requires
        items.len() > 0,
    ensures
        items.contains(x) <==> items.drop_last().contains(x) || x == items.last(),
{
    let front = items.drop_last();
    if front.contains(x) {
        assert(items[front.index_of(x)] == x);
    }
    if x == items.last() {
        assert(items[items.len() - 1] == x);
    }
    if items.contains(x) && x != items.last() {
        assert(front[items.index_of(x)] == x);
    }
}

/// The relationship that an operation adds.
spec fn added_relationship(op: SyncOpView) -> Option<KanbanRelationshipRef> {
    match op {
        SyncOpView::AddBlockingRelationship { blocker_kanban_id, blocked_kanban_id } => Some(
            KanbanRelationshipRef {
                from_kanban_id: blocker_kanban_id,
                to_kanban_id: blocked_kanban_id,
                relationship_type: KanbanRelationshipType::Blocking,
            },
        ),
        SyncOpView::AddRelatedLink { from_kanban_id, to_kanban_id } => Some(
            KanbanRelationshipRef {
                from_kanban_id,
                to_kanban_id,
                relationship_type: KanbanRelationshipType::Related,
            },
        ),
        _ => None,
    }
}

/// The comment that an operation adds.
spec fn added_comment(op: SyncOpView) -> Option<KanbanMirroredCommentRef> {
    match op {
        SyncOpView::AddComment { kanban_id, github_comment_id, .. } => Some(
            KanbanMirroredCommentRef { kanban_id, github_comment_id },
        ),
        _ => None,
    }
}

/// What was on the board stays there, and what an operation adds is there.
proof fn lemma_applied_keeps_and_adds(
    board: KanbanSyncStateView,
    ops: Seq<SyncOpView>,
    relationship: KanbanRelationshipRef,
    comment: KanbanMirroredCommentRef,
    op: SyncOpView,
)
    ensures
        board.relationships.contains(relationship) ==> applied(board, ops).relationships.contains(
            relationship,
        ),
        board.mirrored_comments.contains(comment) ==> applied(
            board,
            ops,
        ).mirrored_comments.contains(comment),
        ops.contains(op) && added_relationship(op) == Some(relationship) ==> applied(
            board,
            ops,
        ).relationships.contains(relationship),
        ops.contains(op) && added_comment(op) == Some(comment) ==> applied(
            board,
            ops,
        ).mirrored_comments.contains(comment),
    decreases ops.len(),
{
    if ops.len() > 0 {
        let front = applied(board, ops.drop_last());
        let after = applied(board, ops);
        lemma_applied_keeps_and_adds(board, ops.drop_last(), relationship, comment, op);
        lemma_contains_last(ops, op);
        if front.relationships.contains(relationship) {
            let k = front.relationships.index_of(relationship);
            assert(after.relationships[k] == relationship);
        }
        if front.mirrored_comments.contains(comment) {
            let k = front.mirrored_comments.index_of(comment);
            assert(after.mirrored_comments[k] == comment);
        }
        if op == ops.last() && added_relationship(op) == Some(relationship) {
            assert(after.relationships[front.relationships.len() as int] == relationship);
        }
        if op == ops.last() && added_comment(op) == Some(comment) {
            assert(after.mirrored_comments[front.mirrored_comments.len() as int] == comment);
        }
    }
}

/// The issue at position `k` of the board is the one that tracks the issue at position `i` of the
/// snapshot.
spec fn is_tracker(input: PlanInput, i: int, k: int) -> bool {
    &&& 0 <= i < input.issues.len()
    &&& 0 <= k < input.state.issues@.len()
    &&& input.existing(input.issues[i].number) == Some(input.state.issues@[k])
    &&& input.state.issues@[k].github_issue_number == Some(input.issues[i].number)
}

/// `issue` is as the one at position `i` of the snapshot is created.
spec fn is_created(input: PlanInput, i: int, issue: KanbanIssueView) -> bool {
    &&& 0 <= i < input.issues.len()
    &&& input.existing(input.issues[i].number) is None
    &&& issue.id == input.id_of(input.issues[i])
    &&& issue.github_issue_number == Some(input.issues[i].number)
    &&& issue.title == input.issues[i].title@
    &&& issue.description == view_of_option(input.issues[i].body)
}

/// The operation that creates an issue.
spec fn create_op(input: PlanInput, issue: GitHubIssue) -> SyncOpView {
    SyncOpView::CreateIssue {
        kanban_id: input.id_of(issue),
        github_number: issue.number,
        github_url: issue.url@,
        title: issue.title@,
        description: view_of_option(issue.body),
        parent_kanban_id: input.parent_id(issue.number),
    }
}

/// The operation that brings the title of the issue `id` in line with `issue`.
spec fn title_op(id: Uuid, issue: GitHubIssue) -> SyncOpView {
    SyncOpView::UpdateTitle { kanban_id: id, new_title: issue.title@ }
}

/// The operation that brings the description of the issue `id` in line with `issue`.
spec fn description_op(id: Uuid, issue: GitHubIssue) -> SyncOpView {
    SyncOpView::UpdateDescription { kanban_id: id, new_description: view_of_option(issue.body) }
}

/// The issues at the positions that were there keep their identifiers and numbers.
spec fn keeps_issues(input: PlanInput, board: KanbanSyncStateView) -> bool {
    &&& board.issues.len() >= input.state.issues@.len()
    &&& forall|k: int|
        0 <= k < input.state.issues@.len() ==> {
            &&& (#[trigger] board.issues[k]).id == input.state.issues@[k].id
            &&& board.issues[k].github_issue_number == input.state.issues@[k].github_issue_number
        }
}

/// A tracked issue has the title and the description of the snapshot once the operation for it is
/// among `ops`, and its own or those of the snapshot before.
spec fn brings_in_line(
    input: PlanInput,
    board: KanbanSyncStateView,
    ops: Seq<SyncOpView>,
    i: int,
    k: int,
) -> bool {
    let issue = input.issues[i];
    let kanban = input.state.issues@[k];
    &&& board.issues[k].title == issue.title@ || (board.issues[k].title == kanban.title@
        && !ops.contains(title_op(kanban.id, issue)))
    &&& board.issues[k].description == view_of_option(issue.body) || (board.issues[k].description
        == view_of_option(kanban.description) && !ops.contains(description_op(kanban.id, issue)))
}

/// `issue` is as one of the snapshot is created.
spec fn comes_from_snapshot(input: PlanInput, issue: KanbanIssueView) -> bool {
    exists|i: int| is_created(input, i, issue)
}

/// An issue from position `from` on tracks the GitHub issue `number`.
spec fn tracks_from(board: KanbanSyncStateView, from: int, number: u64) -> bool {
    exists|k: int|
        from <= k < board.issues.len() && (#[trigger] board.issues[k]).github_issue_number == Some(
            number,
        )
}

/// The issues that are new on the board are as they are created, and those whose creation is among
/// `ops` are there.
spec fn adds_issues(input: PlanInput, board: KanbanSyncStateView, ops: Seq<SyncOpView>) -> bool {
    let count = input.state.issues@.len() as int;
    &&& forall|k: int|
        count <= k < board.issues.len() ==> comes_from_snapshot(input, #[trigger] board.issues[k])
    &&& forall|i: int|
        0 <= i < input.issues.len() && ops.contains(
            create_op(input, #[trigger] input.issues[i]),
        ) ==> tracks_from(board, count, input.issues[i].number)
}

/// What applying operations of a plan makes of the issues of its board.
proof fn lemma_applied_issues(input: PlanInput, ops: Seq<SyncOpView>)
    requires
        numbers_differ(input.issues),
        identifiers_differ(input),
        forall|k: int| 0 <= k < ops.len() ==> input.ops().contains(#[trigger] ops[k]),
    ensures
        keeps_issues(input, applied(input.state@, ops)),
        forall|i: int, k: int| #[trigger]
            is_tracker(input, i, k) ==> brings_in_line(
                input,
                applied(input.state@, ops),
                ops,
                i,
                k,
            ),
        adds_issues(input, applied(input.state@, ops), ops),
    decreases ops.len(),
{
    let board = applied(input.state@, ops);
    let count = input.state.issues@.len() as int;
    if ops.len() == 0 {
        assert(board.issues.len() == count);
    } else {
        let less = ops.drop_last();
        let front = applied(input.state@, less);
        let op = ops.last();
        assert forall|k: int| 0 <= k < less.len() implies input.ops().contains(
            #[trigger] less[k],
        ) by {
            assert(less[k] == ops[k]);
        }
        lemma_applied_issues(input, less);
        assert(input.ops().contains(ops[ops.len() - 1]));
        assert(board == applied_one(front, op));
        assert(keeps_issues(input, board));
        assert forall|i: int, k: int| #[trigger] is_tracker(input, i, k) implies brings_in_line(
            input,
            board,
            ops,
            i,
            k,
        ) by {
            assert(brings_in_line(input, front, less, i, k));
            lemma_step_in_line(input, front, less, op, i, k);
            assert(less.push(op) =~= ops);
        }
        lemma_step_adds(input, front, less, op);
        assert(less.push(op) =~= ops);
    }
}

/// One more operation leaves a tracked issue in line, or brings it there.
proof fn lemma_step_in_line(
    input: PlanInput,
    front: KanbanSyncStateView,
    less: Seq<SyncOpView>,
    op: SyncOpView,
    i: int,
    k: int,
)
    requires
        numbers_differ(input.issues),
        identifiers_differ(input),
        input.ops().contains(op),
        keeps_issues(input, front),
        is_tracker(input, i, k),
        brings_in_line(input, front, less, i, k),
    ensures
        brings_in_line(input, applied_one(front, op), less.push(op), i, k),
{
    let board = applied_one(front, op);
    let issue = input.issues[i];
    let kanban = input.state.issues@[k];
    let ops = less.push(op);
    assert(ops.drop_last() =~= less);
    lemma_contains_last(ops, title_op(kanban.id, issue));
    lemma_contains_last(ops, description_op(kanban.id, issue));
    if op is UpdateTitle || op is UpdateDescription {
        let j = lemma_own_op(input, op);
        let other = lemma_tracking_at(input.state.issues@, input.issues[j].number);
        let own = input.own_ops(input.issues[j]);
        let at = own.index_of(op);
        assert(own[at] == op);
        assert(is_tracker(input, j, other));
        assert(board.issues[k] == issue_after(front.issues[k], op));
        if other == k {
            assert(input.issues[j].number == issue.number);
            assert(i == j);
        } else {
            assert(input.state.issues@[other].id != kanban.id);
        }
    }
}

/// One more operation leaves the created issues as they are, or adds one.
proof fn lemma_step_adds(
    input: PlanInput,
    front: KanbanSyncStateView,
    less: Seq<SyncOpView>,
    op: SyncOpView,
)
    requires
        numbers_differ(input.issues),
        identifiers_differ(input),
        input.ops().contains(op),
        keeps_issues(input, front),
        adds_issues(input, front, less),
    ensures
        adds_issues(input, applied_one(front, op), less.push(op)),
{
    let board = applied_one(front, op);
    let count = input.state.issues@.len() as int;
    let ops = less.push(op);
    assert(ops.drop_last() =~= less);
    assert forall|k: int| count <= k < board.issues.len() implies comes_from_snapshot(
        input,
        #[trigger] board.issues[k],
    ) by {
        if k < front.issues.len() {
            assert(comes_from_snapshot(input, front.issues[k]));
            let i = choose|i: int| is_created(input, i, front.issues[k]);
            assert(is_created(input, i, front.issues[k]));
            if op is UpdateTitle || op is UpdateDescription {
                let j = lemma_own_op(input, op);
                let other = lemma_tracking_at(input.state.issues@, input.issues[j].number);
                let own = input.own_ops(input.issues[j]);
                assert(own[own.index_of(op)] == op);
                lemma_new_identifier(input, i, other);
                assert(board.issues[k] == issue_after(front.issues[k], op));
            }
            assert(is_created(input, i, board.issues[k]));
        } else {
            let i = lemma_own_op(input, op);
            let own = input.own_ops(input.issues[i]);
            assert(own[own.index_of(op)] == op);
            assert(is_created(input, i, board.issues[k]));
        }
    }
    assert forall|i: int|
        0 <= i < input.issues.len() && ops.contains(
            create_op(input, #[trigger] input.issues[i]),
        ) implies tracks_from(board, count, input.issues[i].number) by {
        let create = create_op(input, input.issues[i]);
        lemma_contains_last(ops, create);
        if less.contains(create) {
            assert(tracks_from(front, count, input.issues[i].number));
            let k = choose|k: int|
                count <= k < front.issues.len() && (
                #[trigger] front.issues[k]).github_issue_number == Some(input.issues[i].number);
            assert(board.issues[k].github_issue_number == Some(input.issues[i].number));
        } else {
            let k = front.issues.len() as int;
            assert(board.issues[k].github_issue_number == Some(input.issues[i].number));
        }
    }
}

// ---------------------------------------------------------------------------
// Laws
// ---------------------------------------------------------------------------

/// On the board with its operations applied, a plan is carried out.
pub proof fn law_applied_plan_is_carried_out(before: PlanInput, after: PlanInput)
    requires
        is_applied(before, after),
        numbers_differ(before.issues),
        identifiers_differ(before),
    ensures
        is_carried_out(before, after),
{
    let ops = before.ops();
    assert forall|i: int| 0 <= i < before.issues.len() implies {
        let issue = #[trigger] before.issues[i];
        after.existing(issue.number) matches Some(kanban) && before.planned(issue.number) == Some(
            kanban.id,
        ) && kanban.title@ == issue.title@ && view_of_option(kanban.description) == view_of_option(
            issue.body,
        )
    } by {
        lemma_issue_stands(before, after, i);
    }
    assert forall|from: Uuid, to: Uuid, kind: KanbanRelationshipType|
        before.related(from, to, kind) implies #[trigger] after.related(from, to, kind) by {
        let relationship = KanbanRelationshipRef {
            from_kanban_id: from,
            to_kanban_id: to,
            relationship_type: kind,
        };
        lemma_applied_keeps_and_adds(before.state@, ops, relationship, arbitrary(), arbitrary());
    }
    assert forall|id: Uuid, comment: u64| before.mirrored(id, comment) implies
        #[trigger] after.mirrored(id, comment) by {
        let mirrored = KanbanMirroredCommentRef { kanban_id: id, github_comment_id: comment };
        lemma_applied_keeps_and_adds(before.state@, ops, arbitrary(), mirrored, arbitrary());
    }
    assert forall|from: Uuid, to: Uuid|
        before.ops().contains(
            SyncOpView::AddBlockingRelationship { blocker_kanban_id: from, blocked_kanban_id: to },
        ) implies #[trigger] after.related(from, to, KanbanRelationshipType::Blocking) by {
        let op = SyncOpView::AddBlockingRelationship {
            blocker_kanban_id: from,
            blocked_kanban_id: to,
        };
        lemma_applied_keeps_and_adds(
            before.state@,
            ops,
            added_relationship(op)->0,
            arbitrary(),
            op,
        );
    }
    assert forall|from: Uuid, to: Uuid|
        before.ops().contains(
            SyncOpView::AddRelatedLink { from_kanban_id: from, to_kanban_id: to },
        ) implies #[trigger] after.related(from, to, KanbanRelationshipType::Related) by {
        let op = SyncOpView::AddRelatedLink { from_kanban_id: from, to_kanban_id: to };
        lemma_applied_keeps_and_adds(
            before.state@,
            ops,
            added_relationship(op)->0,
            arbitrary(),
            op,
        );
    }
    assert forall|id: Uuid, comment: GitHubMirrorComment|
        before.ops().contains(
            SyncOpView::AddComment {
                kanban_id: id,
                github_comment_id: comment.github_comment_id,
                author_login: comment.author_login@,
                body: comment.body@,
            },
        ) implies #[trigger] after.mirrored(id, comment.github_comment_id) by {
        let op = SyncOpView::AddComment {
            kanban_id: id,
            github_comment_id: comment.github_comment_id,
            author_login: comment.author_login@,
            body: comment.body@,
        };
        lemma_applied_keeps_and_adds(before.state@, ops, arbitrary(), added_comment(op)->0, op);
    }
}

/// An issue of the snapshot stands on the board as the snapshot has it.
proof fn lemma_issue_stands(before: PlanInput, after: PlanInput, i: int)
    requires
        is_applied(before, after),
        numbers_differ(before.issues),
        identifiers_differ(before),
        0 <= i < before.issues.len(),
    ensures
        after.existing(before.issues[i].number) matches Some(kanban) && before.planned(
            before.issues[i].number,
        ) == Some(kanban.id) && kanban.title@ == before.issues[i].title@ && view_of_option(
            kanban.description,
        ) == view_of_option(before.issues[i].body),
{
    let ops = before.ops();
    let board = applied(before.state@, ops);
    let issue = before.issues[i];
    let number = issue.number;
    let old_issues = before.state.issues@;
    let new_issues = after.state.issues@;
    let count = before.issues.len() as int;
    assert forall|k: int| 0 <= k < ops.len() implies before.ops().contains(#[trigger] ops[k]) by {}
    lemma_applied_issues(before, ops);
    assert(after.state@.issues.len() == new_issues.len());
    assert forall|k: int| 0 <= k < new_issues.len() implies (#[trigger] new_issues[k])@
        == board.issues[k] by {
        assert(after.state@.issues[k] == new_issues[k]@);
    }
    let was = lemma_tracking_at(old_issues, number);
    let is = lemma_tracking_at(new_issues, number);
    lemma_planned_in_scope(before, count, number);
    if before.existing(number) is Some {
        assert(is_tracker(before, i, was));
        assert(new_issues[was]@ == board.issues[was]);
        assert(new_issues[was].github_issue_number == Some(number));
        assert(was <= is);
        if is >= old_issues.len() {
            assert(new_issues[is]@ == board.issues[is]);
            assert(comes_from_snapshot(before, board.issues[is]));
            let j = choose|j: int| is_created(before, j, board.issues[is]);
            assert(is_created(before, j, board.issues[is]));
        } else if was < is {
            assert(new_issues[is]@ == board.issues[is]);
            assert(old_issues[is].github_issue_number == Some(number));
        }
        assert(is == was);
        let kanban = old_issues[was];
        let own = before.own_ops(issue);
        if kanban.title@ != issue.title@ {
            let op = title_op(kanban.id, issue);
            assert(own[0] == op);
            assert(is_op_for(before, before.issues[i], op));
            law_ops_come_from_issues(before, op);
        }
        if view_of_option(kanban.description) != view_of_option(issue.body) {
            let op = description_op(kanban.id, issue);
            assert(own[own.len() - 1] == op);
            assert(is_op_for(before, before.issues[i], op));
            law_ops_come_from_issues(before, op);
        }
        let at = lemma_planned_at(before, count, number);
    } else {
        let op = create_op(before, issue);
        assert(before.own_ops(issue)[0] == op);
        assert(is_op_for(before, before.issues[i], op));
        law_ops_come_from_issues(before, op);
        assert(tracks_from(board, old_issues.len() as int, number));
        let k = choose|k: int|
            old_issues.len() <= k < board.issues.len() && (
            #[trigger] board.issues[k]).github_issue_number == Some(number);
        assert(new_issues[k].github_issue_number == Some(number));
        assert(new_issues[is]@ == board.issues[is]);
        if is < old_issues.len() {
            assert(old_issues[is].github_issue_number == Some(number));
        }
        assert(comes_from_snapshot(before, board.issues[is]));
        let j = choose|j: int| is_created(before, j, board.issues[is]);
        assert(is_created(before, j, board.issues[is]));
        assert(before.issues[j].number == number);
        assert(i == j);
    }
}

/// What is referenced but not part of the snapshot does not depend on the board: it is the same
/// before and after a plan is carried out.
pub proof fn law_unresolved_references_stay(before: PlanInput, after: PlanInput, number: u64)
    requires
        after.issues == before.issues,
    ensures
        before.is_unresolved(number) == after.is_unresolved(number),
{
}

/// Increasing lists with the same numbers are the same.
proof fn lemma_increasing_lists_agree(a: Seq<u64>, b: Seq<u64>)
    requires
        strictly_increasing(a),
        strictly_increasing(b),
        forall|n: u64| #![trigger a.contains(n)] a.contains(n) == b.contains(n),
    ensures
        a == b,
    decreases a.len(),
{
    if a.len() == 0 {
        if b.len() > 0 {
            assert(b.contains(b[0]));
            assert(a.contains(b[0]));
        }
        assert(a =~= b);
    } else {
        assert(a.contains(a.last()));
        assert(b.len() > 0);
        assert(b.contains(b.last()));
        assert(a.contains(b.last()));
        let i = a.index_of(b.last());
        let j = b.index_of(a.last());
        assert(a[i] == b.last() && b[j] == a.last());
        assert(a.last() == b.last());
        let x = a.drop_last();
        let y = b.drop_last();
        assert forall|n: u64| #![trigger x.contains(n)] x.contains(n) == y.contains(n) by {
            lemma_contains_last(a, n);
            lemma_contains_last(b, n);
            assert(a.contains(n) == b.contains(n));
            if x.contains(n) {
                assert(a[x.index_of(n)] == n);
            }
            if y.contains(n) {
                assert(b[y.index_of(n)] == n);
            }
        }
        lemma_increasing_lists_agree(x, y);
        assert(x.push(a.last()) =~= a);
        assert(y.push(b.last()) =~= b);
    }
}

/// Planning again for the same snapshot once a plan has been applied to the board: nothing is
/// created, changed, related or commented a second time, and the unresolved references, the notes
/// and the unsupported items are those of the plan.
pub proof fn law_planning_again_writes_nothing_new(
    before: PlanInput,
    after: PlanInput,
    plan: SyncPlan,
    again: SyncPlan,
)
    requires
        numbers_differ(before.issues),
        identifiers_differ(before),
        is_plan_for(plan, before),
        after.issues == before.issues,
        after.state@ == applied(before.state@, op_views(plan.ops@)),
        is_plan_for(again, after),
    ensures
        forall|i: int|
            0 <= i < again.ops@.len() ==> (#[trigger] again.ops@[i])@ is LinkSubIssue
                || again.ops@[i]@ is EnsureTag,
        again.unresolved_github_refs@ == plan.unresolved_github_refs@,
        views_of(again.notes@) == views_of(plan.notes@),
        unsupported_views(again.unsupported@) == unsupported_views(plan.unsupported@),
{
    law_applied_plan_is_carried_out(before, after);
    assert forall|i: int| 0 <= i < again.ops@.len() implies (#[trigger] again.ops@[i])@
        is LinkSubIssue || again.ops@[i]@ is EnsureTag by {
        assert(op_views(again.ops@)[i] == again.ops@[i]@);
        assert(after.ops().contains(again.ops@[i]@));
        law_plan_that_is_carried_out_settles(before, after, again.ops@[i]@);
    }
    let a = plan.unresolved_github_refs@;
    let b = again.unresolved_github_refs@;
    assert forall|n: u64| #![trigger a.contains(n)] a.contains(n) == b.contains(n) by {
        law_unresolved_references_stay(before, after, n);
        assert(plan.unresolved_github_refs@.contains(n) <==> before.is_unresolved(n));
        assert(again.unresolved_github_refs@.contains(n) <==> after.is_unresolved(n));
    }
    lemma_increasing_lists_agree(a, b);
}

} // verus!
