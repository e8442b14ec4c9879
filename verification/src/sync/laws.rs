//! What holds of every plan.
use vstd::prelude::*;

use crate::ids::Uuid;
#[allow(unused_imports)]
use crate::sync::comments::{comment_id_in, law_comment_id_round_trip, marker};
#[allow(unused_imports)]
use crate::sync::plan::{lemma_planned_in_scope, standing_note, PlanInput};
#[allow(unused_imports)]
use crate::sync::prepare::{
    action_in, action_of, handed_on, phase_actions, phase_of, prepared_actions, Phase,
    PrepareSyncOptions, PreparedSyncActionView,
};
#[allow(unused_imports)]
use crate::sync::types::{
    GitHubIssue, GitHubMirrorComment, KanbanRelationshipType, SyncOpView, UnsupportedSyncItemView,
};
#[allow(unused_imports)]
use crate::text::{contains_text, view_of_option};

verus! {

// ---------------------------------------------------------------------------
// Where an operation comes from
// ---------------------------------------------------------------------------

/// What is in one of the parts is in the whole, and what is in the whole is in one of the parts.
pub proof fn lemma_flat_map_contains<A, B>(items: Seq<A>, f: spec_fn(A) -> Seq<B>, x: B)
    ensures
        items.flat_map(f).contains(x) <==> exists|i: int|
            0 <= i < items.len() && f(#[trigger] items[i]).contains(x),
    decreases items.len(),
{
    if items.len() == 0 {
        assert(items.flat_map(f) =~= Seq::empty());
    } else {
        let last = items.len() - 1;
        let front = items.take(last);
        lemma_flat_map_contains(front, f, x);
        items.lemma_flat_map_take_append(f, last);
        assert(items.take(items.len() as int) =~= items);
        let a = front.flat_map(f);
        let b = f(items[last]);
        lemma_add_contains(a, b, x);
        if a.contains(x) {
            let i = choose|i: int| 0 <= i < front.len() && f(#[trigger] front[i]).contains(x);
            assert(f(items[i]).contains(x));
        }
        if exists|i: int| 0 <= i < items.len() && f(#[trigger] items[i]).contains(x) {
            let i = choose|i: int| 0 <= i < items.len() && f(#[trigger] items[i]).contains(x);
            if i < last {
                assert(f(front[i]).contains(x));
            }
        }
    }
}

/// What is in two lists one after the other is in one of them.
proof fn lemma_add_contains<B>(a: Seq<B>, b: Seq<B>, x: B)
    ensures
        (a + b).contains(x) <==> a.contains(x) || b.contains(x),
{
    if a.contains(x) {
        assert((a + b)[a.index_of(x)] == x);
    }
    if b.contains(x) {
        assert((a + b)[a.len() + b.index_of(x)] == x);
    }
    if (a + b).contains(x) {
        let k = (a + b).index_of(x);
        if k < a.len() {
            assert(a[k] == x);
        } else {
            assert(b[k - a.len()] == x);
        }
    }
}

/// `op` is one of the operations for `issue`.
pub open spec fn is_op_for(input: PlanInput, issue: GitHubIssue, op: SyncOpView) -> bool {
    let id = input.id_of(issue);
    ||| input.own_ops(issue).contains(op)
    ||| exists|i: int|
        0 <= i < issue.sub_issues@.len() && input.sub_issue_op(id)(
            #[trigger] issue.sub_issues@[i],
        ).contains(op)
    ||| exists|i: int|
        0 <= i < issue.blocked_by@.len() && input.blocker_op(id)(
            #[trigger] issue.blocked_by@[i],
        ).contains(op)
    ||| exists|i: int|
        0 <= i < issue.related_issues@.len() && input.related_op(id)(
            #[trigger] issue.related_issues@[i],
        ).contains(op)
    ||| exists|i: int|
        0 <= i < issue.labels@.len() && input.tag_op(id)(#[trigger] issue.labels@[i]).contains(op)
    ||| exists|i: int|
        0 <= i < issue.mirror_comments@.len() && input.comment_op(id)(
            #[trigger] issue.mirror_comments@[i],
        ).contains(op)
}

/// A plan holds the operations for its issues, and no others.
pub proof fn law_ops_come_from_issues(input: PlanInput, op: SyncOpView)
    ensures
        input.ops().contains(op) <==> exists|i: int|
            0 <= i < input.issues.len() && is_op_for(input, #[trigger] input.issues[i], op),
{
    lemma_flat_map_contains(input.issues, input.issue_ops(), op);
    assert forall|i: int| 0 <= i < input.issues.len() implies input.issue_ops()(
        #[trigger] input.issues[i],
    ).contains(op) == is_op_for(input, input.issues[i], op) by {
        let issue = input.issues[i];
        let id = input.id_of(issue);
        let own = input.own_ops(issue);
        let subs = issue.sub_issues@.flat_map(input.sub_issue_op(id));
        let blockers = issue.blocked_by@.flat_map(input.blocker_op(id));
        let peers = issue.related_issues@.flat_map(input.related_op(id));
        let tags = issue.labels@.flat_map(input.tag_op(id));
        let comments = issue.mirror_comments@.flat_map(input.comment_op(id));
        lemma_add_contains(own, subs, op);
        lemma_add_contains(own + subs, blockers, op);
        lemma_add_contains(own + subs + blockers, peers, op);
        lemma_add_contains(own + subs + blockers + peers, tags, op);
        lemma_add_contains(own + subs + blockers + peers + tags, comments, op);
        lemma_flat_map_contains(issue.sub_issues@, input.sub_issue_op(id), op);
        lemma_flat_map_contains(issue.blocked_by@, input.blocker_op(id), op);
        lemma_flat_map_contains(issue.related_issues@, input.related_op(id), op);
        lemma_flat_map_contains(issue.labels@, input.tag_op(id), op);
        lemma_flat_map_contains(issue.mirror_comments@, input.comment_op(id), op);
    }
    if input.ops().contains(op) {
        let i = choose|i: int|
            0 <= i < input.issues.len() && input.issue_ops()(#[trigger] input.issues[i]).contains(
                op,
            );
        assert(is_op_for(input, input.issues[i], op));
    }
    if exists|i: int| 0 <= i < input.issues.len() && is_op_for(input, #[trigger] input.issues[i], op) {
        let i = choose|i: int|
            0 <= i < input.issues.len() && is_op_for(input, #[trigger] input.issues[i], op);
        assert(input.issue_ops()(input.issues[i]).contains(op));
    }
}

/// The issue that an operation is for.
proof fn lemma_issue_of(input: PlanInput, op: SyncOpView) -> (i: int)
    requires
        input.ops().contains(op),
    ensures
        0 <= i < input.issues.len(),
        is_op_for(input, input.issues[i], op),
{
    law_ops_come_from_issues(input, op);
    choose|i: int|
        0 <= i < input.issues.len() && is_op_for(input, #[trigger] input.issues[i], op)
}

// ---------------------------------------------------------------------------
// Laws
// ---------------------------------------------------------------------------

/// An issue is created only where the board does not track it, under the identifier that is
/// planned for it, which all other operations use.
pub proof fn law_only_untracked_issues_are_created(input: PlanInput, op: SyncOpView)
    requires
        input.ops().contains(op),
    ensures
        op matches SyncOpView::CreateIssue { kanban_id, github_number, parent_kanban_id, .. } ==> {
            &&& input.existing(github_number) is None
            &&& input.in_scope(github_number)
            &&& input.planned(github_number) == Some(kanban_id)
            &&& parent_kanban_id == input.parent_id(github_number)
        },
{
    let i = lemma_issue_of(input, op);
    if op is CreateIssue {
        let number = input.issues[i].number;
        lemma_planned_in_scope(input, input.issues.len() as int, number);
        assert(input.in_scope(number));
    }
}

/// Every issue of the snapshot that the board does not track is created.
pub proof fn law_every_untracked_issue_is_created(input: PlanInput, i: int)
    requires
        0 <= i < input.issues.len(),
        input.existing(input.issues[i].number) is None,
    ensures
        input.ops().contains(
            SyncOpView::CreateIssue {
                kanban_id: input.id_of(input.issues[i]),
                github_number: input.issues[i].number,
                github_url: input.issues[i].url@,
                title: input.issues[i].title@,
                description: view_of_option(input.issues[i].body),
                parent_kanban_id: input.parent_id(input.issues[i].number),
            },
        ),
{
    let issue = input.issues[i];
    let op = SyncOpView::CreateIssue {
        kanban_id: input.id_of(issue),
        github_number: issue.number,
        github_url: issue.url@,
        title: issue.title@,
        description: view_of_option(issue.body),
        parent_kanban_id: input.parent_id(issue.number),
    };
    assert(input.own_ops(issue)[0] == op);
    assert(is_op_for(input, issue, op));
    law_ops_come_from_issues(input, op);
}

/// An issue that the board tracks keeps its identifier.
pub proof fn law_tracked_issues_keep_their_identifier(input: PlanInput, number: u64)
    requires
        input.in_scope(number),
        input.existing(number) is Some,
    ensures
        input.planned(number) == Some(input.existing(number)->0.id),
{
    lemma_planned_is_tracked(input, input.issues.len() as int, number);
    lemma_planned_in_scope(input, input.issues.len() as int, number);
}

/// What is planned for a tracked issue is what it has.
proof fn lemma_planned_is_tracked(input: PlanInput, count: int, number: u64)
    requires
        0 <= count <= input.issues.len(),
        input.existing(number) is Some,
    ensures
        input.planned_among(count, number) matches Some(id) ==> id == input.existing(number)->0.id,
    decreases count,
{
    if count > 0 {
        lemma_planned_is_tracked(input, count - 1, number);
    }
}

/// No relationship and no comment is added that the board already has.
pub proof fn law_nothing_is_mirrored_twice(input: PlanInput, op: SyncOpView)
    requires
        input.ops().contains(op),
    ensures
        op matches SyncOpView::AddBlockingRelationship { blocker_kanban_id, blocked_kanban_id }
            ==> !input.related(
            blocker_kanban_id,
            blocked_kanban_id,
            KanbanRelationshipType::Blocking,
        ),
        op matches SyncOpView::AddRelatedLink { from_kanban_id, to_kanban_id } ==> !input.related(
            from_kanban_id,
            to_kanban_id,
            KanbanRelationshipType::Related,
        ),
        op matches SyncOpView::AddComment { kanban_id, github_comment_id, .. } ==> !input.mirrored(
            kanban_id,
            github_comment_id,
        ),
{
    let i = lemma_issue_of(input, op);
}

/// No issue is linked as its own sub-issue.
pub proof fn law_sub_issue_links_join_two_issues(input: PlanInput, op: SyncOpView)
    requires
        input.ops().contains(op),
    ensures
        op matches SyncOpView::LinkSubIssue { parent_kanban_id, child_kanban_id }
            ==> parent_kanban_id != child_kanban_id,
{
    let i = lemma_issue_of(input, op);
}

/// The board agrees with `issue`: it tracks it under the same title and description, and has its
/// relationships and its comments.
pub open spec fn is_settled(input: PlanInput, issue: GitHubIssue) -> bool {
    &&& input.existing(issue.number) matches Some(kanban) && kanban.title@ == issue.title@
        && view_of_option(kanban.description) == view_of_option(issue.body)
    &&& forall|i: int|
        0 <= i < issue.blocked_by@.len() ==> {
            let blocker = #[trigger] issue.blocked_by@[i];
            input.planned(blocker.number) matches Some(id) ==> input.related(
                id,
                input.id_of(issue),
                KanbanRelationshipType::Blocking,
            )
        }
    &&& forall|i: int|
        0 <= i < issue.related_issues@.len() ==> {
            let peer = #[trigger] issue.related_issues@[i];
            input.planned(peer.number) matches Some(id) ==> input.related(
                input.id_of(issue),
                id,
                KanbanRelationshipType::Related,
            )
        }
    &&& forall|i: int|
        0 <= i < issue.mirror_comments@.len() ==> input.mirrored(
            input.id_of(issue),
            (#[trigger] issue.mirror_comments@[i]).github_comment_id,
        )
}

/// Planning again for a board that agrees with the snapshot writes nothing new: what is left are
/// sub-issue links and tags, which may be applied any number of times.
pub proof fn law_settled_board_needs_nothing_new(input: PlanInput, op: SyncOpView)
    requires
        input.ops().contains(op),
        forall|i: int|
            0 <= i < input.issues.len() ==> is_settled(input, #[trigger] input.issues[i]),
    ensures
        op is LinkSubIssue || op is EnsureTag,
{
    let i = lemma_issue_of(input, op);
    let issue = input.issues[i];
    let id = input.id_of(issue);
    assert(is_settled(input, issue));
    assert(input.own_ops(issue) =~= Seq::empty());
    if exists|k: int|
        0 <= k < issue.blocked_by@.len() && input.blocker_op(id)(
            #[trigger] issue.blocked_by@[k],
        ).contains(op) {
        let k = choose|k: int|
            0 <= k < issue.blocked_by@.len() && input.blocker_op(id)(
                #[trigger] issue.blocked_by@[k],
            ).contains(op);
        assert(input.blocker_op(id)(issue.blocked_by@[k]) =~= Seq::empty());
    }
    if exists|k: int|
        0 <= k < issue.related_issues@.len() && input.related_op(id)(
            #[trigger] issue.related_issues@[k],
        ).contains(op) {
        let k = choose|k: int|
            0 <= k < issue.related_issues@.len() && input.related_op(id)(
                #[trigger] issue.related_issues@[k],
            ).contains(op);
        assert(input.related_op(id)(issue.related_issues@[k]) =~= Seq::empty());
    }
    if exists|k: int|
        0 <= k < issue.mirror_comments@.len() && input.comment_op(id)(
            #[trigger] issue.mirror_comments@[k],
        ).contains(op) {
        let k = choose|k: int|
            0 <= k < issue.mirror_comments@.len() && input.comment_op(id)(
                #[trigger] issue.mirror_comments@[k],
            ).contains(op);
        assert(input.comment_op(id)(issue.mirror_comments@[k]) =~= Seq::empty());
    }
}

/// `after` is planned for the same snapshot on a board on which the plan for `before` has been
/// carried out: each issue stands there under its planned identifier as the snapshot has it, and
/// with what was there before stand the relationships and comments of the plan.
pub open spec fn is_carried_out(before: PlanInput, after: PlanInput) -> bool {
    &&& after.issues == before.issues
    &&& forall|i: int|
        0 <= i < before.issues.len() ==> {
            let issue = #[trigger] before.issues[i];
            after.existing(issue.number) matches Some(kanban) && before.planned(issue.number)
                == Some(kanban.id) && kanban.title@ == issue.title@ && view_of_option(
                kanban.description,
            ) == view_of_option(issue.body)
        }
    &&& forall|from: Uuid, to: Uuid, kind: KanbanRelationshipType|
        before.related(from, to, kind) ==> #[trigger] after.related(from, to, kind)
    &&& forall|id: Uuid, comment: u64|
        before.mirrored(id, comment) ==> #[trigger] after.mirrored(id, comment)
    &&& forall|from: Uuid, to: Uuid|
        before.ops().contains(
            SyncOpView::AddBlockingRelationship { blocker_kanban_id: from, blocked_kanban_id: to },
        ) ==> #[trigger] after.related(from, to, KanbanRelationshipType::Blocking)
    &&& forall|from: Uuid, to: Uuid|
        before.ops().contains(
            SyncOpView::AddRelatedLink { from_kanban_id: from, to_kanban_id: to },
        ) ==> #[trigger] after.related(from, to, KanbanRelationshipType::Related)
    &&& forall|id: Uuid, comment: GitHubMirrorComment|
        before.ops().contains(
            SyncOpView::AddComment {
                kanban_id: id,
                github_comment_id: comment.github_comment_id,
                author_login: comment.author_login@,
                body: comment.body@,
            },
        ) ==> #[trigger] after.mirrored(id, comment.github_comment_id)
}

/// An issue of the snapshot has the same identifier before and after a plan is carried out.
proof fn lemma_identifiers_last(before: PlanInput, after: PlanInput, number: u64)
    requires
        is_carried_out(before, after),
    ensures
        after.planned(number) == before.planned(number),
{
    let count = before.issues.len() as int;
    lemma_planned_in_scope(before, count, number);
    lemma_planned_in_scope(after, count, number);
    if before.planned(number) is Some {
        let i = choose|i: int|
            0 <= i < count && (#[trigger] before.issues[i]).number == number;
        assert(after.issues[i].number == number);
        assert(after.in_scope(number));
        law_tracked_issues_keep_their_identifier(after, number);
    }
}

/// Once a plan has been carried out, planning again for the same snapshot writes nothing new.
pub proof fn law_plan_that_is_carried_out_settles(
    before: PlanInput,
    after: PlanInput,
    op: SyncOpView,
)
    requires
        is_carried_out(before, after),
        after.ops().contains(op),
    ensures
        op is LinkSubIssue || op is EnsureTag,
{
    assert forall|i: int| 0 <= i < after.issues.len() implies is_settled(
        after,
        #[trigger] after.issues[i],
    ) by {
        let issue = after.issues[i];
        assert(before.issues[i] == issue);
        lemma_identifiers_last(before, after, issue.number);
        let id = before.id_of(issue);
        assert(after.id_of(issue) == id);
        assert forall|k: int| 0 <= k < issue.blocked_by@.len() implies {
            let blocker = #[trigger] issue.blocked_by@[k];
            after.planned(blocker.number) matches Some(other) ==> after.related(
                other,
                id,
                KanbanRelationshipType::Blocking,
            )
        } by {
            let blocker = issue.blocked_by@[k];
            lemma_identifiers_last(before, after, blocker.number);
            if let Some(other) = before.planned(blocker.number) {
                let added = SyncOpView::AddBlockingRelationship {
                    blocker_kanban_id: other,
                    blocked_kanban_id: id,
                };
                if !before.related(other, id, KanbanRelationshipType::Blocking) {
                    assert(before.blocker_op(id)(blocker)[0] == added);
                    assert(before.blocker_op(id)(blocker).contains(added));
                    assert(is_op_for(before, before.issues[i], added));
                    law_ops_come_from_issues(before, added);
                }
                assert(after.related(other, id, KanbanRelationshipType::Blocking));
            }
        }
        assert forall|k: int| 0 <= k < issue.related_issues@.len() implies {
            let peer = #[trigger] issue.related_issues@[k];
            after.planned(peer.number) matches Some(other) ==> after.related(
                id,
                other,
                KanbanRelationshipType::Related,
            )
        } by {
            let peer = issue.related_issues@[k];
            lemma_identifiers_last(before, after, peer.number);
            if let Some(other) = before.planned(peer.number) {
                let added = SyncOpView::AddRelatedLink { from_kanban_id: id, to_kanban_id: other };
                if !before.related(id, other, KanbanRelationshipType::Related) {
                    assert(before.related_op(id)(peer)[0] == added);
                    assert(before.related_op(id)(peer).contains(added));
                    assert(is_op_for(before, before.issues[i], added));
                    law_ops_come_from_issues(before, added);
                }
                assert(after.related(id, other, KanbanRelationshipType::Related));
            }
        }
        assert forall|k: int| 0 <= k < issue.mirror_comments@.len() implies after.mirrored(
            id,
            (#[trigger] issue.mirror_comments@[k]).github_comment_id,
        ) by {
            let comment = issue.mirror_comments@[k];
            let added = SyncOpView::AddComment {
                kanban_id: id,
                github_comment_id: comment.github_comment_id,
                author_login: comment.author_login@,
                body: comment.body@,
            };
            if !before.mirrored(id, comment.github_comment_id) {
                assert(before.comment_op(id)(comment)[0] == added);
                assert(before.comment_op(id)(comment).contains(added));
                assert(is_op_for(before, before.issues[i], added));
                law_ops_come_from_issues(before, added);
            }
            assert(after.mirrored(id, comment.github_comment_id));
        }
    }
    law_settled_board_needs_nothing_new(after, op);
}

/// Relationships are added between issues of the snapshot only: what is referenced but not part of
/// it is reported, not guessed.
pub proof fn law_relationships_stay_in_the_snapshot(input: PlanInput, op: SyncOpView)
    requires
        input.ops().contains(op),
    ensures
        op matches SyncOpView::AddBlockingRelationship { blocker_kanban_id, blocked_kanban_id }
            ==> is_planned_id(input, blocker_kanban_id) && is_planned_id(input, blocked_kanban_id),
        op matches SyncOpView::AddRelatedLink { from_kanban_id, to_kanban_id } ==> is_planned_id(
            input,
            from_kanban_id,
        ) && is_planned_id(input, to_kanban_id),
        op matches SyncOpView::AddComment { kanban_id, .. } ==> is_planned_id(input, kanban_id),
        op matches SyncOpView::EnsureTag { kanban_id, .. } ==> is_planned_id(input, kanban_id),
{
    let i = lemma_issue_of(input, op);
    let issue = input.issues[i];
    lemma_planned_in_scope(input, input.issues.len() as int, issue.number);
    assert(input.planned(issue.number) == Some(input.id_of(issue)));
    assert(is_planned_id(input, input.id_of(issue)));
}

/// `id` is the identifier of an issue of the snapshot.
pub open spec fn is_planned_id(input: PlanInput, id: Uuid) -> bool {
    exists|number: u64| #[trigger] input.planned(number) == Some(id)
}

/// Every plan ends with the standing note, so that its notes are never empty.
pub proof fn law_notes_are_never_empty(input: PlanInput)
    ensures
        input.notes().len() > 0,
        input.notes().last() == standing_note(),
{
}

/// A comment is prepared so that its GitHub comment id can be read back from it, and the comment
/// is recognised as mirrored when the board is read again. The first marker in a message decides:
/// the author and the body must not hold one themselves.
pub proof fn law_prepared_comments_carry_their_id(
    kanban_id: Uuid,
    github_comment_id: u64,
    author: Seq<char>,
    body: Seq<char>,
    options: PrepareSyncOptions,
)
    requires
        !contains_text(author + ":"@, marker()),
        !contains_text(body, marker()),
    ensures
        action_of(
            SyncOpView::AddComment { kanban_id, github_comment_id, author_login: author, body },
            options,
        ) matches PreparedSyncActionView::CreateIssueComment(request) && request.issue_id
            == kanban_id && comment_id_in(request.message) == Some(github_comment_id),
{
    law_comment_id_round_trip(github_comment_id, author, body);
}

/// Each operation and each unsupported item becomes one action.
pub proof fn law_nothing_is_lost_in_preparation(
    ops: Seq<SyncOpView>,
    unsupported: Seq<UnsupportedSyncItemView>,
    options: PrepareSyncOptions,
)
    ensures
        prepared_actions(ops, unsupported, options).len() == ops.len() + unsupported.len(),
{
    lemma_phase_lengths(ops, options);
}

/// The phases share out the operations among them.
proof fn lemma_phase_lengths(ops: Seq<SyncOpView>, options: PrepareSyncOptions)
    ensures
        phase_actions(ops, Phase::Issues, options).len() + phase_actions(
            ops,
            Phase::Relationships,
            options,
        ).len() + phase_actions(ops, Phase::Comments, options).len() + phase_actions(
            ops,
            Phase::Unsupported,
            options,
        ).len() == ops.len(),
    decreases ops.len(),
{
    if ops.len() == 0 {
        assert(phase_actions(ops, Phase::Issues, options) =~= Seq::empty());
        assert(phase_actions(ops, Phase::Relationships, options) =~= Seq::empty());
        assert(phase_actions(ops, Phase::Comments, options) =~= Seq::empty());
        assert(phase_actions(ops, Phase::Unsupported, options) =~= Seq::empty());
    } else {
        let last = ops.len() - 1;
        lemma_phase_lengths(ops.take(last), options);
        assert(ops.take(ops.len() as int) =~= ops);
        ops.lemma_flat_map_take_append(action_in(Phase::Issues, options), last);
        ops.lemma_flat_map_take_append(action_in(Phase::Relationships, options), last);
        ops.lemma_flat_map_take_append(action_in(Phase::Comments, options), last);
        ops.lemma_flat_map_take_append(action_in(Phase::Unsupported, options), last);
    }
}

/// Each operation is executed: its action is among the prepared ones.
pub proof fn law_every_operation_is_prepared(
    ops: Seq<SyncOpView>,
    unsupported: Seq<UnsupportedSyncItemView>,
    options: PrepareSyncOptions,
    op: SyncOpView,
)
    requires
        ops.contains(op),
    ensures
        prepared_actions(ops, unsupported, options).contains(action_of(op, options)),
{
    let action = action_of(op, options);
    let phase = phase_of(op);
    let k = ops.index_of(op);
    let one = action_in(phase, options)(ops[k]);
    assert(one[0] == action);
    assert(one.contains(action));
    lemma_flat_map_contains(ops, action_in(phase, options), action);
    let a = phase_actions(ops, Phase::Issues, options);
    let b = phase_actions(ops, Phase::Relationships, options);
    let c = phase_actions(ops, Phase::Comments, options);
    let d = phase_actions(ops, Phase::Unsupported, options);
    lemma_add_contains(a, b, action);
    lemma_add_contains(a + b, c, action);
    lemma_add_contains(a + b + c, d, action);
    lemma_add_contains(a + b + c + d, handed_on(unsupported), action);
}

/// Issues are created and changed before anything refers to them: no action on an issue comes
/// after an action on a relationship or a comment.
pub proof fn law_issues_come_first(
    ops: Seq<SyncOpView>,
    unsupported: Seq<UnsupportedSyncItemView>,
    options: PrepareSyncOptions,
    i: int,
    j: int,
)
    requires
        0 <= i < j < prepared_actions(ops, unsupported, options).len(),
        prepared_actions(ops, unsupported, options)[j] is CreateIssue || prepared_actions(
            ops,
            unsupported,
            options,
        )[j] is UpdateIssue,
    ensures
        prepared_actions(ops, unsupported, options)[i] is CreateIssue || prepared_actions(
            ops,
            unsupported,
            options,
        )[i] is UpdateIssue,
{
    let a = phase_actions(ops, Phase::Issues, options);
    let b = phase_actions(ops, Phase::Relationships, options);
    let c = phase_actions(ops, Phase::Comments, options);
    let d = phase_actions(ops, Phase::Unsupported, options);
    let e = handed_on(unsupported);
    let all = prepared_actions(ops, unsupported, options);
    if j >= a.len() {
        if j < a.len() + b.len() {
            assert(all[j] == b[j - a.len()]);
            lemma_phase_kind(ops, Phase::Relationships, options, j - a.len());
        } else if j < a.len() + b.len() + c.len() {
            assert(all[j] == c[j - a.len() - b.len()]);
            lemma_phase_kind(ops, Phase::Comments, options, j - a.len() - b.len());
        } else if j < a.len() + b.len() + c.len() + d.len() {
            assert(all[j] == d[j - a.len() - b.len() - c.len()]);
            lemma_phase_kind(ops, Phase::Unsupported, options, j - a.len() - b.len() - c.len());
        } else {
            assert(all[j] == e[j - a.len() - b.len() - c.len() - d.len()]);
        }
    }
    assert(all[i] == a[i]);
    lemma_phase_kind(ops, Phase::Issues, options, i);
}

/// The actions of a phase are of its kind.
proof fn lemma_phase_kind(
    ops: Seq<SyncOpView>,
    phase: Phase,
    options: PrepareSyncOptions,
    i: int,
)
    requires
        0 <= i < phase_actions(ops, phase, options).len(),
    ensures
        ({
            let action = phase_actions(ops, phase, options)[i];
            (action is CreateIssue || action is UpdateIssue) <==> phase is Issues
        }),
{
    let actions = phase_actions(ops, phase, options);
    let action = actions[i];
    assert(actions.contains(action));
    lemma_flat_map_contains(ops, action_in(phase, options), action);
    let k = choose|k: int|
        0 <= k < ops.len() && action_in(phase, options)(#[trigger] ops[k]).contains(action);
    assert(action == action_of(ops[k], options));
    assert(phase_of(ops[k]) == phase);
}

} // verus!
