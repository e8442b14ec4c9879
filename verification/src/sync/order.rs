//! The order in which a plan and its actions come, and how many there are of each.
use vstd::prelude::*;

use crate::ids::Uuid;
#[allow(unused_imports)]
use crate::sync::contents::{created, is_in_snapshot};
#[allow(unused_imports)]
use crate::sync::laws::lemma_flat_map_contains;
#[allow(unused_imports)]
use crate::sync::plan::PlanInput;
#[allow(unused_imports)]
use crate::sync::prepare::{
    action_in, action_of, prepared_actions, Phase, PrepareSyncOptions, PreparedSyncActionView,
};
#[allow(unused_imports)]
use crate::sync::types::{
    GitHubIssue, GitHubIssueRef, GitHubLabel, GitHubMirrorComment, KanbanMirroredCommentRef,
    KanbanRelationshipRef, KanbanRelationshipType, SyncOpView, UnsupportedSyncItemView,
};
#[allow(unused_imports)]
use crate::text::view_of_option;

verus! {

/// Functions that agree on the items gather the same.
proof fn lemma_flat_map_agrees<A, B>(
    items: Seq<A>,
    f: spec_fn(A) -> Seq<B>,
    g: spec_fn(A) -> Seq<B>,
)
    requires
        forall|i: int| 0 <= i < items.len() ==> f(#[trigger] items[i]) == g(items[i]),
    ensures
        items.flat_map(f) == items.flat_map(g),
    decreases items.len(),
{
    if items.len() == 0 {
        assert(items.flat_map(f) =~= items.flat_map(g));
    } else {
        let last = items.len() - 1;
        let front = items.take(last);
        assert forall|i: int| 0 <= i < front.len() implies f(#[trigger] front[i]) == g(
            front[i],
        ) by {
            assert(front[i] == items[i]);
        }
        lemma_flat_map_agrees(front, f, g);
        items.lemma_flat_map_take_append(f, last);
        items.lemma_flat_map_take_append(g, last);
        assert(items.take(items.len() as int) =~= items);
        assert(f(items[last]) == g(items[last]));
    }
}

/// What is kept of the whole is what is kept of the parts.
proof fn lemma_filter_flat_map<A, B>(
    items: Seq<A>,
    f: spec_fn(A) -> Seq<B>,
    class: spec_fn(B) -> bool,
    g: spec_fn(A) -> Seq<B>,
)
    requires
        forall|i: int|
            0 <= i < items.len() ==> f(#[trigger] items[i]).filter(class) == g(items[i]),
    ensures
        items.flat_map(f).filter(class) == items.flat_map(g),
    decreases items.len(),
{
    reveal(Seq::filter);
    if items.len() == 0 {
        assert(items.flat_map(f) =~= Seq::empty());
        assert(items.flat_map(g) =~= Seq::empty());
        assert(items.flat_map(f).filter(class) =~= Seq::empty());
    } else {
        let last = items.len() - 1;
        let front = items.take(last);
        assert forall|i: int| 0 <= i < front.len() implies f(#[trigger] front[i]).filter(class)
            == g(front[i]) by {
            assert(front[i] == items[i]);
        }
        lemma_filter_flat_map(front, f, class, g);
        items.lemma_flat_map_take_append(f, last);
        items.lemma_flat_map_take_append(g, last);
        assert(items.take(items.len() as int) =~= items);
        Seq::filter_distributes_over_add(front.flat_map(f), f(items[last]), class);
        assert(f(items[last]).filter(class) == g(items[last]));
    }
}

/// Gathering one thing for some of the items is keeping those and taking it of each.
proof fn lemma_flat_map_of_some<A, B>(
    items: Seq<A>,
    f: spec_fn(A) -> Seq<B>,
    class: spec_fn(A) -> bool,
    pick: spec_fn(A) -> B,
)
    requires
        forall|i: int|
            0 <= i < items.len() ==> f(#[trigger] items[i]) == (if class(items[i]) {
                seq![pick(items[i])]
            } else {
                Seq::empty()
            }),
    ensures
        items.flat_map(f) == items.filter(class).map_values(pick),
    decreases items.len(),
{
    reveal(Seq::filter);
    if items.len() == 0 {
        assert(items.flat_map(f) =~= Seq::empty());
        assert(items.filter(class).map_values(pick) =~= Seq::empty());
    } else {
        let last = items.len() - 1;
        let front = items.take(last);
        assert forall|i: int| 0 <= i < front.len() implies f(#[trigger] front[i]) == (if class(
            front[i],
        ) {
            seq![pick(front[i])]
        } else {
            Seq::empty()
        }) by {
            assert(front[i] == items[i]);
        }
        lemma_flat_map_of_some(front, f, class, pick);
        items.lemma_flat_map_take_append(f, last);
        assert(items.take(items.len() as int) =~= items);
        assert(items.drop_last() =~= front);
        assert(f(items[last]) == (if class(items[last]) {
            seq![pick(items[last])]
        } else {
            Seq::empty()
        }));
        assert(items.flat_map(f) =~= items.filter(class).map_values(pick));
    }
}

/// All is kept where all is of the class, and nothing where none is.
proof fn lemma_filter_all_or_none<B>(items: Seq<B>, class: spec_fn(B) -> bool)
    ensures
        (forall|i: int| 0 <= i < items.len() ==> class(#[trigger] items[i])) ==> items.filter(class)
            == items,
        (forall|i: int| 0 <= i < items.len() ==> !class(#[trigger] items[i])) ==> items.filter(
            class,
        ).len() == 0,
    decreases items.len(),
{
    reveal(Seq::filter);
    if items.len() > 0 {
        let front = items.drop_last();
        let last = items.len() - 1;
        lemma_filter_all_or_none(front, class);
        assert(forall|i: int| 0 <= i < front.len() ==> #[trigger] front[i] == items[i]);
        if forall|i: int| 0 <= i < items.len() ==> class(#[trigger] items[i]) {
            assert(class(items[last]));
            assert forall|i: int| 0 <= i < front.len() implies class(#[trigger] front[i]) by {
                assert(class(items[i]));
            }
            assert(front.push(items[last]) =~= items);
        }
        if forall|i: int| 0 <= i < items.len() ==> !class(#[trigger] items[i]) {
            assert(!class(items[last]));
            assert forall|i: int| 0 <= i < front.len() implies !class(#[trigger] front[i]) by {
                assert(!class(items[i]));
            }
        }
    } else {
        assert(items.filter(class) =~= items);
    }
}

/// The kinds of operations.
pub enum OpKind {
    Own,
    Link,
    Blocking,
    Related,
    Tag,
    Comment,
}

/// The kind of an operation.
pub open spec fn kind_of(op: SyncOpView) -> OpKind {
    match op {
        SyncOpView::CreateIssue { .. } => OpKind::Own,
        SyncOpView::UpdateTitle { .. } => OpKind::Own,
        SyncOpView::UpdateDescription { .. } => OpKind::Own,
        SyncOpView::LinkSubIssue { .. } => OpKind::Link,
        SyncOpView::AddBlockingRelationship { .. } => OpKind::Blocking,
        SyncOpView::AddRelatedLink { .. } => OpKind::Related,
        SyncOpView::EnsureTag { .. } => OpKind::Tag,
        SyncOpView::AddComment { .. } => OpKind::Comment,
    }
}

/// The class of operations of a kind.
pub open spec fn of_kind(kind: OpKind) -> spec_fn(SyncOpView) -> bool {
    |op: SyncOpView| kind_of(op) == kind
}

/// The part of the operations for an issue that is of a kind.
spec fn part_of(input: PlanInput, kind: OpKind) -> spec_fn(GitHubIssue) -> Seq<SyncOpView> {
    |issue: GitHubIssue|
        {
            let id = input.id_of(issue);
            match kind {
                OpKind::Own => input.own_ops(issue),
                OpKind::Link => issue.sub_issues@.flat_map(input.sub_issue_op(id)),
                OpKind::Blocking => issue.blocked_by@.flat_map(input.blocker_op(id)),
                OpKind::Related => issue.related_issues@.flat_map(input.related_op(id)),
                OpKind::Tag => issue.labels@.flat_map(input.tag_op(id)),
                OpKind::Comment => issue.mirror_comments@.flat_map(input.comment_op(id)),
            }
        }
}

/// All operations that are gathered are of the kind.
proof fn lemma_part_is_of_kind<A>(
    items: Seq<A>,
    f: spec_fn(A) -> Seq<SyncOpView>,
    kind: OpKind,
    wanted: OpKind,
)
    requires
        forall|i: int, op: SyncOpView|
            0 <= i < items.len() && #[trigger] f(items[i]).contains(op) ==> kind_of(op) == kind,
    ensures
        items.flat_map(f).filter(of_kind(wanted)) == if wanted == kind {
            items.flat_map(f)
        } else {
            Seq::empty()
        },
{
    let all = items.flat_map(f);
    assert forall|k: int| 0 <= k < all.len() implies kind_of(#[trigger] all[k]) == kind by {
        assert(all.contains(all[k]));
        lemma_flat_map_contains(items, f, all[k]);
        let i = choose|i: int| 0 <= i < items.len() && f(#[trigger] items[i]).contains(all[k]);
        assert(f(items[i]).contains(all[k]));
    }
    lemma_filter_all_or_none(all, of_kind(wanted));
    if wanted == kind {
        assert(forall|k: int| 0 <= k < all.len() ==> of_kind(wanted)(#[trigger] all[k]));
    } else {
        assert(forall|k: int| 0 <= k < all.len() ==> !of_kind(wanted)(#[trigger] all[k]));
        assert(all.filter(of_kind(wanted)) =~= Seq::empty());
    }
}

/// What is kept of six lists is kept of each.
proof fn lemma_filter_six(
    a: Seq<SyncOpView>,
    b: Seq<SyncOpView>,
    c: Seq<SyncOpView>,
    d: Seq<SyncOpView>,
    e: Seq<SyncOpView>,
    f: Seq<SyncOpView>,
    class: spec_fn(SyncOpView) -> bool,
)
    ensures
        (a + b + c + d + e + f).filter(class) == a.filter(class) + b.filter(class) + c.filter(class)
            + d.filter(class) + e.filter(class) + f.filter(class),
{
    Seq::filter_distributes_over_add(a, b, class);
    Seq::filter_distributes_over_add(a + b, c, class);
    Seq::filter_distributes_over_add(a + b + c, d, class);
    Seq::filter_distributes_over_add(a + b + c + d, e, class);
    Seq::filter_distributes_over_add(a + b + c + d + e, f, class);
}

/// Of six lists only one is left where the others are empty.
proof fn lemma_one_of_six(
    a: Seq<SyncOpView>,
    b: Seq<SyncOpView>,
    c: Seq<SyncOpView>,
    d: Seq<SyncOpView>,
    e: Seq<SyncOpView>,
    f: Seq<SyncOpView>,
    one: Seq<SyncOpView>,
)
    requires
        one.len() == a.len() + b.len() + c.len() + d.len() + e.len() + f.len(),
        one == a || one == b || one == c || one == d || one == e || one == f,
    ensures
        a + b + c + d + e + f == one,
{
    assert(a + b + c + d + e + f =~= one);
}

/// The operations on an issue itself are of their kind.
proof fn lemma_own_part(input: PlanInput, issue: GitHubIssue, kind: OpKind)
    ensures
        input.own_ops(issue).filter(of_kind(kind)) == if kind == OpKind::Own {
            input.own_ops(issue)
        } else {
            Seq::empty()
        },
{
    let own = input.own_ops(issue);
    let class = of_kind(kind);
    assert(forall|k: int| 0 <= k < own.len() ==> kind_of(#[trigger] own[k]) == OpKind::Own);
    lemma_filter_all_or_none(own, class);
    if kind == OpKind::Own {
        assert(forall|k: int| 0 <= k < own.len() ==> class(#[trigger] own[k]));
    } else {
        assert(forall|k: int| 0 <= k < own.len() ==> !class(#[trigger] own[k]));
        assert(own.filter(class) =~= Seq::empty());
    }
}

/// The references of an issue lead to operations of their kinds.
proof fn lemma_reference_parts(input: PlanInput, issue: GitHubIssue, id: Uuid, kind: OpKind)
    ensures
        ({
            let none = Seq::<SyncOpView>::empty();
            let subs = issue.sub_issues@.flat_map(input.sub_issue_op(id));
            let blockers = issue.blocked_by@.flat_map(input.blocker_op(id));
            let peers = issue.related_issues@.flat_map(input.related_op(id));
            &&& subs.filter(of_kind(kind)) == if kind == OpKind::Link {
                subs
            } else {
                none
            }
            &&& blockers.filter(of_kind(kind)) == if kind == OpKind::Blocking {
                blockers
            } else {
                none
            }
            &&& peers.filter(of_kind(kind)) == if kind == OpKind::Related {
                peers
            } else {
                none
            }
        }),
{
    lemma_part_is_of_kind(issue.sub_issues@, input.sub_issue_op(id), OpKind::Link, kind);
    lemma_part_is_of_kind(issue.blocked_by@, input.blocker_op(id), OpKind::Blocking, kind);
    lemma_part_is_of_kind(issue.related_issues@, input.related_op(id), OpKind::Related, kind);
}

/// Labels and comments of an issue lead to operations of their kinds.
proof fn lemma_other_parts(input: PlanInput, issue: GitHubIssue, id: Uuid, kind: OpKind)
    ensures
        ({
            let none = Seq::<SyncOpView>::empty();
            let tags = issue.labels@.flat_map(input.tag_op(id));
            let comments = issue.mirror_comments@.flat_map(input.comment_op(id));
            &&& tags.filter(of_kind(kind)) == if kind == OpKind::Tag {
                tags
            } else {
                none
            }
            &&& comments.filter(of_kind(kind)) == if kind == OpKind::Comment {
                comments
            } else {
                none
            }
        }),
{
    lemma_part_is_of_kind(issue.labels@, input.tag_op(id), OpKind::Tag, kind);
    lemma_part_is_of_kind(issue.mirror_comments@, input.comment_op(id), OpKind::Comment, kind);
}

/// What is kept of the operations for an issue is its part of the kind.
proof fn lemma_issue_part(input: PlanInput, issue: GitHubIssue, kind: OpKind)
    ensures
        input.issue_ops()(issue).filter(of_kind(kind)) == part_of(input, kind)(issue),
{
    let id = input.id_of(issue);
    let a = input.own_ops(issue);
    let b = issue.sub_issues@.flat_map(input.sub_issue_op(id));
    let c = issue.blocked_by@.flat_map(input.blocker_op(id));
    let d = issue.related_issues@.flat_map(input.related_op(id));
    let e = issue.labels@.flat_map(input.tag_op(id));
    let f = issue.mirror_comments@.flat_map(input.comment_op(id));
    let class = of_kind(kind);
    lemma_own_part(input, issue, kind);
    lemma_reference_parts(input, issue, id, kind);
    lemma_other_parts(input, issue, id, kind);
    lemma_filter_six(a, b, c, d, e, f, class);
    lemma_one_of_six(
        a.filter(class),
        b.filter(class),
        c.filter(class),
        d.filter(class),
        e.filter(class),
        f.filter(class),
        part_of(input, kind)(issue),
    );
}

/// What is kept of a plan are the parts of its issues of the kind.
proof fn lemma_plan_part(input: PlanInput, kind: OpKind)
    ensures
        input.ops().filter(of_kind(kind)) == input.issues.flat_map(part_of(input, kind)),
{
    assert forall|i: int| 0 <= i < input.issues.len() implies input.issue_ops()(
        #[trigger] input.issues[i],
    ).filter(of_kind(kind)) == part_of(input, kind)(input.issues[i]) by {
        lemma_issue_part(input, input.issues[i], kind);
    }
    lemma_filter_flat_map(
        input.issues,
        input.issue_ops(),
        of_kind(kind),
        part_of(input, kind),
    );
}

/// Issues come in the order of the snapshot, each once: one that the board does not track is
/// created by a single operation; of one that it tracks, the title and then the description are
/// changed, as far as they differ.
pub proof fn law_issues_come_in_order(input: PlanInput)
    ensures
        input.ops().filter(
            |op: SyncOpView|
                op is CreateIssue || op is UpdateTitle || op is UpdateDescription,
        ) == input.issues.flat_map(
            |issue: GitHubIssue|
                match input.existing(issue.number) {
                    None => seq![
                        created(
                            input.id_of(issue),
                            issue.number,
                            issue.url@,
                            issue.title@,
                            view_of_option(issue.body),
                            input.parent_id(issue.number),
                        ),
                    ],
                    Some(kanban) => {
                        let title = SyncOpView::UpdateTitle {
                            kanban_id: kanban.id,
                            new_title: issue.title@,
                        };
                        let description = SyncOpView::UpdateDescription {
                            kanban_id: kanban.id,
                            new_description: view_of_option(issue.body),
                        };
                        let other_title = kanban.title@ != issue.title@;
                        let other_description = view_of_option(kanban.description)
                            != view_of_option(issue.body);
                        if other_title && other_description {
                            seq![title, description]
                        } else if other_title {
                            seq![title]
                        } else if other_description {
                            seq![description]
                        } else {
                            Seq::empty()
                        }
                    },
                },
        ),
{
    let class = |op: SyncOpView| op is CreateIssue || op is UpdateTitle || op is UpdateDescription;
    let told = |issue: GitHubIssue|
        match input.existing(issue.number) {
            None => seq![
                created(
                    input.id_of(issue),
                    issue.number,
                    issue.url@,
                    issue.title@,
                    view_of_option(issue.body),
                    input.parent_id(issue.number),
                ),
            ],
            Some(kanban) => {
                let title = SyncOpView::UpdateTitle {
                    kanban_id: kanban.id,
                    new_title: issue.title@,
                };
                let description = SyncOpView::UpdateDescription {
                    kanban_id: kanban.id,
                    new_description: view_of_option(issue.body),
                };
                let other_title = kanban.title@ != issue.title@;
                let other_description = view_of_option(kanban.description) != view_of_option(
                    issue.body,
                );
                if other_title && other_description {
                    seq![title, description]
                } else if other_title {
                    seq![title]
                } else if other_description {
                    seq![description]
                } else {
                    Seq::empty()
                }
            },
        };
    assert(class =~= of_kind(OpKind::Own));
    lemma_plan_part(input, OpKind::Own);
    assert forall|i: int| 0 <= i < input.issues.len() implies part_of(input, OpKind::Own)(
        #[trigger] input.issues[i],
    ) == told(input.issues[i]) by {
        assert(part_of(input, OpKind::Own)(input.issues[i]) =~= told(input.issues[i]));
    }
    lemma_flat_map_agrees(input.issues, part_of(input, OpKind::Own), told);
}

/// Tags come in the order of the snapshot, one for each label.
pub proof fn law_tags_come_in_order(input: PlanInput)
    ensures
        input.ops().filter(|op: SyncOpView| op is EnsureTag) == input.issues.flat_map(
            |issue: GitHubIssue|
                issue.labels@.map_values(
                    |label: GitHubLabel|
                        SyncOpView::EnsureTag {
                            kanban_id: input.id_of(issue),
                            tag_name: label.name@,
                        },
                ),
        ),
{
    let class = |op: SyncOpView| op is EnsureTag;
    let told = |issue: GitHubIssue|
        issue.labels@.map_values(
            |label: GitHubLabel|
                SyncOpView::EnsureTag { kanban_id: input.id_of(issue), tag_name: label.name@ },
        );
    assert(class =~= of_kind(OpKind::Tag));
    lemma_plan_part(input, OpKind::Tag);
    assert forall|i: int| 0 <= i < input.issues.len() implies part_of(input, OpKind::Tag)(
        #[trigger] input.issues[i],
    ) == told(input.issues[i]) by {
        let issue = input.issues[i];
        let id = input.id_of(issue);
        let every = |label: GitHubLabel| true;
        let pick = |label: GitHubLabel|
            SyncOpView::EnsureTag { kanban_id: id, tag_name: label.name@ };
        lemma_flat_map_of_some(issue.labels@, input.tag_op(id), every, pick);
        lemma_filter_all_or_none(issue.labels@, every);
        assert(issue.labels@.map_values(pick) =~= told(issue));
    }
    lemma_flat_map_agrees(input.issues, part_of(input, OpKind::Tag), told);
}

/// Comments come in the order of the snapshot, one operation for each that the board does not have.
pub proof fn law_comments_come_in_order(input: PlanInput)
    ensures
        input.ops().filter(|op: SyncOpView| op is AddComment) == input.issues.flat_map(
            |issue: GitHubIssue|
                issue.mirror_comments@.filter(
                    |comment: GitHubMirrorComment|
                        !input.state.mirrored_comments@.contains(
                            KanbanMirroredCommentRef {
                                kanban_id: input.id_of(issue),
                                github_comment_id: comment.github_comment_id,
                            },
                        ),
                ).map_values(
                    |comment: GitHubMirrorComment|
                        SyncOpView::AddComment {
                            kanban_id: input.id_of(issue),
                            github_comment_id: comment.github_comment_id,
                            author_login: comment.author_login@,
                            body: comment.body@,
                        },
                ),
        ),
{
    let class = |op: SyncOpView| op is AddComment;
    let told = |issue: GitHubIssue|
        issue.mirror_comments@.filter(
            |comment: GitHubMirrorComment|
                !input.state.mirrored_comments@.contains(
                    KanbanMirroredCommentRef {
                        kanban_id: input.id_of(issue),
                        github_comment_id: comment.github_comment_id,
                    },
                ),
        ).map_values(
            |comment: GitHubMirrorComment|
                SyncOpView::AddComment {
                    kanban_id: input.id_of(issue),
                    github_comment_id: comment.github_comment_id,
                    author_login: comment.author_login@,
                    body: comment.body@,
                },
        );
    assert(class =~= of_kind(OpKind::Comment));
    lemma_plan_part(input, OpKind::Comment);
    assert forall|i: int| 0 <= i < input.issues.len() implies part_of(input, OpKind::Comment)(
        #[trigger] input.issues[i],
    ) == told(input.issues[i]) by {
        let issue = input.issues[i];
        let id = input.id_of(issue);
        let fresh = |comment: GitHubMirrorComment|
            !input.state.mirrored_comments@.contains(
                KanbanMirroredCommentRef {
                    kanban_id: input.id_of(issue),
                    github_comment_id: comment.github_comment_id,
                },
            );
        let pick = |comment: GitHubMirrorComment|
            SyncOpView::AddComment {
                kanban_id: input.id_of(issue),
                github_comment_id: comment.github_comment_id,
                author_login: comment.author_login@,
                body: comment.body@,
            };
        lemma_flat_map_of_some(issue.mirror_comments@, input.comment_op(id), fresh, pick);
    }
    lemma_flat_map_agrees(input.issues, part_of(input, OpKind::Comment), told);
}

/// Relationships and links come in the order of the snapshot, one operation for each reference that
/// needs one.
pub proof fn law_references_come_in_order(input: PlanInput)
    ensures
        input.ops().filter(|op: SyncOpView| op is AddBlockingRelationship) == input.issues.flat_map(
            |issue: GitHubIssue|
                issue.blocked_by@.filter(
                    |other: GitHubIssueRef|
                        input.planned(other.number) is Some && !input.state.relationships@.contains(
                            KanbanRelationshipRef {
                                from_kanban_id: input.planned(other.number)->0,
                                to_kanban_id: input.id_of(issue),
                                relationship_type: KanbanRelationshipType::Blocking,
                            },
                        ),
                ).map_values(
                    |other: GitHubIssueRef|
                        SyncOpView::AddBlockingRelationship {
                            blocker_kanban_id: input.planned(other.number)->0,
                            blocked_kanban_id: input.id_of(issue),
                        },
                ),
        ),
        input.ops().filter(|op: SyncOpView| op is AddRelatedLink) == input.issues.flat_map(
            |issue: GitHubIssue|
                issue.related_issues@.filter(
                    |other: GitHubIssueRef|
                        input.planned(other.number) is Some && !input.state.relationships@.contains(
                            KanbanRelationshipRef {
                                from_kanban_id: input.id_of(issue),
                                to_kanban_id: input.planned(other.number)->0,
                                relationship_type: KanbanRelationshipType::Related,
                            },
                        ),
                ).map_values(
                    |other: GitHubIssueRef|
                        SyncOpView::AddRelatedLink {
                            from_kanban_id: input.id_of(issue),
                            to_kanban_id: input.planned(other.number)->0,
                        },
                ),
        ),
{
    lemma_blockers_in_order(input);
    lemma_related_in_order(input);
}

/// Blocking relationships come in order.
proof fn lemma_blockers_in_order(input: PlanInput)
    ensures
        input.ops().filter(|op: SyncOpView| op is AddBlockingRelationship) == input.issues.flat_map(
            |issue: GitHubIssue|
                issue.blocked_by@.filter(
                    |other: GitHubIssueRef|
                        input.planned(other.number) is Some && !input.state.relationships@.contains(
                            KanbanRelationshipRef {
                                from_kanban_id: input.planned(other.number)->0,
                                to_kanban_id: input.id_of(issue),
                                relationship_type: KanbanRelationshipType::Blocking,
                            },
                        ),
                ).map_values(
                    |other: GitHubIssueRef|
                        SyncOpView::AddBlockingRelationship {
                            blocker_kanban_id: input.planned(other.number)->0,
                            blocked_kanban_id: input.id_of(issue),
                        },
                ),
        ),
{
    let class = |op: SyncOpView| op is AddBlockingRelationship;
    let told = |issue: GitHubIssue|
        issue.blocked_by@.filter(
            |other: GitHubIssueRef|
                input.planned(other.number) is Some && !input.state.relationships@.contains(
                    KanbanRelationshipRef {
                        from_kanban_id: input.planned(other.number)->0,
                        to_kanban_id: input.id_of(issue),
                        relationship_type: KanbanRelationshipType::Blocking,
                    },
                ),
        ).map_values(
            |other: GitHubIssueRef|
                SyncOpView::AddBlockingRelationship {
                    blocker_kanban_id: input.planned(other.number)->0,
                    blocked_kanban_id: input.id_of(issue),
                },
        );
    assert(class =~= of_kind(OpKind::Blocking));
    lemma_plan_part(input, OpKind::Blocking);
    assert forall|i: int| 0 <= i < input.issues.len() implies part_of(input, OpKind::Blocking)(
        #[trigger] input.issues[i],
    ) == told(input.issues[i]) by {
        let issue = input.issues[i];
        let id = input.id_of(issue);
        let needed = |other: GitHubIssueRef|
            input.planned(other.number) is Some && !input.state.relationships@.contains(
                KanbanRelationshipRef {
                    from_kanban_id: input.planned(other.number)->0,
                    to_kanban_id: input.id_of(issue),
                    relationship_type: KanbanRelationshipType::Blocking,
                },
            );
        let pick = |other: GitHubIssueRef|
            SyncOpView::AddBlockingRelationship {
                blocker_kanban_id: input.planned(other.number)->0,
                blocked_kanban_id: input.id_of(issue),
            };
        lemma_flat_map_of_some(issue.blocked_by@, input.blocker_op(id), needed, pick);
    }
    lemma_flat_map_agrees(input.issues, part_of(input, OpKind::Blocking), told);
}

/// Links to related issues come in order.
proof fn lemma_related_in_order(input: PlanInput)
    ensures
        input.ops().filter(|op: SyncOpView| op is AddRelatedLink) == input.issues.flat_map(
            |issue: GitHubIssue|
                issue.related_issues@.filter(
                    |other: GitHubIssueRef|
                        input.planned(other.number) is Some && !input.state.relationships@.contains(
                            KanbanRelationshipRef {
                                from_kanban_id: input.id_of(issue),
                                to_kanban_id: input.planned(other.number)->0,
                                relationship_type: KanbanRelationshipType::Related,
                            },
                        ),
                ).map_values(
                    |other: GitHubIssueRef|
                        SyncOpView::AddRelatedLink {
                            from_kanban_id: input.id_of(issue),
                            to_kanban_id: input.planned(other.number)->0,
                        },
                ),
        ),
{
    let class = |op: SyncOpView| op is AddRelatedLink;
    let told = |issue: GitHubIssue|
        issue.related_issues@.filter(
            |other: GitHubIssueRef|
                input.planned(other.number) is Some && !input.state.relationships@.contains(
                    KanbanRelationshipRef {
                        from_kanban_id: input.id_of(issue),
                        to_kanban_id: input.planned(other.number)->0,
                        relationship_type: KanbanRelationshipType::Related,
                    },
                ),
        ).map_values(
            |other: GitHubIssueRef|
                SyncOpView::AddRelatedLink {
                    from_kanban_id: input.id_of(issue),
                    to_kanban_id: input.planned(other.number)->0,
                },
        );
    assert(class =~= of_kind(OpKind::Related));
    lemma_plan_part(input, OpKind::Related);
    assert forall|i: int| 0 <= i < input.issues.len() implies part_of(input, OpKind::Related)(
        #[trigger] input.issues[i],
    ) == told(input.issues[i]) by {
        let issue = input.issues[i];
        let id = input.id_of(issue);
        let needed = |other: GitHubIssueRef|
            input.planned(other.number) is Some && !input.state.relationships@.contains(
                KanbanRelationshipRef {
                    from_kanban_id: input.id_of(issue),
                    to_kanban_id: input.planned(other.number)->0,
                    relationship_type: KanbanRelationshipType::Related,
                },
            );
        let pick = |other: GitHubIssueRef|
            SyncOpView::AddRelatedLink {
                from_kanban_id: input.id_of(issue),
                to_kanban_id: input.planned(other.number)->0,
            };
        lemma_flat_map_of_some(issue.related_issues@, input.related_op(id), needed, pick);
    }
    lemma_flat_map_agrees(input.issues, part_of(input, OpKind::Related), told);
}

/// Sub-issue links come in the order of the snapshot, one for each sub-issue that the board tracks
/// and the snapshot holds, unless it is the issue itself.
pub proof fn law_links_come_in_order(input: PlanInput)
    ensures
        input.ops().filter(|op: SyncOpView| op is LinkSubIssue) == input.issues.flat_map(
            |issue: GitHubIssue|
                issue.sub_issues@.filter(
                    |child: GitHubIssueRef|
                        input.existing(child.number) is Some && is_in_snapshot(
                            input.issues,
                            child.number,
                        ) && input.existing(child.number)->0.id != input.id_of(issue),
                ).map_values(
                    |child: GitHubIssueRef|
                        SyncOpView::LinkSubIssue {
                            parent_kanban_id: input.id_of(issue),
                            child_kanban_id: input.existing(child.number)->0.id,
                        },
                ),
        ),
{
    let class = |op: SyncOpView| op is LinkSubIssue;
    let told = |issue: GitHubIssue|
        issue.sub_issues@.filter(
            |child: GitHubIssueRef|
                input.existing(child.number) is Some && is_in_snapshot(input.issues, child.number)
                    && input.existing(child.number)->0.id != input.id_of(issue),
        ).map_values(
            |child: GitHubIssueRef|
                SyncOpView::LinkSubIssue {
                    parent_kanban_id: input.id_of(issue),
                    child_kanban_id: input.existing(child.number)->0.id,
                },
        );
    assert(class =~= of_kind(OpKind::Link));
    lemma_plan_part(input, OpKind::Link);
    assert forall|i: int| 0 <= i < input.issues.len() implies part_of(input, OpKind::Link)(
        #[trigger] input.issues[i],
    ) == told(input.issues[i]) by {
        let issue = input.issues[i];
        let id = input.id_of(issue);
        let needed = |child: GitHubIssueRef|
            input.existing(child.number) is Some && is_in_snapshot(input.issues, child.number)
                && input.existing(child.number)->0.id != input.id_of(issue);
        let pick = |child: GitHubIssueRef|
            SyncOpView::LinkSubIssue {
                parent_kanban_id: input.id_of(issue),
                child_kanban_id: input.existing(child.number)->0.id,
            };
        assert forall|r: int| 0 <= r < issue.sub_issues@.len() implies input.sub_issue_op(id)(
            #[trigger] issue.sub_issues@[r],
        ) == (if needed(issue.sub_issues@[r]) {
            seq![pick(issue.sub_issues@[r])]
        } else {
            Seq::empty()
        }) by {
            assert(input.in_scope(issue.sub_issues@[r].number) == is_in_snapshot(
                input.issues,
                issue.sub_issues@[r].number,
            ));
        }
        lemma_flat_map_of_some(issue.sub_issues@, input.sub_issue_op(id), needed, pick);
    }
    lemma_flat_map_agrees(input.issues, part_of(input, OpKind::Link), told);
}

/// Actions come phase by phase, in each phase one for each operation and in their order, and behind
/// them what is handed on.
pub proof fn law_actions_come_in_order(
    ops: Seq<SyncOpView>,
    unsupported: Seq<UnsupportedSyncItemView>,
    options: PrepareSyncOptions,
)
    ensures
        prepared_actions(ops, unsupported, options) == ops.filter(
            |op: SyncOpView|
                op is CreateIssue || op is UpdateTitle || op is UpdateDescription || op
                    is LinkSubIssue,
        ).map_values(|op: SyncOpView| action_of(op, options)) + ops.filter(
            |op: SyncOpView| op is AddBlockingRelationship || op is AddRelatedLink,
        ).map_values(|op: SyncOpView| action_of(op, options)) + ops.filter(
            |op: SyncOpView| op is AddComment,
        ).map_values(|op: SyncOpView| action_of(op, options)) + ops.filter(
            |op: SyncOpView| op is EnsureTag,
        ).map_values(|op: SyncOpView| action_of(op, options)) + unsupported.map_values(
            |item: UnsupportedSyncItemView| PreparedSyncActionView::Unsupported(item),
        ),
{
    let pick = |op: SyncOpView| action_of(op, options);
    lemma_flat_map_of_some(
        ops,
        action_in(Phase::Issues, options),
        |op: SyncOpView|
            op is CreateIssue || op is UpdateTitle || op is UpdateDescription || op is LinkSubIssue,
        pick,
    );
    lemma_flat_map_of_some(
        ops,
        action_in(Phase::Relationships, options),
        |op: SyncOpView| op is AddBlockingRelationship || op is AddRelatedLink,
        pick,
    );
    lemma_flat_map_of_some(
        ops,
        action_in(Phase::Comments, options),
        |op: SyncOpView| op is AddComment,
        pick,
    );
    lemma_flat_map_of_some(
        ops,
        action_in(Phase::Unsupported, options),
        |op: SyncOpView| op is EnsureTag,
        pick,
    );
}

} // verus!
