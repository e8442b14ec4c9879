//! Planning: which operations bring the board in line with a GitHub snapshot.
use std::collections::HashMap;

use vstd::prelude::*;

use crate::ids::Uuid;
#[allow(unused_imports)]
use crate::ids::is_random_id;
use crate::sync::types::{
    GitHubIssue, GitHubIssueRef, GitHubLabel, GitHubMirrorComment, KanbanIssueRef,
    KanbanMirroredCommentRef, KanbanRelationshipRef, KanbanRelationshipType, KanbanSyncState,
    SyncOp, SyncPlan, UnsupportedSyncItem,
};
#[allow(unused_imports)]
use crate::sync::types::{
    kind_name_text, op_views, unsupported_views, SyncOpView, UnsupportedGitHubRelation,
    UnsupportedSyncItemView,
};
use crate::text::{copy_option, owned, push_decimal, same_option, same_text};
#[allow(unused_imports)]
use crate::text::{decimal, view_of_option, views_of};

verus! {

broadcast use vstd::std_specs::hash::group_hash_axioms;

// ---------------------------------------------------------------------------
// What a plan says
// ---------------------------------------------------------------------------

/// The last of `issues` that tracks the GitHub issue `number`.
pub open spec fn last_tracking(issues: Seq<KanbanIssueRef>, number: u64) -> Option<KanbanIssueRef>
    decreases issues.len(),
{
    if issues.len() == 0 {
        None
    } else if issues.last().github_issue_number == Some(number) {
        Some(issues.last())
    } else {
        last_tracking(issues.drop_last(), number)
    }
}

/// `number` is named by one of `refs`.
pub open spec fn names(refs: Seq<GitHubIssueRef>, number: u64) -> bool {
    exists|i: int| 0 <= i < refs.len() && (#[trigger] refs[i]).number == number
}

/// The first of `issues` that names `number` as its sub-issue.
pub open spec fn first_parent(issues: Seq<GitHubIssue>, number: u64) -> Option<GitHubIssue>
    decreases issues.len(),
{
    if issues.len() == 0 {
        None
    } else if names(issues[0].sub_issues@, number) {
        Some(issues[0])
    } else {
        first_parent(issues.drop_first(), number)
    }
}

/// Everything that a plan depends on: the snapshot, the board, and for each issue of the snapshot
/// the identifier that is reserved for it should it be new.
pub struct PlanInput {
    pub issues: Seq<GitHubIssue>,
    pub state: KanbanSyncState,
    pub fresh: Seq<Uuid>,
}

impl PlanInput {
    /// There is an identifier in reserve for each issue.
    pub open spec fn wf(self) -> bool {
        self.fresh.len() == self.issues.len()
    }

    /// The Kanban issue that tracks the GitHub issue `number`.
    pub open spec fn existing(self, number: u64) -> Option<KanbanIssueRef> {
        last_tracking(self.state.issues@, number)
    }

    /// `number` is in the snapshot.
    pub open spec fn in_scope(self, number: u64) -> bool {
        exists|i: int| 0 <= i < self.issues.len() && (#[trigger] self.issues[i]).number == number
    }

    /// The identifier of the issue at position `i` of the snapshot: that of the Kanban issue
    /// which tracks it, or else the one in reserve.
    pub open spec fn id_at(self, i: int) -> Uuid {
        match self.existing(self.issues[i].number) {
            Some(kanban) => kanban.id,
            None => self.fresh[i],
        }
    }

    /// The identifier of the last among the first `count` issues with the number `number`.
    pub open spec fn planned_among(self, count: int, number: u64) -> Option<Uuid>
        decreases count,
    {
        if count <= 0 {
            None
        } else if self.issues[count - 1].number == number {
            Some(self.id_at(count - 1))
        } else {
            self.planned_among(count - 1, number)
        }
    }

    /// The identifier that the GitHub issue `number` has, or will have, on the board.
    pub open spec fn planned(self, number: u64) -> Option<Uuid> {
        self.planned_among(self.issues.len() as int, number)
    }

    /// The identifier of an issue of the snapshot.
    pub open spec fn id_of(self, issue: GitHubIssue) -> Uuid {
        self.planned(issue.number)->0
    }

    /// The board already has the relationship.
    pub open spec fn related(self, from: Uuid, to: Uuid, kind: KanbanRelationshipType) -> bool {
        self.state.relationships@.contains(
            KanbanRelationshipRef {
                from_kanban_id: from,
                to_kanban_id: to,
                relationship_type: kind,
            },
        )
    }

    /// The board already has the comment.
    pub open spec fn mirrored(self, kanban_id: Uuid, github_comment_id: u64) -> bool {
        self.state.mirrored_comments@.contains(
            KanbanMirroredCommentRef { kanban_id, github_comment_id },
        )
    }

    /// The identifier of the parent of a new issue: that of the first issue of the snapshot that
    /// names it as a sub-issue.
    pub open spec fn parent_id(self, number: u64) -> Option<Uuid> {
        match first_parent(self.issues, number) {
            Some(parent) => self.planned(parent.number),
            None => None,
        }
    }

    /// The operations on the issue itself: a tracked one is brought in line where it differs, a
    /// new one is created.
    pub open spec fn own_ops(self, issue: GitHubIssue) -> Seq<SyncOpView> {
        match self.existing(issue.number) {
            Some(kanban) => {
                (if kanban.title@ != issue.title@ {
                    seq![
                        SyncOpView::UpdateTitle { kanban_id: kanban.id, new_title: issue.title@ },
                    ]
                } else {
                    Seq::empty()
                }) + (if view_of_option(kanban.description) != view_of_option(issue.body) {
                    seq![
                        SyncOpView::UpdateDescription {
                            kanban_id: kanban.id,
                            new_description: view_of_option(issue.body),
                        },
                    ]
                } else {
                    Seq::empty()
                })
            },
            None => seq![
                SyncOpView::CreateIssue {
                    kanban_id: self.id_of(issue),
                    github_number: issue.number,
                    github_url: issue.url@,
                    title: issue.title@,
                    description: view_of_option(issue.body),
                    parent_kanban_id: self.parent_id(issue.number),
                },
            ],
        }
    }

    /// The operation for a sub-issue: a link, where both sides are on the board and differ.
    pub open spec fn sub_issue_op(self, id: Uuid) -> spec_fn(GitHubIssueRef) -> Seq<SyncOpView> {
        |child: GitHubIssueRef|
            match self.existing(child.number) {
                Some(kanban) => if self.in_scope(child.number) && kanban.id != id {
                    seq![
                        SyncOpView::LinkSubIssue {
                            parent_kanban_id: id,
                            child_kanban_id: kanban.id,
                        },
                    ]
                } else {
                    Seq::empty()
                },
                None => Seq::empty(),
            }
    }

    /// The operation for a blocker: a blocking relationship that the board does not have yet.
    pub open spec fn blocker_op(self, id: Uuid) -> spec_fn(GitHubIssueRef) -> Seq<SyncOpView> {
        |blocker: GitHubIssueRef|
            match self.planned(blocker.number) {
                Some(blocker_id) => if !self.related(
                    blocker_id,
                    id,
                    KanbanRelationshipType::Blocking,
                ) {
                    seq![
                        SyncOpView::AddBlockingRelationship {
                            blocker_kanban_id: blocker_id,
                            blocked_kanban_id: id,
                        },
                    ]
                } else {
                    Seq::empty()
                },
                None => Seq::empty(),
            }
    }

    /// The operation for a related issue: a link that the board does not have yet.
    pub open spec fn related_op(self, id: Uuid) -> spec_fn(GitHubIssueRef) -> Seq<SyncOpView> {
        |peer: GitHubIssueRef|
            match self.planned(peer.number) {
                Some(peer_id) => if !self.related(id, peer_id, KanbanRelationshipType::Related) {
                    seq![
                        SyncOpView::AddRelatedLink { from_kanban_id: id, to_kanban_id: peer_id },
                    ]
                } else {
                    Seq::empty()
                },
                None => Seq::empty(),
            }
    }

    /// The operation for a label: its tag.
    pub open spec fn tag_op(self, id: Uuid) -> spec_fn(GitHubLabel) -> Seq<SyncOpView> {
        |label: GitHubLabel| seq![SyncOpView::EnsureTag { kanban_id: id, tag_name: label.name@ }]
    }

    /// The operation for a comment that the board does not have yet.
    pub open spec fn comment_op(self, id: Uuid) -> spec_fn(GitHubMirrorComment) -> Seq<
        SyncOpView,
    > {
        |comment: GitHubMirrorComment|
            if !self.mirrored(id, comment.github_comment_id) {
                seq![
                    SyncOpView::AddComment {
                        kanban_id: id,
                        github_comment_id: comment.github_comment_id,
                        author_login: comment.author_login@,
                        body: comment.body@,
                    },
                ]
            } else {
                Seq::empty()
            }
    }

    /// All the operations for one issue.
    pub open spec fn issue_ops(self) -> spec_fn(GitHubIssue) -> Seq<SyncOpView> {
        |issue: GitHubIssue|
            {
                let id = self.id_of(issue);
                self.own_ops(issue) + issue.sub_issues@.flat_map(self.sub_issue_op(id))
                    + issue.blocked_by@.flat_map(self.blocker_op(id))
                    + issue.related_issues@.flat_map(self.related_op(id))
                    + issue.labels@.flat_map(self.tag_op(id))
                    + issue.mirror_comments@.flat_map(self.comment_op(id))
            }
    }

    /// All the operations, issue by issue.
    pub open spec fn ops(self) -> Seq<SyncOpView> {
        self.issues.flat_map(self.issue_ops())
    }

    /// `number` is referenced in the snapshot but not part of it.
    pub open spec fn is_unresolved(self, number: u64) -> bool {
        &&& !self.in_scope(number)
        &&& exists|i: int|
            0 <= i < self.issues.len() && references(#[trigger] self.issues[i], number)
    }

    /// The relations of all issues that could not be fetched, in order.
    pub open spec fn unsupported(self) -> Seq<UnsupportedSyncItemView> {
        self.issues.flat_map(unsupported_of())
    }

    /// The notes: one for each relation that could not be fetched, and the standing one.
    pub open spec fn notes(self) -> Seq<Seq<char>> {
        self.issues.flat_map(notes_of()).push(standing_note())
    }
}

/// `issue` references the GitHub issue `number`.
pub open spec fn references(issue: GitHubIssue, number: u64) -> bool {
    ||| names(issue.sub_issues@, number)
    ||| names(issue.blocked_by@, number)
    ||| names(issue.related_issues@, number)
}

/// The unsupported item for a relation of the issue `number`.
pub open spec fn unsupported_item(number: u64) -> spec_fn(UnsupportedGitHubRelation) -> Seq<
    UnsupportedSyncItemView,
> {
    |relation: UnsupportedGitHubRelation|
        seq![
            UnsupportedSyncItemView::GitHubRelation {
                github_number: number,
                kind: relation.kind,
                reason: relation.reason@,
            },
        ]
}

/// The note for a relation of the issue `number`.
pub open spec fn unsupported_note(number: u64) -> spec_fn(UnsupportedGitHubRelation) -> Seq<
    Seq<char>,
> {
    |relation: UnsupportedGitHubRelation|
        seq![
            "GitHub issue #"@ + decimal(number as nat) + " "@ + kind_name_text(relation.kind)
                + " needs manual sync: "@ + relation.reason@,
        ]
}

/// The unsupported items of an issue.
pub open spec fn unsupported_of() -> spec_fn(GitHubIssue) -> Seq<UnsupportedSyncItemView> {
    |issue: GitHubIssue| issue.unsupported_relations@.flat_map(unsupported_item(issue.number))
}

/// The notes of an issue.
pub open spec fn notes_of() -> spec_fn(GitHubIssue) -> Seq<Seq<char>> {
    |issue: GitHubIssue| issue.unsupported_relations@.flat_map(unsupported_note(issue.number))
}

/// The note that every plan ends with.
pub open spec fn standing_note() -> Seq<char> {
    "TODO(#171): push-back from Kanban → GitHub (status, labels, assignees)"@
}

/// Each number is above the one before it.
pub open spec fn strictly_increasing(numbers: Seq<u64>) -> bool {
    forall|i: int, j: int| 0 <= i < j < numbers.len() ==> numbers[i] < numbers[j]
}

/// `plan` is the plan for `input`.
pub open spec fn is_plan_for(plan: SyncPlan, input: PlanInput) -> bool {
    &&& op_views(plan.ops@) == input.ops()
    &&& views_of(plan.notes@) == input.notes()
    &&& unsupported_views(plan.unsupported@) == input.unsupported()
    &&& strictly_increasing(plan.unresolved_github_refs@)
    &&& forall|number: u64|
        #![trigger plan.unresolved_github_refs@.contains(number)]
        plan.unresolved_github_refs@.contains(number) <==> input.is_unresolved(number)
}

// ---------------------------------------------------------------------------
// Lists of numbers
// ---------------------------------------------------------------------------

/// Appends `number`.
fn note_number(numbers: &mut Vec<u64>, number: u64)
    ensures
        forall|n: u64|
            #![trigger final(numbers)@.contains(n)]
            final(numbers)@.contains(n) <==> old(numbers)@.contains(n) || n == number,
{
    numbers.push(number);
    proof {
        let before = old(numbers)@;
        let after = numbers@;
        assert(after == before.push(number));
        assert(after[before.len() as int] == number);
        assert forall|n: u64| #![trigger after.contains(n)] after.contains(n) <==> before.contains(
            n,
        ) || n == number by {
            if before.contains(n) {
                let i = choose|i: int| 0 <= i < before.len() && before[i] == n;
                assert(after[i] == n);
            }
            if after.contains(n) && n != number {
                let i = choose|i: int| 0 <= i < after.len() && after[i] == n;
                assert(before[i] == n);
            }
        }
    }
}

/// Puts `number` into an increasing list, unless it is there.
fn insert_increasing(numbers: &mut Vec<u64>, number: u64)
    requires
        strictly_increasing(old(numbers)@),
    ensures
        strictly_increasing(final(numbers)@),
        forall|n: u64|
            #![trigger final(numbers)@.contains(n)]
            final(numbers)@.contains(n) <==> old(numbers)@.contains(n) || n == number,
{
    let mut at: usize = 0;
    while at < numbers.len() && numbers[at] < number
        invariant
            at <= numbers@.len(),
            numbers@ == old(numbers)@,
            forall|k: int| 0 <= k < at ==> numbers@[k] < number,
        ensures
            at <= numbers@.len(),
            numbers@ == old(numbers)@,
            forall|k: int| 0 <= k < at ==> numbers@[k] < number,
            at < numbers@.len() ==> numbers@[at as int] >= number,
        decreases numbers@.len() - at,
    {
        at += 1;
    }
    if at < numbers.len() && numbers[at] == number {
        return ;
    }
    let ghost before = numbers@;
    numbers.insert(at, number);
    proof {
        let after = numbers@;
        assert(after == before.insert(at as int, number));
        assert(after[at as int] == number);
        assert forall|n: u64| #![trigger after.contains(n)] after.contains(n) <==> before.contains(
            n,
        ) || n == number by {
            if before.contains(n) {
                let i = choose|i: int| 0 <= i < before.len() && before[i] == n;
                if i < at {
                    assert(after[i] == n);
                } else {
                    assert(after[i + 1] == n);
                }
            }
            if after.contains(n) && n != number {
                let i = choose|i: int| 0 <= i < after.len() && after[i] == n;
                if i < at {
                    assert(before[i] == n);
                } else {
                    assert(before[i - 1] == n);
                }
            }
        }
    }
}

/// `numbers` in increasing order, each once.
pub fn sorted_unique(numbers: &Vec<u64>) -> (r: Vec<u64>)
    ensures
        strictly_increasing(r@),
        forall|n: u64| #![trigger r@.contains(n)] r@.contains(n) <==> numbers@.contains(n),
{
    let mut r: Vec<u64> = Vec::new();
    for i in 0..numbers.len()
        invariant
            strictly_increasing(r@),
            forall|n: u64|
                #![trigger r@.contains(n)]
                r@.contains(n) <==> exists|k: int| 0 <= k < i && numbers@[k] == n,
    {
        insert_increasing(&mut r, numbers[i]);
    }
    r
}

// ---------------------------------------------------------------------------
// The planner
// ---------------------------------------------------------------------------

/// What planning looks up again and again.
struct Planner {
    /// GitHub issue number to the position of the Kanban issue that tracks it.
    existing: HashMap<u64, usize>,
    /// GitHub issue number to the identifier it has or will have.
    planned: HashMap<u64, Uuid>,
}

impl Planner {
    /// The lookups are those of `input`.
    spec fn wf(self, input: PlanInput) -> bool {
        &&& input.wf()
        &&& forall|n: u64|
            #![trigger self.existing@.contains_key(n)]
            #![trigger input.existing(n)]
            {
                &&& self.existing@.contains_key(n) <==> input.existing(n) is Some
                &&& self.existing@.contains_key(n) ==> self.existing@[n]
                    < input.state.issues@.len() && input.existing(n) == Some(
                    input.state.issues@[self.existing@[n] as int],
                )
            }
        &&& forall|n: u64|
            #![trigger self.planned@.contains_key(n)]
            #![trigger input.planned(n)]
            {
                &&& self.planned@.contains_key(n) <==> input.planned(n) is Some
                &&& self.planned@.contains_key(n) ==> input.planned(n) == Some(self.planned@[n])
            }
    }

    /// The Kanban issue that tracks the GitHub issue `number`.
    fn existing_issue<'a>(
        &self,
        state: &'a KanbanSyncState,
        number: u64,
        Ghost(input): Ghost<PlanInput>,
    ) -> (r: Option<&'a KanbanIssueRef>)
        requires
            self.wf(input),
            input.state == *state,
        ensures
            match r {
                Some(kanban) => input.existing(number) == Some(*kanban),
                None => input.existing(number) is None,
            },
    {
        match self.existing.get(&number) {
            Some(at) => Some(&state.issues[*at]),
            None => None,
        }
    }

    /// The identifier that the GitHub issue `number` has or will have.
    fn planned_id(&self, number: u64, Ghost(input): Ghost<PlanInput>) -> (r: Option<Uuid>)
        requires
            self.wf(input),
        ensures
            r == input.planned(number),
    {
        match self.planned.get(&number) {
            Some(id) => Some(*id),
            None => None,
        }
    }
}

/// A number is planned exactly where it is in the snapshot.
pub proof fn lemma_planned_in_scope(input: PlanInput, count: int, number: u64)
    requires
        0 <= count <= input.issues.len(),
    ensures
        input.planned_among(count, number) is Some <==> exists|i: int|
            0 <= i < count && (#[trigger] input.issues[i]).number == number,
    decreases count,
{
    if count > 0 {
        lemma_planned_in_scope(input, count - 1, number);
        if input.issues[count - 1].number == number {
        } else if input.planned_among(count - 1, number) is Some {
            let i = choose|i: int|
                0 <= i < count - 1 && (#[trigger] input.issues[i]).number == number;
            assert(0 <= i < count && input.issues[i].number == number);
        }
    }
}

/// The positions of the Kanban issues by the GitHub issue numbers that they track.
fn tracked_positions(issues: &Vec<KanbanIssueRef>) -> (r: HashMap<u64, usize>)
    ensures
        forall|n: u64|
            #![trigger r@.contains_key(n)]
            {
                &&& r@.contains_key(n) <==> last_tracking(issues@, n) is Some
                &&& r@.contains_key(n) ==> r@[n] < issues@.len() && last_tracking(issues@, n)
                    == Some(issues@[r@[n] as int])
            },
{
    let mut r: HashMap<u64, usize> = HashMap::new();
    for i in 0..issues.len()
        invariant
            forall|n: u64|
                #![trigger r@.contains_key(n)]
                {
                    let seen = last_tracking(issues@.take(i as int), n);
                    &&& r@.contains_key(n) <==> seen is Some
                    &&& r@.contains_key(n) ==> r@[n] < i && seen == Some(issues@[r@[n] as int])
                },
    {
        let ghost before = r@;
        match issues[i].github_issue_number {
            Some(number) => {
                r.insert(number, i);
            },
            None => {},
        }
        proof {
            let next = issues@.take(i + 1);
            assert(next.drop_last() =~= issues@.take(i as int));
            assert(next.last() == issues@[i as int]);
            assert forall|n: u64| #![trigger r@.contains_key(n)]
                {
                    let seen = last_tracking(next, n);
                    &&& r@.contains_key(n) <==> seen is Some
                    &&& r@.contains_key(n) ==> r@[n] < i + 1 && seen == Some(
                        issues@[r@[n] as int],
                    )
                } by {
                assert(before.contains_key(n) <==> last_tracking(issues@.take(i as int), n) is Some);
            }
        }
    }
    assert(issues@.take(issues@.len() as int) =~= issues@);
    r
}

/// The lookups for a plan.
fn build_planner(
    github_issues: &[GitHubIssue],
    state: &KanbanSyncState,
    fresh_ids: &Vec<Uuid>,
) -> (r: Planner)
    requires
        fresh_ids@.len() == github_issues@.len(),
    ensures
        r.wf(PlanInput { issues: github_issues@, state: *state, fresh: fresh_ids@ }),
{
    let ghost input = PlanInput { issues: github_issues@, state: *state, fresh: fresh_ids@ };
    let existing = tracked_positions(&state.issues);
    let mut planned: HashMap<u64, Uuid> = HashMap::new();
    for i in 0..github_issues.len()
        invariant
            input == (PlanInput { issues: github_issues@, state: *state, fresh: fresh_ids@ }),
            fresh_ids@.len() == github_issues@.len(),
            forall|n: u64|
                #![trigger existing@.contains_key(n)]
                {
                    &&& existing@.contains_key(n) <==> input.existing(n) is Some
                    &&& existing@.contains_key(n) ==> existing@[n] < state.issues@.len()
                        && input.existing(n) == Some(state.issues@[existing@[n] as int])
                },
            forall|n: u64|
                #![trigger planned@.contains_key(n)]
                {
                    let seen = input.planned_among(i as int, n);
                    &&& planned@.contains_key(n) <==> seen is Some
                    &&& planned@.contains_key(n) ==> seen == Some(planned@[n])
                },
    {
        let ghost before = planned@;
        let number = github_issues[i].number;
        let id = match existing.get(&number) {
            Some(at) => state.issues[*at].id,
            None => fresh_ids[i],
        };
        planned.insert(number, id);
        proof {
            assert(existing@.contains_key(number) <==> input.existing(number) is Some);
            assert(id == input.id_at(i as int));
            assert forall|n: u64| #![trigger planned@.contains_key(n)]
                {
                    let seen = input.planned_among(i + 1, n);
                    &&& planned@.contains_key(n) <==> seen is Some
                    &&& planned@.contains_key(n) ==> seen == Some(planned@[n])
                } by {
                assert(before.contains_key(n) <==> input.planned_among(i as int, n) is Some);
            }
        }
    }
    Planner { existing, planned }
}

/// Appends one operation.
fn push_op(ops: &mut Vec<SyncOp>, op: SyncOp)
    ensures
        op_views(final(ops)@) == op_views(old(ops)@).push(op@),
{
    ops.push(op);
    assert(op_views(ops@) =~= op_views(old(ops)@).push(op@));
}

/// Whether `refs` names `number`.
fn names_number(refs: &Vec<GitHubIssueRef>, number: u64) -> (r: bool)
    ensures
        r == names(refs@, number),
{
    for i in 0..refs.len()
        invariant
            forall|k: int| 0 <= k < i ==> (#[trigger] refs@[k]).number != number,
    {
        if refs[i].number == number {
            return true;
        }
    }
    false
}

/// Whether the board already has the relationship.
fn has_relationship(
    relationships: &Vec<KanbanRelationshipRef>,
    wanted: KanbanRelationshipRef,
) -> (r: bool)
    ensures
        r == relationships@.contains(wanted),
{
    for i in 0..relationships.len()
        invariant
            forall|k: int| 0 <= k < i ==> relationships@[k] != wanted,
    {
        if relationships[i] == wanted {
            return true;
        }
    }
    false
}

/// Whether the board already has the comment.
fn has_comment(
    comments: &Vec<KanbanMirroredCommentRef>,
    wanted: KanbanMirroredCommentRef,
) -> (r: bool)
    ensures
        r == comments@.contains(wanted),
{
    for i in 0..comments.len()
        invariant
            forall|k: int| 0 <= k < i ==> comments@[k] != wanted,
    {
        if comments[i] == wanted {
            return true;
        }
    }
    false
}

impl Planner {
    /// The identifier of the parent of a new issue.
    fn parent_id(
        &self,
        github_issues: &[GitHubIssue],
        number: u64,
        Ghost(input): Ghost<PlanInput>,
    ) -> (r: Option<Uuid>)
        requires
            self.wf(input),
            input.issues == github_issues@,
        ensures
            r == input.parent_id(number),
    {
        assert(input.issues.skip(0) =~= input.issues);
        for i in 0..github_issues.len()
            invariant
                self.wf(input),
                input.issues == github_issues@,
                first_parent(input.issues, number) == first_parent(
                    input.issues.skip(i as int),
                    number,
                ),
        {
            let candidate = &github_issues[i];
            let ghost rest = input.issues.skip(i as int);
            assert(rest[0] == *candidate);
            if names_number(&candidate.sub_issues, number) {
                return self.planned_id(candidate.number, Ghost(input));
            }
            assert(rest.drop_first() =~= input.issues.skip(i + 1));
        }
        None
    }

    /// Appends the operations on the issue itself.
    fn push_own_ops(
        &self,
        github_issues: &[GitHubIssue],
        state: &KanbanSyncState,
        issue: &GitHubIssue,
        id: Uuid,
        ops: &mut Vec<SyncOp>,
        Ghost(input): Ghost<PlanInput>,
    )
        requires
            self.wf(input),
            input.issues == github_issues@,
            input.state == *state,
            id == input.id_of(*issue),
        ensures
            op_views(final(ops)@) == op_views(old(ops)@) + input.own_ops(*issue),
    {
        match self.existing_issue(state, issue.number, Ghost(input)) {
            Some(kanban) => {
                if !same_text(kanban.title.as_str(), issue.title.as_str()) {
                    push_op(
                        ops,
                        SyncOp::UpdateTitle { kanban_id: kanban.id, new_title: issue.title.clone() },
                    );
                }
                if !same_option(&kanban.description, &issue.body) {
                    push_op(
                        ops,
                        SyncOp::UpdateDescription {
                            kanban_id: kanban.id,
                            new_description: copy_option(&issue.body),
                        },
                    );
                }
                assert(op_views(ops@) =~= op_views(old(ops)@) + input.own_ops(*issue));
            },
            None => {
                let parent_kanban_id = self.parent_id(github_issues, issue.number, Ghost(input));
                push_op(
                    ops,
                    SyncOp::CreateIssue {
                        kanban_id: id,
                        github_number: issue.number,
                        github_url: issue.url.clone(),
                        title: issue.title.clone(),
                        description: copy_option(&issue.body),
                        parent_kanban_id,
                    },
                );
                assert(op_views(ops@) =~= op_views(old(ops)@) + input.own_ops(*issue));
            },
        }
    }

    /// Appends the links to sub-issues, and the numbers that are out of scope.
    fn push_sub_issue_ops(
        &self,
        state: &KanbanSyncState,
        refs: &Vec<GitHubIssueRef>,
        id: Uuid,
        ops: &mut Vec<SyncOp>,
        unresolved: &mut Vec<u64>,
        Ghost(input): Ghost<PlanInput>,
    )
        requires
            self.wf(input),
            input.state == *state,
        ensures
            op_views(final(ops)@) == op_views(old(ops)@) + refs@.flat_map(input.sub_issue_op(id)),
            forall|n: u64|
                #![trigger final(unresolved)@.contains(n)]
                final(unresolved)@.contains(n) <==> old(unresolved)@.contains(n) || (names(
                    refs@,
                    n,
                ) && !input.in_scope(n)),
    {
        let ghost f = input.sub_issue_op(id);
        assert(refs@.take(0).flat_map(f) =~= Seq::empty());
        assert(op_views(ops@) =~= op_views(old(ops)@) + refs@.take(0).flat_map(f));
        for i in 0..refs.len()
            invariant
                self.wf(input),
                input.state == *state,
                f == input.sub_issue_op(id),
                op_views(ops@) == op_views(old(ops)@) + refs@.take(i as int).flat_map(f),
                forall|n: u64|
                    #![trigger unresolved@.contains(n)]
                    unresolved@.contains(n) <==> old(unresolved)@.contains(n) || (
                    (exists|k: int| 0 <= k < i && (#[trigger] refs@[k]).number == n)
                        && !input.in_scope(n)),
        {
            let number = refs[i].number;
            let ghost before = op_views(ops@);
            proof {
                refs@.lemma_flat_map_take_append(f, i as int);
                lemma_planned_in_scope(input, input.issues.len() as int, number);
            }
            if self.planned_id(number, Ghost(input)).is_none() {
                note_number(unresolved, number);
            } else {
                match self.existing_issue(state, number, Ghost(input)) {
                    Some(child) => {
                        if child.id != id {
                            push_op(
                                ops,
                                SyncOp::LinkSubIssue {
                                    parent_kanban_id: id,
                                    child_kanban_id: child.id,
                                },
                            );
                        }
                    },
                    None => {},
                }
            }
            assert(op_views(ops@) =~= before + f(refs@[i as int]));
            assert(op_views(ops@) =~= op_views(old(ops)@) + (refs@.take(i as int).flat_map(f) + f(
                refs@[i as int],
            )));
        }
        assert(refs@.take(refs@.len() as int) =~= refs@);
    }
    /// Appends the missing blocking relationships, and the numbers that are out of scope.
    fn push_blocker_ops(
        &self,
        state: &KanbanSyncState,
        refs: &Vec<GitHubIssueRef>,
        id: Uuid,
        ops: &mut Vec<SyncOp>,
        unresolved: &mut Vec<u64>,
        Ghost(input): Ghost<PlanInput>,
    )
        requires
            self.wf(input),
            input.state == *state,
        ensures
            op_views(final(ops)@) == op_views(old(ops)@) + refs@.flat_map(input.blocker_op(id)),
            forall|n: u64|
                #![trigger final(unresolved)@.contains(n)]
                final(unresolved)@.contains(n) <==> old(unresolved)@.contains(n) || (names(
                    refs@,
                    n,
                ) && !input.in_scope(n)),
    {
        let ghost f = input.blocker_op(id);
        assert(refs@.take(0).flat_map(f) =~= Seq::empty());
        assert(op_views(ops@) =~= op_views(old(ops)@) + refs@.take(0).flat_map(f));
        for i in 0..refs.len()
            invariant
                self.wf(input),
                input.state == *state,
                f == input.blocker_op(id),
                op_views(ops@) == op_views(old(ops)@) + refs@.take(i as int).flat_map(f),
                forall|n: u64|
                    #![trigger unresolved@.contains(n)]
                    unresolved@.contains(n) <==> old(unresolved)@.contains(n) || (
                    (exists|k: int| 0 <= k < i && (#[trigger] refs@[k]).number == n)
                        && !input.in_scope(n)),
        {
            let number = refs[i].number;
            let ghost before = op_views(ops@);
            proof {
                refs@.lemma_flat_map_take_append(f, i as int);
                lemma_planned_in_scope(input, input.issues.len() as int, number);
            }
            match self.planned_id(number, Ghost(input)) {
                Some(other) => {
                    let relationship = KanbanRelationshipRef {
                        from_kanban_id: other,
                        to_kanban_id: id,
                        relationship_type: KanbanRelationshipType::Blocking,
                    };
                    if !has_relationship(&state.relationships, relationship) {
                        push_op(
                            ops,
                            SyncOp::AddBlockingRelationship {
                                blocker_kanban_id: relationship.from_kanban_id,
                                blocked_kanban_id: relationship.to_kanban_id,
                            },
                        );
                    }
                },
                None => note_number(unresolved, number),
            }
            assert(op_views(ops@) =~= before + f(refs@[i as int]));
            assert(op_views(ops@) =~= op_views(old(ops)@) + (refs@.take(i as int).flat_map(f) + f(
                refs@[i as int],
            )));
        }
        assert(refs@.take(refs@.len() as int) =~= refs@);
    }

    /// Appends the missing links to related issues, and the numbers that are out of scope.
    fn push_related_ops(
        &self,
        state: &KanbanSyncState,
        refs: &Vec<GitHubIssueRef>,
        id: Uuid,
        ops: &mut Vec<SyncOp>,
        unresolved: &mut Vec<u64>,
        Ghost(input): Ghost<PlanInput>,
    )
        requires
            self.wf(input),
            input.state == *state,
        ensures
            op_views(final(ops)@) == op_views(old(ops)@) + refs@.flat_map(input.related_op(id)),
            forall|n: u64|
                #![trigger final(unresolved)@.contains(n)]
                final(unresolved)@.contains(n) <==> old(unresolved)@.contains(n) || (names(
                    refs@,
                    n,
                ) && !input.in_scope(n)),
    {
        let ghost f = input.related_op(id);
        assert(refs@.take(0).flat_map(f) =~= Seq::empty());
        assert(op_views(ops@) =~= op_views(old(ops)@) + refs@.take(0).flat_map(f));
        for i in 0..refs.len()
            invariant
                self.wf(input),
                input.state == *state,
                f == input.related_op(id),
                op_views(ops@) == op_views(old(ops)@) + refs@.take(i as int).flat_map(f),
                forall|n: u64|
                    #![trigger unresolved@.contains(n)]
                    unresolved@.contains(n) <==> old(unresolved)@.contains(n) || (
                    (exists|k: int| 0 <= k < i && (#[trigger] refs@[k]).number == n)
                        && !input.in_scope(n)),
        {
            let number = refs[i].number;
            let ghost before = op_views(ops@);
            proof {
                refs@.lemma_flat_map_take_append(f, i as int);
                lemma_planned_in_scope(input, input.issues.len() as int, number);
            }
            match self.planned_id(number, Ghost(input)) {
                Some(other) => {
                    let relationship = KanbanRelationshipRef {
                        from_kanban_id: id,
                        to_kanban_id: other,
                        relationship_type: KanbanRelationshipType::Related,
                    };
                    if !has_relationship(&state.relationships, relationship) {
                        push_op(
                            ops,
                            SyncOp::AddRelatedLink {
                                from_kanban_id: relationship.from_kanban_id,
                                to_kanban_id: relationship.to_kanban_id,
                            },
                        );
                    }
                },
                None => note_number(unresolved, number),
            }
            assert(op_views(ops@) =~= before + f(refs@[i as int]));
            assert(op_views(ops@) =~= op_views(old(ops)@) + (refs@.take(i as int).flat_map(f) + f(
                refs@[i as int],
            )));
        }
        assert(refs@.take(refs@.len() as int) =~= refs@);
    }
}

/// Appends the tags of an issue.
fn push_tag_ops(
    labels: &Vec<GitHubLabel>,
    id: Uuid,
    ops: &mut Vec<SyncOp>,
    Ghost(input): Ghost<PlanInput>,
)
    ensures
        op_views(final(ops)@) == op_views(old(ops)@) + labels@.flat_map(input.tag_op(id)),
{
    let ghost f = input.tag_op(id);
    assert(labels@.take(0).flat_map(f) =~= Seq::empty());
    assert(op_views(ops@) =~= op_views(old(ops)@) + labels@.take(0).flat_map(f));
    for i in 0..labels.len()
        invariant
            f == input.tag_op(id),
            op_views(ops@) == op_views(old(ops)@) + labels@.take(i as int).flat_map(f),
    {
        let ghost before = op_views(ops@);
        proof {
            labels@.lemma_flat_map_take_append(f, i as int);
        }
        push_op(ops, SyncOp::EnsureTag { kanban_id: id, tag_name: labels[i].name.clone() });
        assert(op_views(ops@) =~= before + f(labels@[i as int]));
        assert(op_views(ops@) =~= op_views(old(ops)@) + (labels@.take(i as int).flat_map(f) + f(
            labels@[i as int],
        )));
    }
    assert(labels@.take(labels@.len() as int) =~= labels@);
}

/// Appends the comments of an issue that the board does not have yet.
fn push_comment_ops(
    state: &KanbanSyncState,
    comments: &Vec<GitHubMirrorComment>,
    id: Uuid,
    ops: &mut Vec<SyncOp>,
    Ghost(input): Ghost<PlanInput>,
)
    requires
        input.state == *state,
    ensures
        op_views(final(ops)@) == op_views(old(ops)@) + comments@.flat_map(input.comment_op(id)),
{
    let ghost f = input.comment_op(id);
    assert(comments@.take(0).flat_map(f) =~= Seq::empty());
    assert(op_views(ops@) =~= op_views(old(ops)@) + comments@.take(0).flat_map(f));
    for i in 0..comments.len()
        invariant
            input.state == *state,
            f == input.comment_op(id),
            op_views(ops@) == op_views(old(ops)@) + comments@.take(i as int).flat_map(f),
    {
        let comment = &comments[i];
        let ghost before = op_views(ops@);
        proof {
            comments@.lemma_flat_map_take_append(f, i as int);
        }
        let mirrored = KanbanMirroredCommentRef {
            kanban_id: id,
            github_comment_id: comment.github_comment_id,
        };
        if !has_comment(&state.mirrored_comments, mirrored) {
            push_op(
                ops,
                SyncOp::AddComment {
                    kanban_id: id,
                    github_comment_id: comment.github_comment_id,
                    author_login: comment.author_login.clone(),
                    body: comment.body.clone(),
                },
            );
        }
        assert(op_views(ops@) =~= before + f(comments@[i as int]));
        assert(op_views(ops@) =~= op_views(old(ops)@) + (comments@.take(i as int).flat_map(f) + f(
            comments@[i as int],
        )));
    }
    assert(comments@.take(comments@.len() as int) =~= comments@);
}

/// Appends the relations of an issue that could not be fetched, and a note for each.
fn push_unsupported(
    issue: &GitHubIssue,
    unsupported: &mut Vec<UnsupportedSyncItem>,
    notes: &mut Vec<String>,
)
    ensures
        unsupported_views(final(unsupported)@) == unsupported_views(old(unsupported)@)
            + unsupported_of()(*issue),
        views_of(final(notes)@) == views_of(old(notes)@) + notes_of()(*issue),
{
    let relations = &issue.unsupported_relations;
    let ghost f = unsupported_item(issue.number);
    let ghost g = unsupported_note(issue.number);
    assert(relations@.take(0).flat_map(f) =~= Seq::empty());
    assert(relations@.take(0).flat_map(g) =~= Seq::empty());
    assert(unsupported_views(unsupported@) =~= unsupported_views(old(unsupported)@)
        + relations@.take(0).flat_map(f));
    assert(views_of(notes@) =~= views_of(old(notes)@) + relations@.take(0).flat_map(g));
    for i in 0..relations.len()
        invariant
            relations == issue.unsupported_relations,
            f == unsupported_item(issue.number),
            g == unsupported_note(issue.number),
            unsupported_views(unsupported@) == unsupported_views(old(unsupported)@)
                + relations@.take(i as int).flat_map(f),
            views_of(notes@) == views_of(old(notes)@) + relations@.take(i as int).flat_map(g),
    {
        let relation = &relations[i];
        let ghost items_before = unsupported@;
        let ghost notes_before = notes@;
        proof {
            relations@.lemma_flat_map_take_append(f, i as int);
            relations@.lemma_flat_map_take_append(g, i as int);
        }
        unsupported.push(
            UnsupportedSyncItem::GitHubRelation {
                github_number: issue.number,
                kind: relation.kind,
                reason: relation.reason.clone(),
            },
        );
        let mut note = owned("GitHub issue #");
        push_decimal(&mut note, issue.number);
        note.append(" ");
        note.append(relation.kind.name());
        note.append(" needs manual sync: ");
        note.append(relation.reason.as_str());
        notes.push(note);
        proof {
            assert(unsupported_views(unsupported@) =~= unsupported_views(items_before) + f(
                relations@[i as int],
            ));
            assert(unsupported_views(unsupported@) =~= unsupported_views(old(unsupported)@) + (
            relations@.take(i as int).flat_map(f) + f(relations@[i as int])));
            assert(views_of(notes@) =~= views_of(notes_before) + g(relations@[i as int]));
            assert(views_of(notes@) =~= views_of(old(notes)@) + (relations@.take(i as int).flat_map(
                g,
            ) + g(relations@[i as int])));
        }
    }
    assert(relations@.take(relations@.len() as int) =~= relations@);
}

/// Builds the plan for a snapshot and a board, with `fresh_ids[i]` in reserve for the issue at
/// position `i` should it be new. Of the issues with the same number the last one decides which
/// identifier that number has.
pub fn plan_sync_with_ids(
    github_issues: &[GitHubIssue],
    state: &KanbanSyncState,
    fresh_ids: &Vec<Uuid>,
) -> (plan: SyncPlan)
    requires
        fresh_ids@.len() == github_issues@.len(),
    ensures
        is_plan_for(
            plan,
            PlanInput { issues: github_issues@, state: *state, fresh: fresh_ids@ },
        ),
{
    let ghost input = PlanInput { issues: github_issues@, state: *state, fresh: fresh_ids@ };
    let planner = build_planner(github_issues, state, fresh_ids);
    let mut plan = SyncPlan::default();
    let mut unresolved: Vec<u64> = Vec::new();
    let ghost f = input.issue_ops();
    proof {
        let none = input.issues.take(0);
        assert(none.flat_map(f) =~= Seq::empty());
        assert(none.flat_map(unsupported_of()) =~= Seq::empty());
        assert(none.flat_map(notes_of()) =~= Seq::empty());
        assert(op_views(plan.ops@) =~= Seq::empty());
        assert(unsupported_views(plan.unsupported@) =~= Seq::empty());
        assert(views_of(plan.notes@) =~= Seq::empty());
    }
    for i in 0..github_issues.len()
        invariant
            input == (PlanInput { issues: github_issues@, state: *state, fresh: fresh_ids@ }),
            f == input.issue_ops(),
            planner.wf(input),
            op_views(plan.ops@) == input.issues.take(i as int).flat_map(f),
            unsupported_views(plan.unsupported@) == input.issues.take(i as int).flat_map(
                unsupported_of(),
            ),
            views_of(plan.notes@) == input.issues.take(i as int).flat_map(notes_of()),
            forall|n: u64|
                #![trigger unresolved@.contains(n)]
                unresolved@.contains(n) <==> (exists|k: int|
                    0 <= k < i && references(#[trigger] input.issues[k], n)) && !input.in_scope(n),
    {
        let issue = &github_issues[i];
        proof {
            input.issues.lemma_flat_map_take_append(f, i as int);
            input.issues.lemma_flat_map_take_append(unsupported_of(), i as int);
            input.issues.lemma_flat_map_take_append(notes_of(), i as int);
            lemma_planned_in_scope(input, input.issues.len() as int, issue.number);
            assert(input.issues[i as int] == *issue);
        }
        let ghost ops_before = op_views(plan.ops@);
        push_unsupported(issue, &mut plan.unsupported, &mut plan.notes);
        let id = match planner.planned_id(issue.number, Ghost(input)) {
            Some(id) => id,
            None => fresh_ids[i],
        };
        let ops = &mut plan.ops;
        planner.push_own_ops(github_issues, state, issue, id, ops, Ghost(input));
        planner.push_sub_issue_ops(
            state,
            &issue.sub_issues,
            id,
            ops,
            &mut unresolved,
            Ghost(input),
        );
        planner.push_blocker_ops(state, &issue.blocked_by, id, ops, &mut unresolved, Ghost(input));
        planner.push_related_ops(
            state,
            &issue.related_issues,
            id,
            ops,
            &mut unresolved,
            Ghost(input),
        );
        push_tag_ops(&issue.labels, id, ops, Ghost(input));
        push_comment_ops(state, &issue.mirror_comments, id, ops, Ghost(input));
        proof {
            assert(op_views(plan.ops@) =~= ops_before + f(*issue));
        }
    }
    assert(input.issues.take(input.issues.len() as int) =~= input.issues);
    plan.unresolved_github_refs = sorted_unique(&unresolved);
    let ghost notes_before = plan.notes@;
    plan.notes.push(owned("TODO(#171): push-back from Kanban → GitHub (status, labels, assignees)"));
    assert(views_of(plan.notes@) =~= views_of(notes_before).push(standing_note()));
    plan
}

/// Builds the plan for a snapshot and a board. Each issue that the board does not track gets a
/// random identifier in reserve.
pub fn plan_sync_with_state(github_issues: &[GitHubIssue], state: &KanbanSyncState) -> (plan:
    SyncPlan)
    ensures
        exists|input: PlanInput|
            {
                &&& #[trigger] input.wf()
                &&& input.issues == github_issues@
                &&& input.state == *state
                &&& forall|i: int|
                    0 <= i < input.issues.len() && input.existing(input.issues[i].number) is None
                        ==> is_random_id(#[trigger] input.fresh[i].bits)
                &&& is_plan_for(plan, input)
            },
{
    let positions = tracked_positions(&state.issues);
    let mut fresh_ids: Vec<Uuid> = Vec::new();
    for i in 0..github_issues.len()
        invariant
            forall|n: u64|
                #![trigger positions@.contains_key(n)]
                {
                    &&& positions@.contains_key(n) <==> last_tracking(state.issues@, n) is Some
                    &&& positions@.contains_key(n) ==> positions@[n] < state.issues@.len()
                },
            fresh_ids@.len() == i,
            forall|k: int|
                0 <= k < i && last_tracking(state.issues@, github_issues@[k].number) is None
                    ==> is_random_id(#[trigger] fresh_ids@[k].bits),
    {
        let number = github_issues[i].number;
        let id = match positions.get(&number) {
            Some(at) => state.issues[*at].id,
            None => Uuid::new_v4(),
        };
        assert(positions@.contains_key(number) <==> last_tracking(state.issues@, number) is Some);
        fresh_ids.push(id);
    }
    let plan = plan_sync_with_ids(github_issues, state, &fresh_ids);
    proof {
        let input = PlanInput { issues: github_issues@, state: *state, fresh: fresh_ids@ };
        assert(input.wf());
        assert forall|i: int|
            0 <= i < input.issues.len() && input.existing(input.issues[i].number)
                is None implies is_random_id(#[trigger] input.fresh[i].bits) by {
            assert(input.fresh[i].bits == fresh_ids@[i].bits);
        }
        assert(is_plan_for(plan, input));
    }
    plan
}

/// Builds the plan for a snapshot and a board of which only the issues are known.
///
/// `github_issues` holds every GitHub issue in scope for this sync run, `existing_kanban` every
/// Kanban issue that might already track a GitHub issue.
pub fn plan_sync(github_issues: &[GitHubIssue], existing_kanban: &[KanbanIssueRef]) -> (plan:
    SyncPlan)
    ensures
        exists|input: PlanInput|
            {
                &&& #[trigger] input.wf()
                &&& input.issues == github_issues@
                &&& input.state.issues@ == existing_kanban@
                &&& input.state.relationships@.len() == 0
                &&& input.state.mirrored_comments@.len() == 0
                &&& forall|i: int|
                    0 <= i < input.issues.len() && input.existing(input.issues[i].number) is None
                        ==> is_random_id(#[trigger] input.fresh[i].bits)
                &&& is_plan_for(plan, input)
            },
{
    let mut issues: Vec<KanbanIssueRef> = Vec::new();
    for i in 0..existing_kanban.len()
        invariant
            issues@ == existing_kanban@.take(i as int),
    {
        issues.push(existing_kanban[i].copy());
        assert(existing_kanban@.take(i + 1) =~= existing_kanban@.take(i as int).push(
            existing_kanban@[i as int],
        ));
    }
    assert(existing_kanban@.take(existing_kanban@.len() as int) =~= existing_kanban@);
    let state = KanbanSyncState {
        issues,
        relationships: Vec::new(),
        mirrored_comments: Vec::new(),
    };
    plan_sync_with_state(github_issues, &state)
}

} // verus!
