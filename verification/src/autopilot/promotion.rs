//! Moving the issue of a workspace along the columns of its board.
use vstd::prelude::*;

use crate::api::{empty_update_issue_request, Timestamp, UpdateIssueRequest};
#[allow(unused_imports)]
use crate::api::{no_change, UpdateIssueRequestView};
use crate::ids::Uuid;
use crate::text::{same_ignoring_case, trim};
#[allow(unused_imports)]
use crate::text::{lowered, trimmed};

verus! {

/// A column of a board.
#[derive(Debug, Clone)]
pub struct ProjectStatus {
    pub id: Uuid,
    pub name: String,
}

/// The issue that is linked to a workspace, as far as the autopilot moves it.
#[derive(Debug, Clone, Copy, PartialEq, Eq, Structural)]
pub struct LinkedIssue {
    pub id: Uuid,
    pub status_id: Uuid,
    pub completed_at: Option<Timestamp>,
}

/// The column is called `name`, but for case and white space around it.
pub open spec fn is_called(status: ProjectStatus, name: Seq<char>) -> bool {
    lowered(trimmed(status.name@)) == lowered(name)
}

/// The first column called `name`.
pub open spec fn column(statuses: Seq<ProjectStatus>, name: Seq<char>) -> Option<Uuid>
    decreases statuses.len(),
{
    if statuses.len() == 0 {
        None
    } else if is_called(statuses[0], name) {
        Some(statuses[0].id)
    } else {
        column(statuses.drop_first(), name)
    }
}

/// The first column called `name`.
fn find_column(statuses: &[ProjectStatus], name: &str) -> (r: Option<Uuid>)
    ensures
        r == column(statuses@, name@),
{
    assert(statuses@.skip(0) =~= statuses@);
    for i in 0..statuses.len()
        invariant
            column(statuses@, name@) == column(statuses@.skip(i as int), name@),
    {
        let bare = trim(statuses[i].name.as_str());
        if same_ignoring_case(bare.as_str(), name) {
            return Some(statuses[i].id);
        }
        assert(statuses@.skip(i as int).drop_first() =~= statuses@.skip(i + 1));
    }
    None
}

/// What an optional change says.
pub open spec fn view_of_update(update: Option<UpdateIssueRequest>) -> Option<
    UpdateIssueRequestView,
> {
    match update {
        Some(update) => Some(update@),
        None => None,
    }
}

/// The change that moves an issue to review: none where the board has no such column or the issue
/// stands there.
pub open spec fn move_to_review(issue: LinkedIssue, statuses: Seq<ProjectStatus>) -> Option<
    UpdateIssueRequestView,
> {
    match column(statuses, "in review"@) {
        Some(id) => if issue.status_id == id {
            None
        } else {
            Some(UpdateIssueRequestView { status_id: Some(id), ..no_change() })
        },
        None => None,
    }
}

/// The change that moves an issue to done at the time `now`: none where the board has no such
/// column or the issue stands there and is completed.
pub open spec fn move_to_done(
    issue: LinkedIssue,
    statuses: Seq<ProjectStatus>,
    now: Timestamp,
) -> Option<UpdateIssueRequestView> {
    match column(statuses, "done"@) {
        Some(id) => if issue.status_id == id && issue.completed_at is Some {
            None
        } else {
            Some(
                UpdateIssueRequestView {
                    status_id: Some(id),
                    completed_at: Some(Some(now)),
                    ..no_change()
                },
            )
        },
        None => None,
    }
}

/// The change that moves an issue to review, where there is something to change.
pub fn promote_issue_to_in_review(issue: &LinkedIssue, statuses: &[ProjectStatus]) -> (r:
    Option<UpdateIssueRequest>)
    ensures
        view_of_update(r) == move_to_review(*issue, statuses@),
{
    let id = match find_column(statuses, "in review") {
        Some(id) => id,
        None => {
            return None;
        },
    };
    if issue.status_id == id {
        return None;
    }
    let mut update = empty_update_issue_request();
    update.status_id = Some(id);
    Some(update)
}

/// The change that moves an issue to done at the time `now`, where there is something to change.
pub fn promote_issue_to_done(
    issue: &LinkedIssue,
    statuses: &[ProjectStatus],
    now: Timestamp,
) -> (r: Option<UpdateIssueRequest>)
    ensures
        view_of_update(r) == move_to_done(*issue, statuses@, now),
{
    let id = match find_column(statuses, "done") {
        Some(id) => id,
        None => {
            return None;
        },
    };
    if issue.status_id == id && issue.completed_at.is_some() {
        return None;
    }
    let mut update = empty_update_issue_request();
    update.status_id = Some(id);
    update.completed_at = Some(Some(now));
    Some(update)
}

/// Whether the issue that is linked to a workspace is done: none never is.
pub fn linked_issue_is_done(issue: &Option<LinkedIssue>) -> (r: bool)
    ensures
        r == (issue is Some && issue->0.completed_at is Some),
{
    match issue {
        Some(issue) => issue.completed_at.is_some(),
        None => false,
    }
}

// ---------------------------------------------------------------------------
// Laws
// ---------------------------------------------------------------------------

/// An issue that a change has moved to review stays there: nothing is left to change.
pub proof fn law_move_to_review_settles(issue: LinkedIssue, statuses: Seq<ProjectStatus>)
    ensures
        move_to_review(issue, statuses) matches Some(update) ==> update.status_id is Some
            && move_to_review(
            LinkedIssue { status_id: update.status_id->0, ..issue },
            statuses,
        ) is None,
{
}

/// An issue that a change has moved to done stays there: nothing is left to change.
pub proof fn law_move_to_done_settles(
    issue: LinkedIssue,
    statuses: Seq<ProjectStatus>,
    now: Timestamp,
    later: Timestamp,
)
    ensures
        move_to_done(issue, statuses, now) matches Some(update) ==> update.status_id is Some
            && update.completed_at is Some && move_to_done(
            LinkedIssue {
                status_id: update.status_id->0,
                completed_at: update.completed_at->0,
                ..issue
            },
            statuses,
            later,
        ) is None,
{
}

/// The column with a name is the first that has it, but for case and white space around it.
proof fn lemma_column(statuses: Seq<ProjectStatus>, name: Seq<char>)
    ensures
        column(statuses, name) is None <==> forall|i: int|
            0 <= i < statuses.len() ==> lowered(trimmed((#[trigger] statuses[i]).name@)) != lowered(
                name,
            ),
        column(statuses, name) matches Some(id) ==> exists|i: int|
            is_first_column(statuses, name, i) && #[trigger] statuses[i].id == id,
        forall|i: int|
            is_first_column(statuses, name, i) ==> column(statuses, name) == Some(
                #[trigger] statuses[i].id,
            ),
    decreases statuses.len(),
{
    if statuses.len() > 0 {
        let rest = statuses.drop_first();
        lemma_column(rest, name);
        assert(forall|i: int| 1 <= i < statuses.len() ==> #[trigger] statuses[i] == rest[i - 1]);
        if is_called(statuses[0], name) {
            assert(is_first_column(statuses, name, 0));
            assert forall|i: int| is_first_column(statuses, name, i) implies column(statuses, name)
                == Some(#[trigger] statuses[i].id) by {
                if i > 0 {
                    assert(lowered(trimmed(statuses[0].name@)) != lowered(name));
                }
            }
        } else {
            if column(rest, name) is Some {
                let id = column(rest, name)->0;
                let i = choose|i: int|
                    is_first_column(rest, name, i) && #[trigger] rest[i].id == id;
                assert(statuses[i + 1] == rest[i]);
                assert forall|j: int| 0 <= j < i + 1 implies lowered(
                    trimmed((#[trigger] statuses[j]).name@),
                ) != lowered(name) by {
                    if j > 0 {
                        assert(lowered(trimmed(rest[j - 1].name@)) != lowered(name));
                    }
                }
                assert(is_first_column(statuses, name, i + 1) && statuses[i + 1].id == id);
            } else {
                assert forall|j: int| 0 <= j < statuses.len() implies lowered(
                    trimmed((#[trigger] statuses[j]).name@),
                ) != lowered(name) by {
                    if j > 0 {
                        assert(lowered(trimmed(rest[j - 1].name@)) != lowered(name));
                    }
                }
            }
            assert forall|i: int| is_first_column(statuses, name, i) implies column(statuses, name)
                == Some(#[trigger] statuses[i].id) by {
                assert(i > 0);
                assert(rest[i - 1] == statuses[i]);
                assert forall|j: int| 0 <= j < i - 1 implies lowered(
                    trimmed((#[trigger] rest[j]).name@),
                ) != lowered(name) by {
                    assert(rest[j] == statuses[j + 1]);
                }
                assert(is_first_column(rest, name, i - 1));
                assert(rest[i - 1].id == statuses[i].id);
            }
        }
    }
}

/// The column at position `i` is the first that is called `name`, but for case and white space
/// around it.
pub open spec fn is_first_column(statuses: Seq<ProjectStatus>, name: Seq<char>, i: int) -> bool {
    &&& 0 <= i < statuses.len()
    &&& lowered(trimmed(statuses[i].name@)) == lowered(name)
    &&& forall|j: int|
        0 <= j < i ==> lowered(trimmed((#[trigger] statuses[j]).name@)) != lowered(name)
}

/// An issue is moved to the first column that is called "In review", unless it stands there: its
/// column changes and nothing else.
pub proof fn law_issues_move_to_the_review_column(
    issue: LinkedIssue,
    statuses: Seq<ProjectStatus>,
    i: int,
)
    ensures
        (forall|k: int|
            0 <= k < statuses.len() ==> lowered(trimmed((#[trigger] statuses[k]).name@)) != lowered(
                "in review"@,
            )) ==> move_to_review(issue, statuses) is None,
        is_first_column(statuses, "in review"@, i) ==> {
            &&& issue.status_id == statuses[i].id ==> move_to_review(issue, statuses) is None
            &&& issue.status_id != statuses[i].id ==> (move_to_review(issue, statuses) matches Some(
                update,
            ) && {
                &&& update.status_id == Some(statuses[i].id)
                &&& update.title is None && update.description is None
                &&& update.completed_at is None && update.parent_issue_id is None
                &&& update.priority is None && update.start_date is None
                &&& update.target_date is None && update.sort_order is None
                &&& update.parent_issue_sort_order is None && update.extension_metadata is None
            })
        },
{
    lemma_column(statuses, "in review"@);
    if is_first_column(statuses, "in review"@, i) {
        assert(column(statuses, "in review"@) == Some(statuses[i].id));
    }
}

/// An issue is moved to the first column that is called "Done", unless it stands there and is
/// completed: its column changes, it is completed at the given time, and nothing else changes.
pub proof fn law_issues_move_to_the_done_column(
    issue: LinkedIssue,
    statuses: Seq<ProjectStatus>,
    now: Timestamp,
    i: int,
)
    ensures
        (forall|k: int|
            0 <= k < statuses.len() ==> lowered(trimmed((#[trigger] statuses[k]).name@)) != lowered(
                "done"@,
            )) ==> move_to_done(issue, statuses, now) is None,
        is_first_column(statuses, "done"@, i) ==> {
            &&& issue.status_id == statuses[i].id && issue.completed_at is Some ==> move_to_done(
                issue,
                statuses,
                now,
            ) is None
            &&& issue.status_id != statuses[i].id || issue.completed_at is None ==> (move_to_done(
                issue,
                statuses,
                now,
            ) matches Some(update) && {
                &&& update.status_id == Some(statuses[i].id)
                &&& update.completed_at == Some(Some(now))
                &&& update.title is None && update.description is None
                &&& update.parent_issue_id is None && update.priority is None
                &&& update.start_date is None && update.target_date is None
                &&& update.sort_order is None && update.parent_issue_sort_order is None
                &&& update.extension_metadata is None
            })
        },
{
    lemma_column(statuses, "done"@);
    if is_first_column(statuses, "done"@, i) {
        assert(column(statuses, "done"@) == Some(statuses[i].id));
    }
}

} // verus!
