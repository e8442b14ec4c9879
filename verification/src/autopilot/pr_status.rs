//! The status of a pull request: what its host reports of it, and what that means for a merge.
use vstd::prelude::*;

use super::types::{AutopilotPrChecksState, AutopilotPrStatus, LocalPullRequest, MergeStatus};
#[allow(unused_imports)]
use super::types::{view_of_pr, PrStatusView};
use crate::json::Json;
#[allow(unused_imports)]
use crate::json::{json_in_bytes, lemma_array_view, view_of_json_ref, JsonView};
use crate::text::{
    copy_option, is_blank, join, owned, push_decimal, same_ignoring_case, same_text,
    slice_of_option, to_lower, to_upper, trim,
};
#[allow(unused_imports)]
use crate::text::{
    contains_text, decimal, joined, lowered, occurs_at, starts_with_text, trimmed, uppered,
    view_of_option, view_of_slice, views_of,
};

verus! {

// ---------------------------------------------------------------------------
// Checks
// ---------------------------------------------------------------------------

/// How a check stands.
#[derive(Debug, Clone, Copy, PartialEq, Eq, Structural)]
pub enum CheckVerdict {
    Passing,
    Pending,
    Failing,
}

/// A conclusion of a check that has passed.
pub open spec fn is_passing(conclusion: Seq<char>) -> bool {
    ||| conclusion == "SUCCESS"@
    ||| conclusion == "SKIPPED"@
    ||| conclusion == "NEUTRAL"@
    ||| conclusion == "COMPLETED"@
}

/// A conclusion of a check that has failed.
pub open spec fn is_failing(conclusion: Seq<char>) -> bool {
    ||| conclusion == "FAILURE"@
    ||| conclusion == "FAILED"@
    ||| conclusion == "ERROR"@
    ||| conclusion == "TIMED_OUT"@
    ||| conclusion == "CANCELLED"@
    ||| conclusion == "ACTION_REQUIRED"@
}

/// The conclusion of a check in upper case: its `conclusion`, else its `state`, else its
/// `status`; where that is missing or no text, it is unknown.
pub open spec fn conclusion_of(check: JsonView) -> Seq<char> {
    let said = match check.member("conclusion"@) {
        Some(value) => value.text(),
        None => match check.member("state"@) {
            Some(value) => value.text(),
            None => check.member_text("status"@),
        },
    };
    uppered(
        match said {
            Some(text) => text,
            None => "UNKNOWN"@,
        },
    )
}

/// How a check stands. A check has neither passed nor failed until it says so.
pub open spec fn verdict_of(check: JsonView) -> CheckVerdict {
    if is_passing(conclusion_of(check)) {
        CheckVerdict::Passing
    } else if is_failing(conclusion_of(check)) {
        CheckVerdict::Failing
    } else {
        CheckVerdict::Pending
    }
}

/// A member that is a text and not blank.
pub open spec fn member_name(check: JsonView, key: Seq<char>) -> Option<Seq<char>> {
    match check.member_text(key) {
        Some(name) => if trimmed(name).len() > 0 {
            Some(name)
        } else {
            None
        },
        None => None,
    }
}

/// The name of a check: its `name`, else its `context`, else its `workflowName`.
pub open spec fn name_of_check(check: JsonView) -> Seq<char> {
    match member_name(check, "name"@) {
        Some(name) => name,
        None => match member_name(check, "context"@) {
            Some(name) => name,
            None => match member_name(check, "workflowName"@) {
                Some(name) => name,
                None => "unnamed check"@,
            },
        },
    }
}

/// The class of checks that stand so.
pub open spec fn standing(verdict: CheckVerdict) -> spec_fn(JsonView) -> bool {
    |check: JsonView| verdict_of(check) == verdict
}

/// The names of the checks that fail.
pub open spec fn failing_names(checks: Seq<JsonView>) -> Seq<Seq<char>> {
    checks.filter(standing(CheckVerdict::Failing)).map_values(
        |check: JsonView| name_of_check(check),
    )
}

/// At most three of `names`.
pub open spec fn first_three(names: Seq<Seq<char>>) -> Seq<Seq<char>> {
    if names.len() <= 3 {
        names
    } else {
        names.take(3)
    }
}

/// How the checks of a pull request stand together, and a sentence that says so.
pub open spec fn rollup_summary(rollup: Option<JsonView>) -> (
    AutopilotPrChecksState,
    Seq<char>,
) {
    match rollup {
        Some(JsonView::Array(checks)) => {
            let failing = failing_names(checks);
            let pending = checks.filter(standing(CheckVerdict::Pending)).len();
            let passing = checks.filter(standing(CheckVerdict::Passing)).len();
            if checks.len() == 0 {
                (
                    AutopilotPrChecksState::NoChecks,
                    "No required or reported checks were found."@,
                )
            } else if failing.len() > 0 {
                (
                    AutopilotPrChecksState::Failing,
                    decimal(failing.len()) + " failing check(s): "@ + joined(
                        first_three(failing),
                        ", "@,
                    ),
                )
            } else if pending > 0 {
                (
                    AutopilotPrChecksState::Pending,
                    decimal(pending) + " pending check(s), "@ + decimal(passing) + " passing."@,
                )
            } else {
                (AutopilotPrChecksState::Passing, decimal(passing) + " check(s) passing."@)
            }
        },
        _ => (AutopilotPrChecksState::Unknown, "GitHub did not return check details."@),
    }
}

/// How a check stands.
fn check_verdict(check: &Json) -> (r: CheckVerdict)
    ensures
        r == verdict_of(check@),
{
    let said = match check.get("conclusion") {
        Some(value) => value.as_str(),
        None => match check.get("state") {
            Some(value) => value.as_str(),
            None => check.get_str("status"),
        },
    };
    let upper = to_upper(
        match said {
            Some(text) => text,
            None => "UNKNOWN",
        },
    );
    let conclusion = upper.as_str();
    if same_text(conclusion, "SUCCESS") || same_text(conclusion, "SKIPPED") || same_text(
        conclusion,
        "NEUTRAL",
    ) || same_text(conclusion, "COMPLETED") {
        CheckVerdict::Passing
    } else if same_text(conclusion, "FAILURE") || same_text(conclusion, "FAILED") || same_text(
        conclusion,
        "ERROR",
    ) || same_text(conclusion, "TIMED_OUT") || same_text(conclusion, "CANCELLED") || same_text(
        conclusion,
        "ACTION_REQUIRED",
    ) {
        CheckVerdict::Failing
    } else {
        CheckVerdict::Pending
    }
}

/// A member that is a text and not blank.
fn named_member<'a>(check: &'a Json, key: &str) -> (r: Option<&'a str>)
    ensures
        view_of_slice(r) == member_name(check@, key@),
{
    match check.get_str(key) {
        Some(name) => if is_blank(name) {
            None
        } else {
            Some(name)
        },
        None => None,
    }
}

/// The name of a check.
pub fn check_name(check: &Json) -> (r: String)
    ensures
        r@ == name_of_check(check@),
{
    match named_member(check, "name") {
        Some(name) => owned(name),
        None => match named_member(check, "context") {
            Some(name) => owned(name),
            None => match named_member(check, "workflowName") {
                Some(name) => owned(name),
                None => owned("unnamed check"),
            },
        },
    }
}

/// One more check, counted where it stands so.
proof fn lemma_count_check(checks: Seq<JsonView>, i: int, verdict: CheckVerdict)
    requires
        0 <= i < checks.len(),
    ensures
        checks.take(i + 1).filter(standing(verdict)) == if verdict_of(checks[i]) == verdict {
            checks.take(i).filter(standing(verdict)).push(checks[i])
        } else {
            checks.take(i).filter(standing(verdict))
        },
        checks.take(i).filter(standing(verdict)).len() <= i,
    decreases i,
{
    reveal(Seq::filter);
    assert(checks.take(i + 1).drop_last() =~= checks.take(i));
    assert(checks.take(i + 1).last() == checks[i]);
    if i > 0 {
        lemma_count_check(checks, i - 1, verdict);
    }
}

/// How the checks of a pull request stand together, and a sentence that says so.
pub fn summarize_check_rollup(rollup: Option<&Json>) -> (r: (AutopilotPrChecksState, String))
    ensures
        (r.0, r.1@) == rollup_summary(view_of_json_ref(rollup)),
{
    let found = match rollup {
        Some(value) => value.as_array(),
        None => None,
    };
    let checks = match found {
        Some(checks) => checks,
        None => {
            return (
                AutopilotPrChecksState::Unknown,
                owned("GitHub did not return check details."),
            );
        },
    };
    proof {
        lemma_array_view(*checks);
    }
    let ghost views = view_of_json_ref(rollup)->0->Array_0;
    assert(views.len() == checks@.len());
    if checks.len() == 0 {
        return (
            AutopilotPrChecksState::NoChecks,
            owned("No required or reported checks were found."),
        );
    }
    let mut passing: usize = 0;
    let mut pending: usize = 0;
    let mut failing: Vec<String> = Vec::new();
    proof {
        reveal(Seq::filter);
        assert(views.take(0) =~= Seq::empty());
        assert(failing_names(views.take(0)) =~= views_of(failing@));
    }
    for i in 0..checks.len()
        invariant
            views.len() == checks@.len(),
            forall|k: int| 0 <= k < checks@.len() ==> #[trigger] views[k] == checks@[k]@,
            passing == views.take(i as int).filter(standing(CheckVerdict::Passing)).len(),
            pending == views.take(i as int).filter(standing(CheckVerdict::Pending)).len(),
            views_of(failing@) == failing_names(views.take(i as int)),
    {
        let check = &checks[i];
        assert(views[i as int] == check@);
        proof {
            lemma_count_check(views, i as int, CheckVerdict::Passing);
            lemma_count_check(views, i as int, CheckVerdict::Pending);
            lemma_count_check(views, i as int, CheckVerdict::Failing);
        }
        let ghost before = failing@;
        match check_verdict(check) {
            CheckVerdict::Passing => {
                passing += 1;
            },
            CheckVerdict::Pending => {
                pending += 1;
            },
            CheckVerdict::Failing => {
                failing.push(check_name(check));
            },
        }
        proof {
            if verdict_of(check@) == CheckVerdict::Failing {
                assert(views_of(failing@) =~= views_of(before).push(name_of_check(check@)));
                assert(failing_names(views.take(i + 1)) =~= failing_names(
                    views.take(i as int),
                ).push(name_of_check(check@)));
            }
        }
    }
    assert(views.take(views.len() as int) =~= views);
    if failing.len() > 0 {
        let mut summary = String::new();
        push_decimal(&mut summary, failing.len() as u64);
        summary.append(" failing check(s): ");
        let mut named: Vec<String> = Vec::new();
        let ghost first = first_three(failing_names(views));
        for i in 0..failing.len()
            invariant
                first == first_three(views_of(failing@)),
                views_of(named@) == if i < 3 {
                    first.take(i as int)
                } else {
                    first
                },
        {
            if i < 3 {
                let ghost before = named@;
                named.push(failing[i].clone());
                assert(views_of(named@) =~= views_of(before).push(failing@[i as int]@));
                assert(views_of(failing@)[i as int] == failing@[i as int]@);
                assert(first.take(i + 1) =~= first.take(i as int).push(failing@[i as int]@));
                assert(i + 1 == first.len() ==> first.take(i + 1) =~= first);
            }
        }
        assert(views_of(named@) =~= first);
        let list = join(&named, ", ");
        summary.append(list.as_str());
        assert(summary@ =~= decimal(failing@.len()) + " failing check(s): "@ + joined(
            first,
            ", "@,
        ));
        return (AutopilotPrChecksState::Failing, summary);
    }
    let mut summary = String::new();
    if pending > 0 {
        push_decimal(&mut summary, pending as u64);
        summary.append(" pending check(s), ");
        push_decimal(&mut summary, passing as u64);
        summary.append(" passing.");
        assert(summary@ =~= decimal(pending as nat) + " pending check(s), "@ + decimal(
            passing as nat,
        ) + " passing."@);
        return (AutopilotPrChecksState::Pending, summary);
    }
    push_decimal(&mut summary, passing as u64);
    summary.append(" check(s) passing.");
    assert(summary@ =~= decimal(passing as nat) + " check(s) passing."@);
    (AutopilotPrChecksState::Passing, summary)
}

// ---------------------------------------------------------------------------
// What keeps a pull request from a merge
// ---------------------------------------------------------------------------

/// A state of a merge, in upper case, in which the host does not let it happen.
pub open spec fn is_blocking_merge_state(state: Seq<char>) -> bool {
    ||| state == "DIRTY"@
    ||| state == "UNKNOWN"@
    ||| state == "BLOCKED"@
    ||| state == "BEHIND"@
}

/// What keeps a pull request from a merge, if anything does.
pub open spec fn merge_blocker_of(
    is_draft: bool,
    mergeable: Option<Seq<char>>,
    merge_state_status: Option<Seq<char>>,
    checks_state: AutopilotPrChecksState,
) -> Option<Seq<char>> {
    if is_draft {
        Some("PR is still a draft."@)
    } else if mergeable is None {
        Some("PR mergeability is unknown."@)
    } else if lowered(mergeable->0) == lowered("CONFLICTING"@) || (merge_state_status is Some
        && is_blocking_merge_state(uppered(merge_state_status->0))) {
        Some(
            "PR is not currently mergeable ("@ + mergeable->0 + "/"@ + (match merge_state_status {
                Some(state) => state,
                None => "unknown"@,
            }) + ")."@,
        )
    } else {
        match checks_state {
            AutopilotPrChecksState::Failing => Some("PR has failing checks."@),
            AutopilotPrChecksState::Pending => Some("PR checks are not green yet."@),
            AutopilotPrChecksState::Unknown => Some("PR checks are not green yet."@),
            AutopilotPrChecksState::NoChecks => None,
            AutopilotPrChecksState::Passing => None,
        }
    }
}

/// What keeps a pull request from a merge, if anything does.
pub fn pr_merge_blocker(
    is_draft: bool,
    mergeable: Option<&str>,
    merge_state_status: Option<&str>,
    checks_state: &AutopilotPrChecksState,
) -> (r: Option<String>)
    ensures
        view_of_option(r) == merge_blocker_of(
            is_draft,
            view_of_slice(mergeable),
            view_of_slice(merge_state_status),
            *checks_state,
        ),
{
    if is_draft {
        return Some(owned("PR is still a draft."));
    }
    let mergeable = match mergeable {
        Some(mergeable) => mergeable,
        None => {
            return Some(owned("PR mergeability is unknown."));
        },
    };
    let held_back = match merge_state_status {
        Some(status) => {
            let state = to_upper(status);
            same_text(state.as_str(), "DIRTY") || same_text(state.as_str(), "UNKNOWN")
                || same_text(state.as_str(), "BLOCKED") || same_text(state.as_str(), "BEHIND")
        },
        None => false,
    };
    if same_ignoring_case(mergeable, "CONFLICTING") || held_back {
        let mut text = owned("PR is not currently mergeable (");
        text.append(mergeable);
        text.append("/");
        text.append(
            match merge_state_status {
                Some(status) => status,
                None => "unknown",
            },
        );
        text.append(").");
        return Some(text);
    }
    match checks_state {
        AutopilotPrChecksState::Failing => Some(owned("PR has failing checks.")),
        AutopilotPrChecksState::Pending => Some(owned("PR checks are not green yet.")),
        AutopilotPrChecksState::Unknown => Some(owned("PR checks are not green yet.")),
        AutopilotPrChecksState::NoChecks => None,
        AutopilotPrChecksState::Passing => None,
    }
}

// ---------------------------------------------------------------------------
// Reading a status
// ---------------------------------------------------------------------------

/// What GitHub reports of a pull request, as `gh pr view` prints it, where it has a number; the
/// URL it was asked for stands in for a missing one.
pub open spec fn reported_status(value: JsonView, pr_url: Seq<char>) -> Option<PrStatusView> {
    let number = match value.member("number"@) {
        Some(number) => number.integer(),
        None => None,
    };
    let is_draft = value.member("isDraft"@) == Some(JsonView::Bool(true));
    let mergeable = value.member_text("mergeable"@);
    let merge_state_status = value.member_text("mergeStateStatus"@);
    let (checks_state, checks_summary) = rollup_summary(value.member("statusCheckRollup"@));
    match number {
        None => None,
        Some(number) => Some(
            PrStatusView {
                number,
                url: match value.member_text("url"@) {
                    Some(url) => url,
                    None => pr_url,
                },
                state: lowered(
                    match value.member_text("state"@) {
                        Some(state) => state,
                        None => "UNKNOWN"@,
                    },
                ),
                is_draft,
                head_sha: value.member_text("headRefOid"@),
                base_branch: value.member_text("baseRefName"@),
                mergeable,
                merge_state_status,
                merge_commit_sha: match value.member("mergeCommit"@) {
                    Some(commit) => commit.member_text("oid"@),
                    None => None,
                },
                checks_state,
                checks_summary,
                merge_blocker: merge_blocker_of(
                    is_draft,
                    mergeable,
                    merge_state_status,
                    checks_state,
                ),
                source: "github"@,
            },
        ),
    }
}

/// The text of the member with the key `key`, where that is a string.
fn owned_member(value: &Json, key: &str) -> (r: Option<String>)
    ensures
        view_of_option(r) == value@.member_text(key@),
{
    match value.get_str(key) {
        Some(text) => Some(owned(text)),
        None => None,
    }
}

/// What GitHub reports of a pull request in `value`.
pub fn pr_status_from_value(value: &Json, pr_url: &str) -> (r: Option<AutopilotPrStatus>)
    ensures
        view_of_pr(r) == reported_status(value@, pr_url@),
{
    let found = match value.get("number") {
        Some(number) => number.as_i64(),
        None => None,
    };
    let number: i64 = match found {
        Some(number) => number,
        None => {
            return None;
        },
    };
    let url = match value.get_str("url") {
        Some(url) => owned(url),
        None => owned(pr_url),
    };
    let state = match value.get_str("state") {
        Some(state) => to_lower(state),
        None => to_lower("UNKNOWN"),
    };
    let is_draft = match value.get("isDraft") {
        Some(draft) => match draft.as_bool() {
            Some(draft) => draft,
            None => false,
        },
        None => false,
    };
    let mergeable = owned_member(value, "mergeable");
    let merge_state_status = owned_member(value, "mergeStateStatus");
    let merge_commit_sha = match value.get("mergeCommit") {
        Some(commit) => owned_member(commit, "oid"),
        None => None,
    };
    let (checks_state, checks_summary) = summarize_check_rollup(value.get("statusCheckRollup"));
    let merge_blocker = pr_merge_blocker(
        is_draft,
        slice_of_option(&mergeable),
        slice_of_option(&merge_state_status),
        &checks_state,
    );
    Some(
        AutopilotPrStatus {
            number,
            url,
            state,
            is_draft,
            head_sha: owned_member(value, "headRefOid"),
            base_branch: owned_member(value, "baseRefName"),
            mergeable,
            merge_state_status,
            merge_commit_sha,
            checks_state,
            checks_summary,
            merge_blocker,
            source: owned("github"),
        },
    )
}

/// What GitHub reports of a pull request, from the outcome of `gh pr view`: a command that fails
/// and output that is no JSON report nothing.
pub fn pr_status_from_output(success: bool, stdout: &[u8], pr_url: &str) -> (r: Option<
    AutopilotPrStatus,
>)
    ensures
        view_of_pr(r) == (match json_in_bytes(stdout@) {
            Some(value) => if success {
                reported_status(value, pr_url@)
            } else {
                None
            },
            None => None,
        }),
{
    if !success {
        return None;
    }
    match Json::parse_bytes(stdout) {
        Some(value) => pr_status_from_value(&value, pr_url),
        None => None,
    }
}

/// The name of a status of a merge.
pub open spec fn merge_status_text(status: MergeStatus) -> Seq<char> {
    match status {
        MergeStatus::Open => "open"@,
        MergeStatus::Merged => "merged"@,
        MergeStatus::Closed => "closed"@,
        MergeStatus::Unknown => "unknown"@,
    }
}

/// The name of a status of a merge.
pub fn merge_status_label(status: &MergeStatus) -> (r: &'static str)
    ensures
        r@ == merge_status_text(*status),
{
    match status {
        MergeStatus::Open => "open",
        MergeStatus::Merged => "merged",
        MergeStatus::Closed => "closed",
        MergeStatus::Unknown => "unknown",
    }
}

/// What is known of a pull request without its host. It is never ready for a merge.
pub open spec fn local_status(pr: LocalPullRequest) -> PrStatusView {
    PrStatusView {
        number: pr.pr_number,
        url: pr.pr_url@,
        state: merge_status_text(pr.pr_status),
        is_draft: false,
        head_sha: None,
        base_branch: Some(pr.target_branch_name@),
        mergeable: None,
        merge_state_status: None,
        merge_commit_sha: view_of_option(pr.merge_commit_sha),
        checks_state: AutopilotPrChecksState::Unknown,
        checks_summary: "PR is tracked locally, but live GitHub check details are unavailable."@,
        merge_blocker: Some(
            "Live GitHub PR status is unavailable; cannot verify checks or mergeability."@,
        ),
        source: "local"@,
    }
}

/// The status of a pull request that the local database holds: what its host reports, or what is
/// known without it.
pub fn local_pr_status(reported: Option<AutopilotPrStatus>, pr: &LocalPullRequest) -> (r:
    AutopilotPrStatus)
    ensures
        r@ == (match view_of_pr(reported) {
            Some(status) => status,
            None => local_status(*pr),
        }),
{
    match reported {
        Some(status) => status,
        None => AutopilotPrStatus {
            number: pr.pr_number,
            url: pr.pr_url.clone(),
            state: owned(merge_status_label(&pr.pr_status)),
            is_draft: false,
            head_sha: None,
            base_branch: Some(pr.target_branch_name.clone()),
            mergeable: None,
            merge_state_status: None,
            merge_commit_sha: copy_option(&pr.merge_commit_sha),
            checks_state: AutopilotPrChecksState::Unknown,
            checks_summary: owned(
                "PR is tracked locally, but live GitHub check details are unavailable.",
            ),
            merge_blocker: Some(
                owned(
                    "Live GitHub PR status is unavailable; cannot verify checks or mergeability.",
                ),
            ),
            source: owned("local"),
        },
    }
}

// ---------------------------------------------------------------------------
// The metadata of an issue
// ---------------------------------------------------------------------------

/// The text of a member of the link to GitHub in the metadata of an issue.
pub open spec fn link_text(metadata: JsonView, key: Seq<char>) -> Option<Seq<char>> {
    match metadata.member("github_link"@) {
        Some(link) => link.member_text(key),
        None => None,
    }
}

/// The text of a member of the link to GitHub in the metadata of an issue.
fn github_link_text<'a>(metadata: &'a Json, key: &str) -> (r: Option<&'a str>)
    ensures
        view_of_slice(r) == link_text(metadata@, key@),
{
    match metadata.get("github_link") {
        Some(link) => link.get_str(key),
        None => None,
    }
}

/// The pull request that the metadata of an issue links to: a URL without white space around it
/// that is not empty.
pub open spec fn linked_pr_url(metadata: JsonView) -> Option<Seq<char>> {
    match link_text(metadata, "latest_pr_url"@) {
        Some(url) => if trimmed(url).len() > 0 {
            Some(trimmed(url))
        } else {
            None
        },
        None => None,
    }
}

/// The pull request that the metadata of an issue links to.
pub fn latest_pr_url_from_issue_metadata(metadata: &Json) -> (r: Option<String>)
    ensures
        view_of_option(r) == linked_pr_url(metadata@),
{
    match github_link_text(metadata, "latest_pr_url") {
        Some(url) => {
            let bare = trim(url);
            if bare.as_str().is_empty() {
                None
            } else {
                Some(bare)
            }
        },
        None => None,
    }
}

/// The issue belongs to the repository that the autopilot serves.
pub open spec fn is_implication(metadata: JsonView) -> bool {
    match link_text(metadata, "repo_full_name"@) {
        Some(repo) => lowered(trimmed(repo)) == lowered("gavinanelson/implication"@),
        None => false,
    }
}

/// Whether the issue belongs to the repository that the autopilot serves.
pub fn is_implication_issue_metadata(metadata: &Json) -> (r: bool)
    ensures
        r == is_implication(metadata@),
{
    match github_link_text(metadata, "repo_full_name") {
        Some(repo) => {
            let bare = trim(repo);
            same_ignoring_case(bare.as_str(), "gavinanelson/implication")
        },
        None => false,
    }
}

/// Whether the autopilot may work on a workspace: `issue` is the metadata of the issue that is
/// linked to it.
pub fn implication_autopilot_gate(issue: Option<&Json>) -> (r: Result<(), String>)
    ensures
        match r {
            Ok(_) => issue is Some && is_implication(issue->0@),
            Err(message) => match issue {
                None => message@ == "Implication autopilot requires a linked board issue."@,
                Some(metadata) => !is_implication(metadata@) && message@
                    == "Implication autopilot is only enabled for gavinanelson/implication issues."@,
            },
        },
{
    match issue {
        None => Err(owned("Implication autopilot requires a linked board issue.")),
        Some(metadata) => if is_implication_issue_metadata(metadata) {
            Ok(())
        } else {
            Err(
                owned(
                    "Implication autopilot is only enabled for gavinanelson/implication issues.",
                ),
            )
        },
    }
}

// ---------------------------------------------------------------------------
// Laws
// ---------------------------------------------------------------------------

/// Nothing keeps a pull request from a merge only where it is no draft, is known to be mergeable
/// without conflicts, and has no check that fails or is still open.
pub proof fn law_mergeable_means_green(
    is_draft: bool,
    mergeable: Option<Seq<char>>,
    merge_state_status: Option<Seq<char>>,
    checks_state: AutopilotPrChecksState,
)
    ensures
        merge_blocker_of(is_draft, mergeable, merge_state_status, checks_state) is None <==> {
            &&& !is_draft
            &&& mergeable is Some
            &&& lowered(mergeable->0) != lowered("CONFLICTING"@)
            &&& merge_state_status matches Some(state) ==> !is_blocking_merge_state(
                uppered(state),
            )
            &&& checks_state == AutopilotPrChecksState::Passing || checks_state
                == AutopilotPrChecksState::NoChecks
        },
{
}

/// The checks pass together only where there is one and each of them passes.
pub proof fn law_passing_means_every_check(checks: Seq<JsonView>)
    ensures
        rollup_summary(Some(JsonView::Array(checks))).0 == AutopilotPrChecksState::Passing
            <==> checks.len() > 0 && forall|i: int|
            0 <= i < checks.len() ==> verdict_of(#[trigger] checks[i]) == CheckVerdict::Passing,
{
    lemma_some_stand(checks, CheckVerdict::Failing);
    lemma_some_stand(checks, CheckVerdict::Pending);
    if rollup_summary(Some(JsonView::Array(checks))).0 == AutopilotPrChecksState::Passing {
        assert forall|i: int| 0 <= i < checks.len() implies verdict_of(#[trigger] checks[i])
            == CheckVerdict::Passing by {
            assert(verdict_of(checks[i]) != CheckVerdict::Failing);
            assert(verdict_of(checks[i]) != CheckVerdict::Pending);
        }
    }
}

/// Some check is kept where one stands so.
proof fn lemma_some_stand(checks: Seq<JsonView>, verdict: CheckVerdict)
    ensures
        checks.filter(standing(verdict)).len() > 0 <==> exists|i: int|
            0 <= i < checks.len() && verdict_of(#[trigger] checks[i]) == verdict,
    decreases checks.len(),
{
    reveal(Seq::filter);
    if checks.len() > 0 {
        let front = checks.drop_last();
        lemma_some_stand(front, verdict);
        assert(forall|i: int| 0 <= i < front.len() ==> #[trigger] front[i] == checks[i]);
        if verdict_of(checks.last()) == verdict {
            assert(verdict_of(checks[checks.len() - 1]) == verdict);
        }
        if exists|i: int| 0 <= i < front.len() && verdict_of(#[trigger] front[i]) == verdict {
            let i = choose|i: int|
                0 <= i < front.len() && verdict_of(#[trigger] front[i]) == verdict;
            assert(verdict_of(checks[i]) == verdict);
        }
        if exists|i: int| 0 <= i < checks.len() && verdict_of(#[trigger] checks[i]) == verdict {
            let i = choose|i: int|
                0 <= i < checks.len() && verdict_of(#[trigger] checks[i]) == verdict;
            if i < front.len() {
                assert(verdict_of(front[i]) == verdict);
            }
        }
    }
}

/// The check gives `said` as its conclusion: in the member `conclusion`, where it has none in the
/// member `state`, and where it has neither in the member `status`.
pub open spec fn concludes(check: JsonView, said: Seq<char>) -> bool {
    ||| check.member("conclusion"@) == Some(JsonView::Text(said))
    ||| check.member("conclusion"@) is None && check.member("state"@) == Some(JsonView::Text(said))
    ||| check.member("conclusion"@) is None && check.member("state"@) is None && check.member(
        "status"@,
    ) == Some(JsonView::Text(said))
}

/// Pending is none of the words for a check that has passed or failed.
proof fn lemma_open_words(word: Seq<char>)
    requires
        word == "PENDING"@ || word == "QUEUED"@ || word == "REQUESTED"@ || word == "WAITING"@
            || word == "IN_PROGRESS"@ || word == "EXPECTED"@ || word == "UNKNOWN"@,
    ensures
        !is_passing(word),
        !is_failing(word),
{
    reveal_strlit("PENDING");
    reveal_strlit("QUEUED");
    reveal_strlit("REQUESTED");
    reveal_strlit("WAITING");
    reveal_strlit("IN_PROGRESS");
    reveal_strlit("EXPECTED");
    reveal_strlit("UNKNOWN");
    lemma_ended_words();
    assert(word.len() >= 6);
    let first = word[0];
    assert(first == 'P' || first == 'Q' || first == 'R' || first == 'W' || first == 'I' || first
        == 'E' || first == 'U');
    assert(first == 'E' ==> word.len() == 8);
}

/// The words for a check that has passed or failed are apart, and begin with letters that tell
/// them.
proof fn lemma_ended_words()
    ensures
        forall|word: Seq<char>| #[trigger]
            is_passing(word) ==> !is_failing(word) && word.len() > 0 && (word[0] == 'S' || word[0]
                == 'N' || word[0] == 'C'),
        forall|word: Seq<char>| #[trigger]
            is_failing(word) ==> word.len() > 0 && (word[0] == 'F' || (word[0] == 'E' && word.len()
                == 5) || word[0] == 'T' || word[0] == 'C' || word[0] == 'A'),
{
    reveal_strlit("SUCCESS");
    reveal_strlit("SKIPPED");
    reveal_strlit("NEUTRAL");
    reveal_strlit("COMPLETED");
    reveal_strlit("FAILURE");
    reveal_strlit("FAILED");
    reveal_strlit("ERROR");
    reveal_strlit("TIMED_OUT");
    reveal_strlit("CANCELLED");
    reveal_strlit("ACTION_REQUIRED");
    assert("COMPLETED"@[1] == 'O' && "CANCELLED"@[1] == 'A');
    assert("SUCCESS"@[0] == 'S' && "SKIPPED"@[0] == 'S' && "NEUTRAL"@[0] == 'N' && "COMPLETED"@[0]
        == 'C');
    assert("FAILURE"@[0] == 'F' && "FAILED"@[0] == 'F' && "ERROR"@[0] == 'E' && "TIMED_OUT"@[0]
        == 'T' && "CANCELLED"@[0] == 'C' && "ACTION_REQUIRED"@[0] == 'A');
    assert("ERROR"@.len() == 5);
}

/// What a check concludes decides how the checks stand together. One that has failed makes them
/// fail; one that is still open keeps them from passing; and they pass only where the conclusion
/// of each of them is that of a check that has passed.
pub proof fn law_conclusions_decide(checks: Seq<JsonView>, i: int, said: Seq<char>)
    requires
        0 <= i < checks.len(),
        concludes(checks[i], said),
    ensures
        ({
            let state = rollup_summary(Some(JsonView::Array(checks))).0;
            let word = uppered(said);
            &&& word == "FAILURE"@ || word == "FAILED"@ || word == "ERROR"@ || word
                == "TIMED_OUT"@ || word == "CANCELLED"@ || word == "ACTION_REQUIRED"@ ==> state
                == AutopilotPrChecksState::Failing
            &&& word == "PENDING"@ || word == "QUEUED"@ || word == "REQUESTED"@ || word
                == "WAITING"@ || word == "IN_PROGRESS"@ || word == "EXPECTED"@ ==> state
                == AutopilotPrChecksState::Pending || state == AutopilotPrChecksState::Failing
            &&& state == AutopilotPrChecksState::Passing ==> word == "SUCCESS"@ || word
                == "SKIPPED"@ || word == "NEUTRAL"@ || word == "COMPLETED"@
            &&& state == AutopilotPrChecksState::Passing || state
                == AutopilotPrChecksState::Pending || state == AutopilotPrChecksState::Failing
        }),
{
    let word = uppered(said);
    assert(conclusion_of(checks[i]) == word);
    law_passing_means_every_check(checks);
    lemma_some_stand(checks, CheckVerdict::Failing);
    lemma_ended_words();
    if word == "PENDING"@ || word == "QUEUED"@ || word == "REQUESTED"@ || word == "WAITING"@ || word
        == "IN_PROGRESS"@ || word == "EXPECTED"@ {
        lemma_open_words(word);
    }
    if is_failing(word) {
        assert(verdict_of(checks[i]) == CheckVerdict::Failing);
    }
    if rollup_summary(Some(JsonView::Array(checks))).0 == AutopilotPrChecksState::Passing {
        assert(verdict_of(checks[i]) == CheckVerdict::Passing);
    }
}

/// The checks fail together only where one of them has failed, and pass together wherever there is
/// one and each of them has passed; in all other cases they are pending. Without a list of checks
/// nothing is known.
pub proof fn law_checks_stand_together(checks: Seq<JsonView>)
    ensures
        ({
            let state = rollup_summary(Some(JsonView::Array(checks))).0;
            &&& checks.len() == 0 <==> state == AutopilotPrChecksState::NoChecks
            &&& state == AutopilotPrChecksState::Failing ==> exists|i: int, said: Seq<char>|
                #![trigger concludes(checks[i], said)]
                0 <= i < checks.len() && concludes(checks[i], said) && (uppered(said)
                    == "FAILURE"@ || uppered(said) == "FAILED"@ || uppered(said) == "ERROR"@
                    || uppered(said) == "TIMED_OUT"@ || uppered(said) == "CANCELLED"@ || uppered(
                    said,
                ) == "ACTION_REQUIRED"@)
            &&& checks.len() > 0 && (forall|i: int|
                0 <= i < checks.len() ==> exists|said: Seq<char>|
                    #![trigger concludes(checks[i], said)]
                    concludes(#[trigger] checks[i], said) && (uppered(said) == "SUCCESS"@
                        || uppered(said) == "SKIPPED"@ || uppered(said) == "NEUTRAL"@ || uppered(
                        said,
                    ) == "COMPLETED"@)) ==> state == AutopilotPrChecksState::Passing
        }),
        rollup_summary(None).0 == AutopilotPrChecksState::Unknown,
{
    law_passing_means_every_check(checks);
    lemma_some_stand(checks, CheckVerdict::Failing);
    lemma_ended_words();
    let state = rollup_summary(Some(JsonView::Array(checks))).0;
    if state == AutopilotPrChecksState::Failing {
        let i = choose|i: int|
            0 <= i < checks.len() && verdict_of(#[trigger] checks[i]) == CheckVerdict::Failing;
        let said = lemma_said(checks[i]);
        assert(concludes(checks[i], said));
    }
    if checks.len() > 0 && (forall|i: int|
        0 <= i < checks.len() ==> exists|said: Seq<char>|
            #![trigger concludes(checks[i], said)]
            concludes(#[trigger] checks[i], said) && (uppered(said) == "SUCCESS"@ || uppered(said)
                == "SKIPPED"@ || uppered(said) == "NEUTRAL"@ || uppered(said) == "COMPLETED"@)) {
        assert forall|i: int| 0 <= i < checks.len() implies verdict_of(#[trigger] checks[i])
            == CheckVerdict::Passing by {
            let said = choose|said: Seq<char>|
                #![trigger concludes(checks[i], said)]
                concludes(checks[i], said) && (uppered(said) == "SUCCESS"@ || uppered(said)
                    == "SKIPPED"@ || uppered(said) == "NEUTRAL"@ || uppered(said) == "COMPLETED"@);
            assert(conclusion_of(checks[i]) == uppered(said));
        }
    }
}

/// A check that has passed or failed says so in a text.
proof fn lemma_said(check: JsonView) -> (said: Seq<char>)
    requires
        verdict_of(check) != CheckVerdict::Pending,
    ensures
        concludes(check, said),
        conclusion_of(check) == uppered(said),
{
    let found = match check.member("conclusion"@) {
        Some(value) => value.text(),
        None => match check.member("state"@) {
            Some(value) => value.text(),
            None => check.member_text("status"@),
        },
    };
    if found is None {
        reveal_strlit("UNKNOWN");
        assert(uppered("UNKNOWN"@) =~= "UNKNOWN"@);
        lemma_open_words("UNKNOWN"@);
    }
    found->0
}

/// Nothing keeps a pull request from a merge exactly where it is no draft, its host tells that it
/// has no conflicts, does not call its state dirty, unknown, blocked or behind, and its checks
/// pass or there are none. What keeps it is told in this order: a draft, a mergeability that is
/// not known, the state of the merge, checks that fail, checks that are not green.
pub proof fn law_merges_need_an_open_way(
    is_draft: bool,
    mergeable: Option<Seq<char>>,
    merge_state_status: Option<Seq<char>>,
    checks_state: AutopilotPrChecksState,
)
    ensures
        ({
            let blocker = merge_blocker_of(is_draft, mergeable, merge_state_status, checks_state);
            let held_back = lowered(mergeable->0) == lowered("CONFLICTING"@) || (
            merge_state_status matches Some(state) && (uppered(state) == "DIRTY"@ || uppered(state)
                == "UNKNOWN"@ || uppered(state) == "BLOCKED"@ || uppered(state) == "BEHIND"@));
            let green = checks_state == AutopilotPrChecksState::Passing || checks_state
                == AutopilotPrChecksState::NoChecks;
            &&& blocker is None <==> !is_draft && mergeable is Some && !held_back && green
            &&& is_draft ==> blocker == Some("PR is still a draft."@)
            &&& !is_draft && mergeable is None ==> blocker == Some("PR mergeability is unknown."@)
            &&& !is_draft && mergeable is Some && held_back ==> (blocker matches Some(text)
                && starts_with_text(text, "PR is not currently mergeable ("@) && contains_text(
                text,
                mergeable->0,
            ))
            &&& !is_draft && mergeable is Some && !held_back && checks_state
                == AutopilotPrChecksState::Failing ==> blocker == Some("PR has failing checks."@)
            &&& !is_draft && mergeable is Some && !held_back && (checks_state
                == AutopilotPrChecksState::Pending || checks_state
                == AutopilotPrChecksState::Unknown) ==> blocker == Some(
                "PR checks are not green yet."@,
            )
        }),
{
    let blocker = merge_blocker_of(is_draft, mergeable, merge_state_status, checks_state);
    if blocker is Some {
        if !is_draft && mergeable is Some {
            let front = "PR is not currently mergeable ("@;
            let given = mergeable->0;
            let state = match merge_state_status {
                Some(state) => state,
                None => "unknown"@,
            };
            let whole = front + given + "/"@ + state + ")."@;
            assert(whole.subrange(0, front.len() as int) =~= front);
            assert(whole.subrange(front.len() as int, (front.len() + given.len()) as int) =~= given);
            assert(occurs_at(whole, front, 0));
            assert(occurs_at(whole, given, front.len() as int));
        }
    }
}

/// What is reported of a pull request stands in the members of the document, each in its place;
/// without a whole number nothing is reported.
pub proof fn law_reports_are_read_member_by_member(value: JsonView, pr_url: Seq<char>)
    ensures
        reported_status(value, pr_url) is Some <==> (value.member("number"@) matches Some(number)
            && number.integer() is Some),
        reported_status(value, pr_url) matches Some(pr) ==> {
            &&& (value.member("number"@)->0).integer() == Some(pr.number)
            &&& value.member_text("url"@) matches Some(url) ==> pr.url == url
            &&& value.member_text("url"@) is None ==> pr.url == pr_url
            &&& value.member_text("state"@) matches Some(state) ==> pr.state == lowered(state)
            &&& value.member_text("state"@) is None ==> pr.state == lowered("UNKNOWN"@)
            &&& pr.is_draft <==> value.member("isDraft"@) == Some(JsonView::Bool(true))
            &&& pr.head_sha == value.member_text("headRefOid"@)
            &&& pr.base_branch == value.member_text("baseRefName"@)
            &&& pr.mergeable == value.member_text("mergeable"@)
            &&& pr.merge_state_status == value.member_text("mergeStateStatus"@)
            &&& value.member("mergeCommit"@) is None ==> pr.merge_commit_sha is None
            &&& value.member("mergeCommit"@) matches Some(commit) ==> pr.merge_commit_sha
                == commit.member_text("oid"@)
            &&& pr.source == "github"@
            &&& (pr.checks_state, pr.checks_summary) == rollup_summary(
                value.member("statusCheckRollup"@),
            )
            &&& pr.merge_blocker == merge_blocker_of(
                pr.is_draft,
                pr.mergeable,
                pr.merge_state_status,
                pr.checks_state,
            )
        },
{
}

/// The sentence on the checks tells how many there are of each kind: those that fail by name, at
/// most three of them, and otherwise the open ones and the others, which together are all.
pub proof fn law_summaries_count_all_checks(checks: Seq<JsonView>)
    requires
        checks.len() > 0,
    ensures
        ({
            let (state, summary) = rollup_summary(Some(JsonView::Array(checks)));
            &&& state == AutopilotPrChecksState::Passing ==> summary == decimal(checks.len())
                + " check(s) passing."@
            &&& state == AutopilotPrChecksState::Pending ==> exists|pending: nat, passing: nat|
                pending > 0 && pending + passing == checks.len() && summary == #[trigger] decimal(
                    pending,
                ) + " pending check(s), "@ + #[trigger] decimal(passing) + " passing."@
        }),
{
    lemma_kinds_are_all(checks);
    lemma_some_stand(checks, CheckVerdict::Failing);
    let pending = checks.filter(standing(CheckVerdict::Pending)).len();
    let passing = checks.filter(standing(CheckVerdict::Passing)).len();
    assert(decimal(pending) == decimal(pending) && decimal(passing) == decimal(passing));
}

/// Each check is of one kind.
proof fn lemma_kinds_are_all(checks: Seq<JsonView>)
    ensures
        checks.filter(standing(CheckVerdict::Failing)).len() + checks.filter(
            standing(CheckVerdict::Pending),
        ).len() + checks.filter(standing(CheckVerdict::Passing)).len() == checks.len(),
    decreases checks.len(),
{
    reveal(Seq::filter);
    if checks.len() > 0 {
        lemma_kinds_are_all(checks.drop_last());
    }
}

/// A check goes by its `name`; where that is missing or blank by its `context`, where that is too
/// by its `workflowName`, and else it is unnamed.
pub proof fn law_checks_go_by_their_names(check: JsonView)
    ensures
        ({
            let said = |key: Seq<char>|
                check.member_text(key) matches Some(name) && trimmed(name).len() > 0;
            &&& said("name"@) ==> Some(name_of_check(check)) == check.member_text("name"@)
            &&& !said("name"@) && said("context"@) ==> Some(name_of_check(check))
                == check.member_text("context"@)
            &&& !said("name"@) && !said("context"@) && said("workflowName"@) ==> Some(
                name_of_check(check),
            ) == check.member_text("workflowName"@)
            &&& !said("name"@) && !said("context"@) && !said("workflowName"@) ==> name_of_check(
                check,
            ) == "unnamed check"@
        }),
{
}

/// The autopilot serves the issues that are linked to one repository, however that is spaced and
/// cased, and no others; the linked pull request is read without the white space around it.
pub proof fn law_metadata_is_read_in_the_link(metadata: JsonView, link: JsonView)
    requires
        metadata.member("github_link"@) == Some(link),
    ensures
        is_implication(metadata) <==> (link.member_text("repo_full_name"@) matches Some(repo)
            && lowered(trimmed(repo)) == lowered("gavinanelson/implication"@)),
        linked_pr_url(metadata) is Some <==> (link.member_text("latest_pr_url"@) matches Some(url)
            && trimmed(url).len() > 0),
        linked_pr_url(metadata) matches Some(found) ==> (link.member_text(
            "latest_pr_url"@,
        ) matches Some(url) && found == trimmed(url)),
{
}

/// Without a link nothing is served.
pub proof fn law_unlinked_issues_are_not_served(metadata: JsonView)
    requires
        metadata.member("github_link"@) is None,
    ensures
        !is_implication(metadata),
        linked_pr_url(metadata) is None,
{
}

/// What is known of a pull request without its host never lets it be merged, and says so: nothing
/// is known of its checks and its mergeability.
pub proof fn law_local_status_is_never_ready(pr: LocalPullRequest)
    ensures
        ({
            let status = local_status(pr);
            &&& status.number == pr.pr_number && status.url == pr.pr_url@
            &&& pr.pr_status == MergeStatus::Merged ==> status.state == "merged"@
            &&& pr.pr_status == MergeStatus::Open ==> status.state == "open"@
            &&& pr.pr_status == MergeStatus::Closed ==> status.state == "closed"@
            &&& pr.pr_status == MergeStatus::Unknown ==> status.state == "unknown"@
            &&& status.merge_blocker is Some
            &&& status.mergeable is None && status.merge_state_status is None
            &&& status.checks_state == AutopilotPrChecksState::Unknown
            &&& status.base_branch == Some(pr.target_branch_name@)
            &&& status.merge_commit_sha == view_of_option(pr.merge_commit_sha)
            &&& status.source == "local"@
        }),
{
}

/// The check has failed, in one of six words.
pub open spec fn says_failed(check: JsonView) -> bool {
    exists|said: Seq<char>| #[trigger]
        concludes(check, said) && (uppered(said) == "FAILURE"@ || uppered(said) == "FAILED"@
            || uppered(said) == "ERROR"@ || uppered(said) == "TIMED_OUT"@ || uppered(said)
            == "CANCELLED"@ || uppered(said) == "ACTION_REQUIRED"@)
}

/// Checks that fail are counted, and the first three of them are named, in their order.
pub proof fn law_failing_checks_are_named(checks: Seq<JsonView>)
    requires
        rollup_summary(Some(JsonView::Array(checks))).0 == AutopilotPrChecksState::Failing,
    ensures
        ({
            let names = checks.filter(|check: JsonView| says_failed(check)).map_values(
                |check: JsonView| name_of_check(check),
            );
            &&& names.len() > 0
            &&& rollup_summary(Some(JsonView::Array(checks))).1 == decimal(names.len())
                + " failing check(s): "@ + joined(
                if names.len() > 3 {
                    names.take(3)
                } else {
                    names
                },
                ", "@,
            )
        }),
{
    lemma_ended_words();
    assert forall|check: JsonView| #[trigger] standing(CheckVerdict::Failing)(check)
        == says_failed(check) by {
        if verdict_of(check) == CheckVerdict::Failing {
            let said = lemma_said(check);
            assert(concludes(check, said));
        }
        if says_failed(check) {
            let said = choose|said: Seq<char>| #[trigger]
                concludes(check, said) && (uppered(said) == "FAILURE"@ || uppered(said)
                    == "FAILED"@ || uppered(said) == "ERROR"@ || uppered(said) == "TIMED_OUT"@
                    || uppered(said) == "CANCELLED"@ || uppered(said) == "ACTION_REQUIRED"@);
            assert(conclusion_of(check) == uppered(said));
        }
    }
    assert(standing(CheckVerdict::Failing) =~= |check: JsonView| says_failed(check));
}

} // verus!
