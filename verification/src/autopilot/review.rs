//! What a review decides.
use vstd::prelude::*;

use super::types::{AutopilotDecision, ExecutionProcessStatus, ProcessRow};
#[allow(unused_imports)]
use super::types::{row_of, rows_of};
use crate::ids::Uuid;
use crate::text::{compact, contains, is_blank, take_chars, to_lower};
#[allow(unused_imports)]
use crate::text::{
    char_is_whitespace, compacted, contains_text, first_chars, lemma_blank, lowered, occurs_at,
    trimmed, view_of_option,
};

verus! {

/// The text asks for changes.
pub open spec fn asks_for_changes(text: Seq<char>) -> bool {
    ||| contains_text(text, "decision: request"@)
    ||| contains_text(text, "request changes"@)
    ||| contains_text(text, "changes requested"@)
    ||| contains_text(text, "blocking regression"@)
    ||| contains_text(text, "blocker:"@)
}

/// The text says that nothing blocks.
pub open spec fn negates_blockers(text: Seq<char>) -> bool {
    ||| contains_text(text, "no blockers"@)
    ||| contains_text(text, "no blocking"@)
    ||| contains_text(text, "no blocking regressions"@)
}

/// The text approves.
pub open spec fn approves(text: Seq<char>) -> bool {
    ||| contains_text(text, "decision: pass"@)
    ||| contains_text(text, "decision: approve"@)
    ||| contains_text(text, "approved"@)
    ||| contains_text(text, "no blockers"@)
    ||| contains_text(text, "no blocking regressions"@)
    ||| contains_text(text, "no blocking issues"@)
}

/// The decision in the text of a review, which is read in lower case and with single spaces.
pub open spec fn decision_in(text: Seq<char>) -> AutopilotDecision {
    let plain = lowered(compacted(text));
    if asks_for_changes(plain) && !negates_blockers(plain) {
        AutopilotDecision::RequestChanges
    } else if approves(plain) {
        AutopilotDecision::Pass
    } else {
        AutopilotDecision::Failed
    }
}

/// The decision in the text of a review.
pub fn decision_from_text(text: &str) -> (r: AutopilotDecision)
    ensures
        r == decision_in(text@),
{
    let spaced = compact(text);
    let lower = to_lower(spaced.as_str());
    let plain = lower.as_str();
    let asks = contains(plain, "decision: request") || contains(plain, "request changes")
        || contains(plain, "changes requested") || contains(plain, "blocking regression")
        || contains(plain, "blocker:");
    let negates = contains(plain, "no blockers") || contains(plain, "no blocking") || contains(
        plain,
        "no blocking regressions",
    );
    if asks && !negates {
        return AutopilotDecision::RequestChanges;
    }
    if contains(plain, "decision: pass") || contains(plain, "decision: approve") || contains(
        plain,
        "approved",
    ) || contains(plain, "no blockers") || contains(plain, "no blocking regressions") || contains(
        plain,
        "no blocking issues",
    ) {
        return AutopilotDecision::Pass;
    }
    AutopilotDecision::Failed
}

/// The beginning of a text: its words with single spaces between, up to 280 characters.
pub open spec fn excerpt_of(text: Seq<char>) -> Seq<char> {
    first_chars(compacted(text), 280)
}

/// The beginning of a text.
pub fn excerpt(text: &str) -> (r: String)
    ensures
        r@ == excerpt_of(text@),
{
    let spaced = compact(text);
    take_chars(spaced.as_str(), 280)
}

/// The process whose text decides: the latest review, where it completed with success.
pub open spec fn deciding_process(reviews: Seq<ProcessRow>) -> Option<Uuid> {
    if reviews.len() > 0 && reviews[0].is_clean() {
        Some(reviews[0].id)
    } else {
        None
    }
}

/// What the reviews decide, where `text` is the text of the deciding process: the decision, an
/// excerpt of the text and the process. Only the latest review counts.
pub open spec fn decided(reviews: Seq<ProcessRow>, text: Seq<char>) -> (
    AutopilotDecision,
    Option<Seq<char>>,
    Option<ProcessRow>,
) {
    if reviews.len() == 0 {
        (AutopilotDecision::Missing, None, None)
    } else if reviews[0].status == ExecutionProcessStatus::Running {
        (AutopilotDecision::Running, None, Some(reviews[0]))
    } else if reviews[0].is_clean() && trimmed(text).len() > 0 {
        (decision_in(text), Some(excerpt_of(text)), Some(reviews[0]))
    } else {
        (AutopilotDecision::Failed, None, Some(reviews[0]))
    }
}

/// The process whose text decides; `reviews` come latest first.
pub fn deciding_review(reviews: &[&ProcessRow]) -> (r: Option<Uuid>)
    ensures
        r == deciding_process(rows_of(reviews@)),
{
    if reviews.len() == 0 {
        return None;
    }
    let latest = reviews[0];
    assert(rows_of(reviews@)[0] == *latest);
    if latest.completed_cleanly() {
        Some(latest.id)
    } else {
        None
    }
}

/// What the reviews decide, where `text` is the text of the deciding process; where no process
/// decides, the text is not read. `reviews` come latest first.
pub fn decide_from_review_attempts<'a>(reviews: &[&'a ProcessRow], text: &str) -> (r: (
    AutopilotDecision,
    Option<String>,
    Option<&'a ProcessRow>,
))
    ensures
        (r.0, view_of_option(r.1), row_of(r.2)) == decided(rows_of(reviews@), text@),
{
    if reviews.len() == 0 {
        return (AutopilotDecision::Missing, None, None);
    }
    let latest = reviews[0];
    assert(rows_of(reviews@)[0] == *latest);
    if latest.status == ExecutionProcessStatus::Running {
        return (AutopilotDecision::Running, None, Some(latest));
    }
    if latest.completed_cleanly() {
        if is_blank(text) {
            return (AutopilotDecision::Failed, None, Some(latest));
        }
        return (decision_from_text(text), Some(excerpt(text)), Some(latest));
    }
    (AutopilotDecision::Failed, None, Some(latest))
}

// ---------------------------------------------------------------------------
// Laws
// ---------------------------------------------------------------------------

/// A text that says that there are no blockers never asks for changes, whatever else it says; it
/// passes.
pub proof fn law_no_blockers_passes(text: Seq<char>)
    requires
        contains_text(lowered(compacted(text)), "no blockers"@),
    ensures
        decision_in(text) == AutopilotDecision::Pass,
{
}

/// A request for changes wins over an approval in the same text, unless the text says that nothing
/// blocks.
pub proof fn law_request_wins_over_approval(text: Seq<char>)
    requires
        asks_for_changes(lowered(compacted(text))),
        !negates_blockers(lowered(compacted(text))),
    ensures
        decision_in(text) == AutopilotDecision::RequestChanges,
{
}

/// Only the latest review counts: an older one changes nothing, not even where the latest one has
/// failed or has left no text.
pub proof fn law_only_the_latest_review_counts(
    latest: ProcessRow,
    older: Seq<ProcessRow>,
    text: Seq<char>,
)
    ensures
        decided(seq![latest] + older, text) == decided(seq![latest], text),
        deciding_process(seq![latest] + older) == deciding_process(seq![latest]),
{
    assert((seq![latest] + older)[0] == latest);
}

/// The text is read only where there is a process that decides.
pub proof fn law_text_is_read_of_the_deciding_process(
    reviews: Seq<ProcessRow>,
    text: Seq<char>,
    other: Seq<char>,
)
    requires
        deciding_process(reviews) is None,
    ensures
        decided(reviews, text) == decided(reviews, other),
{
}

/// A review passes or asks for changes only where the latest process completed with success and
/// left a text that says so.
pub proof fn law_decisions_come_from_clean_reviews(reviews: Seq<ProcessRow>, text: Seq<char>)
    ensures
        decided(reviews, text).0 == AutopilotDecision::Pass || decided(reviews, text).0
            == AutopilotDecision::RequestChanges ==> deciding_process(reviews) is Some && decided(
            reviews,
            text,
        ).0 == decision_in(text),
{
}

/// An excerpt has at most 280 characters, and they begin the text with its white space evened out.
pub proof fn law_excerpt_is_a_beginning(text: Seq<char>)
    ensures
        excerpt_of(text).len() <= 280,
        excerpt_of(text).is_prefix_of(compacted(text)),
        compacted(text).len() <= 280 ==> excerpt_of(text) == compacted(text),
{
}

/// A text that asks for changes in one of five phrases, and says neither "no blockers" nor "no
/// blocking", asks for changes, whatever else it says.
pub proof fn law_request_without_denial_asks_for_changes(text: Seq<char>)
    requires
        contains_text(lowered(compacted(text)), "decision: request"@) || contains_text(
            lowered(compacted(text)),
            "request changes"@,
        ) || contains_text(lowered(compacted(text)), "changes requested"@) || contains_text(
            lowered(compacted(text)),
            "blocking regression"@,
        ) || contains_text(lowered(compacted(text)), "blocker:"@),
        !contains_text(lowered(compacted(text)), "no blockers"@),
        !contains_text(lowered(compacted(text)), "no blocking"@),
    ensures
        decision_in(text) == AutopilotDecision::RequestChanges,
{
    let plain = lowered(compacted(text));
    if contains_text(plain, "no blocking regressions"@) {
        lemma_no_blocking(plain);
    }
}

/// Changes are asked for only in one of five phrases, and never where the text says "no blockers"
/// or "no blocking".
pub proof fn law_changes_are_asked_for_in_words(text: Seq<char>)
    requires
        decision_in(text) == AutopilotDecision::RequestChanges,
    ensures
        contains_text(lowered(compacted(text)), "decision: request"@) || contains_text(
            lowered(compacted(text)),
            "request changes"@,
        ) || contains_text(lowered(compacted(text)), "changes requested"@) || contains_text(
            lowered(compacted(text)),
            "blocking regression"@,
        ) || contains_text(lowered(compacted(text)), "blocker:"@),
        !contains_text(lowered(compacted(text)), "no blockers"@),
        !contains_text(lowered(compacted(text)), "no blocking"@),
{
}

/// A review passes exactly where it approves in one of six phrases and does not ask for changes;
/// a text with none of the phrases has failed.
pub proof fn law_reviews_pass_in_words(text: Seq<char>)
    ensures
        ({
            let plain = lowered(compacted(text));
            let approved = contains_text(plain, "decision: pass"@) || contains_text(
                plain,
                "decision: approve"@,
            ) || contains_text(plain, "approved"@) || contains_text(plain, "no blockers"@)
                || contains_text(plain, "no blocking regressions"@) || contains_text(
                plain,
                "no blocking issues"@,
            );
            &&& decision_in(text) == AutopilotDecision::Pass <==> approved && decision_in(text)
                != AutopilotDecision::RequestChanges
            &&& decision_in(text) == AutopilotDecision::Failed <==> !approved && decision_in(text)
                != AutopilotDecision::RequestChanges
        }),
{
}

/// Who says that there are no blocking regressions says that nothing blocks.
proof fn lemma_no_blocking(plain: Seq<char>)
    requires
        contains_text(plain, "no blocking regressions"@),
    ensures
        contains_text(plain, "no blocking"@),
{
    reveal_strlit("no blocking regressions");
    reveal_strlit("no blocking");
    let at = choose|at: int| occurs_at(plain, "no blocking regressions"@, at);
    assert(plain.subrange(at, at + 11) =~= plain.subrange(at, at + 23).subrange(0, 11));
    assert("no blocking regressions"@.subrange(0, 11) =~= "no blocking"@);
    assert(occurs_at(plain, "no blocking"@, at));
}

/// What the attempts come to, told of the latest one alone: without an attempt there is no
/// decision; one that runs is waited for; one that did not complete with exit code zero, and one
/// that left nothing but white space, has failed; any other decides by its text.
pub proof fn law_the_latest_attempt_decides(reviews: Seq<ProcessRow>, text: Seq<char>)
    ensures
        reviews.len() == 0 <==> decided(reviews, text).0 == AutopilotDecision::Missing,
        reviews.len() == 0 ==> decided(reviews, text).2 is None,
        reviews.len() > 0 ==> decided(reviews, text).2 == Some(reviews[0]),
        reviews.len() > 0 && reviews[0].status == ExecutionProcessStatus::Running <==> decided(
            reviews,
            text,
        ).0 == AutopilotDecision::Running,
        reviews.len() > 0 && reviews[0].status != ExecutionProcessStatus::Running && !(
        reviews[0].status == ExecutionProcessStatus::Completed && reviews[0].exit_code == Some(
            0i64,
        )) ==> decided(reviews, text).0 == AutopilotDecision::Failed && decided(reviews, text).1
            is None,
        reviews.len() > 0 && reviews[0].status != ExecutionProcessStatus::Running && (forall|
            i: int,
        |
            0 <= i < text.len() ==> char_is_whitespace(#[trigger] text[i])) ==> decided(
            reviews,
            text,
        ).0 == AutopilotDecision::Failed && decided(reviews, text).1 is None,
        reviews.len() > 0 && reviews[0].status == ExecutionProcessStatus::Completed
            && reviews[0].exit_code == Some(0i64) && !(forall|i: int|
            0 <= i < text.len() ==> char_is_whitespace(#[trigger] text[i])) ==> decided(
            reviews,
            text,
        ).0 == decision_in(text) && (decided(reviews, text).1 matches Some(beginning)
            && beginning.len() <= 280 && beginning.is_prefix_of(compacted(text)) && (
        beginning.len() == 280 || beginning == compacted(text))),
        deciding_process(reviews) == if reviews.len() > 0 && reviews[0].status
            == ExecutionProcessStatus::Completed && reviews[0].exit_code == Some(0i64) {
            Some(reviews[0].id)
        } else {
            None
        },
{
    lemma_blank(text);
    law_excerpt_is_a_beginning(text);
}

} // verus!
