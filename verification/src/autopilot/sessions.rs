//! The sessions of a workspace: which of them implement, review and fix.
use vstd::prelude::*;

use super::types::{ExecutionProcessRunReason, ExecutionProcessStatus, ProcessRow};
#[allow(unused_imports)]
use super::types::{row_of, rows_of};
use crate::text::{contains, owned, same_text, starts_with, to_lower, trim};
#[allow(unused_imports)]
use crate::text::{
    char_is_whitespace, contains_text, lemma_trimmed_already, lemma_trimmed_ends, lower_char,
    lowered, occurs_at, starts_with_text, trimmed, view_of_option, view_of_slice, whitespace,
};

verus! {

/// The model that review and fix sessions run.
pub const DEFAULT_CODEX_MODEL: &'static str = "gpt-5.5";

/// The reasoning effort that review and fix sessions run at.
pub const DEFAULT_CODEX_REASONING: &'static str = "medium";

// ---------------------------------------------------------------------------
// Names
// ---------------------------------------------------------------------------

/// The name of a review session.
pub open spec fn auto_review_name(rerun: bool) -> Seq<char> {
    "Auto review"@ + (if rerun {
        " rerun"@
    } else {
        ""@
    }) + " - Codex ("@ + DEFAULT_CODEX_REASONING@ + ")"@
}

/// The name of a fix session.
pub open spec fn review_fix_name() -> Seq<char> {
    "Review fix - Codex ("@ + DEFAULT_CODEX_REASONING@ + ")"@
}

/// The name of a review session.
pub fn auto_review_session_name(rerun: bool) -> (r: String)
    ensures
        r@ == auto_review_name(rerun),
{
    let mut name = owned("Auto review");
    if rerun {
        name.append(" rerun");
    } else {
        name.append("");
    }
    name.append(" - Codex (");
    name.append(DEFAULT_CODEX_REASONING);
    name.append(")");
    name
}

/// The name of a fix session.
pub fn review_fix_session_name() -> (r: String)
    ensures
        r@ == review_fix_name(),
{
    let mut name = owned("Review fix - Codex (");
    name.append(DEFAULT_CODEX_REASONING);
    name.append(")");
    name
}

/// A name in the form in which names are compared: without white space around it and in lower
/// case; no name is the empty one.
pub open spec fn normalized(name: Option<Seq<char>>) -> Seq<char> {
    match name {
        Some(name) => lowered(trimmed(name)),
        None => lowered(trimmed(""@)),
    }
}

/// The name is that of a fix session.
pub open spec fn names_review_fix(name: Option<Seq<char>>) -> bool {
    contains_text(normalized(name), "review fix"@) || contains_text(
        normalized(name),
        "fix review"@,
    )
}

/// The name is that of a review session.
pub open spec fn names_auto_review(name: Option<Seq<char>>) -> bool {
    let text = normalized(name);
    &&& !names_review_fix(Some(text))
    &&& text == "auto review"@ || starts_with_text(text, "auto review -"@) || starts_with_text(
        text,
        "auto review rerun -"@,
    )
}

/// A name in the form in which names are compared.
fn normalize(name: Option<&str>) -> (r: String)
    ensures
        r@ == normalized(view_of_slice(name)),
{
    let bare = match name {
        Some(name) => trim(name),
        None => trim(""),
    };
    to_lower(bare.as_str())
}

/// Whether the name is that of a review session.
pub fn is_auto_review_session(name: Option<&str>) -> (r: bool)
    ensures
        r == names_auto_review(view_of_slice(name)),
{
    let text = normalize(name);
    if is_review_fix_session(Some(text.as_str())) {
        return false;
    }
    same_text(text.as_str(), "auto review") || starts_with(text.as_str(), "auto review -")
        || starts_with(text.as_str(), "auto review rerun -")
}

/// Whether the name is that of a fix session.
pub fn is_review_fix_session(name: Option<&str>) -> (r: bool)
    ensures
        r == names_review_fix(view_of_slice(name)),
{
    let text = normalize(name);
    contains(text.as_str(), "review fix") || contains(text.as_str(), "fix review")
}

// ---------------------------------------------------------------------------
// Processes
// ---------------------------------------------------------------------------

/// The process belongs to a review session.
pub open spec fn is_review(row: ProcessRow) -> bool {
    names_auto_review(view_of_option(row.session_name))
}

/// The process belongs to a fix session.
pub open spec fn is_fix(row: ProcessRow) -> bool {
    names_review_fix(view_of_option(row.session_name))
}

/// The process is that of an agent that implements.
pub open spec fn is_implementation(row: ProcessRow) -> bool {
    row.run_reason == ExecutionProcessRunReason::CodingAgent && !is_review(row) && !is_fix(row)
}

/// The process still runs.
pub open spec fn is_running(row: ProcessRow) -> bool {
    row.status == ExecutionProcessStatus::Running
}

/// Whether the process belongs to a review session.
fn belongs_to_review(row: &ProcessRow) -> (r: bool)
    ensures
        r == is_review(*row),
{
    match &row.session_name {
        Some(name) => is_auto_review_session(Some(name.as_str())),
        None => is_auto_review_session(None),
    }
}

/// Whether the process belongs to a fix session.
fn belongs_to_fix(row: &ProcessRow) -> (r: bool)
    ensures
        r == is_fix(*row),
{
    match &row.session_name {
        Some(name) => is_review_fix_session(Some(name.as_str())),
        None => is_review_fix_session(None),
    }
}

/// Whether the process is that of an agent that implements.
pub fn is_implementation_process(row: &ProcessRow) -> (r: bool)
    ensures
        r == is_implementation(*row),
{
    row.run_reason == ExecutionProcessRunReason::CodingAgent && !belongs_to_review(row)
        && !belongs_to_fix(row)
}

/// The class of implementation processes.
pub open spec fn implementations() -> spec_fn(ProcessRow) -> bool {
    |row: ProcessRow| is_implementation(row)
}

/// The class of fix processes.
pub open spec fn fixes() -> spec_fn(ProcessRow) -> bool {
    |row: ProcessRow| is_fix(row)
}

/// The class of review processes.
pub open spec fn reviews() -> spec_fn(ProcessRow) -> bool {
    |row: ProcessRow| is_review(row)
}

/// The class of processes that still run.
pub open spec fn running() -> spec_fn(ProcessRow) -> bool {
    |row: ProcessRow| is_running(row)
}

/// The first process of a class.
pub open spec fn first_of(
    rows: Seq<ProcessRow>,
    class: spec_fn(ProcessRow) -> bool,
) -> Option<ProcessRow>
    decreases rows.len(),
{
    if rows.len() == 0 {
        None
    } else if class(rows[0]) {
        Some(rows[0])
    } else {
        first_of(rows.drop_first(), class)
    }
}

/// The latest implementation process; `rows` come latest first.
pub fn implementation_process(rows: &[ProcessRow]) -> (r: Option<&ProcessRow>)
    ensures
        row_of(r) == first_of(rows@, implementations()),
{
    assert(rows@.skip(0) =~= rows@);
    for i in 0..rows.len()
        invariant
            first_of(rows@, implementations()) == first_of(
                rows@.skip(i as int),
                implementations(),
            ),
    {
        if is_implementation_process(&rows[i]) {
            return Some(&rows[i]);
        }
        assert(rows@.skip(i as int).drop_first() =~= rows@.skip(i + 1));
    }
    None
}

/// The latest fix process; `rows` come latest first.
pub fn review_fix_process(rows: &[ProcessRow]) -> (r: Option<&ProcessRow>)
    ensures
        row_of(r) == first_of(rows@, fixes()),
{
    assert(rows@.skip(0) =~= rows@);
    for i in 0..rows.len()
        invariant
            first_of(rows@, fixes()) == first_of(rows@.skip(i as int), fixes()),
    {
        if belongs_to_fix(&rows[i]) {
            return Some(&rows[i]);
        }
        assert(rows@.skip(i as int).drop_first() =~= rows@.skip(i + 1));
    }
    None
}

/// The review processes, latest first as `rows` are.
pub fn review_processes(rows: &[ProcessRow]) -> (r: Vec<&ProcessRow>)
    ensures
        rows_of(r@) == rows@.filter(reviews()),
{
    let mut r: Vec<&ProcessRow> = Vec::new();
    proof {
        reveal(Seq::filter);
        assert(rows_of(r@) =~= rows@.take(0).filter(reviews()));
    }
    for i in 0..rows.len()
        invariant
            rows_of(r@) == rows@.take(i as int).filter(reviews()),
    {
        let row = &rows[i];
        let ghost before = r@;
        if belongs_to_review(row) {
            r.push(row);
            assert(rows_of(r@) =~= rows_of(before).push(*row));
        }
        proof {
            reveal(Seq::filter);
            assert(rows@.take(i + 1).drop_last() =~= rows@.take(i as int));
        }
    }
    assert(rows@.take(rows@.len() as int) =~= rows@);
    r
}

/// The first of the reviews that still runs.
pub fn running_review_attempt<'a>(reviews: &[&'a ProcessRow]) -> (r: Option<&'a ProcessRow>)
    ensures
        row_of(r) == first_of(rows_of(reviews@), running()),
{
    let ghost rows = rows_of(reviews@);
    assert(rows.skip(0) =~= rows);
    for i in 0..reviews.len()
        invariant
            rows == rows_of(reviews@),
            first_of(rows, running()) == first_of(rows.skip(i as int), running()),
    {
        let row = reviews[i];
        if row.status == ExecutionProcessStatus::Running {
            return Some(row);
        }
        assert(rows.skip(i as int).drop_first() =~= rows.skip(i + 1));
    }
    None
}

// ---------------------------------------------------------------------------
// States
// ---------------------------------------------------------------------------

/// The name of a status of a process.
pub open spec fn status_name_text(status: ExecutionProcessStatus) -> Seq<char> {
    match status {
        ExecutionProcessStatus::Running => "running"@,
        ExecutionProcessStatus::Completed => "completed"@,
        ExecutionProcessStatus::Failed => "failed"@,
        ExecutionProcessStatus::Killed => "killed"@,
    }
}

/// The state of a process, or `missing`: a process that ends without success has failed.
pub open spec fn state_text(row: Option<ProcessRow>, missing: Seq<char>) -> Seq<char> {
    match row {
        None => missing,
        Some(row) => if row.status == ExecutionProcessStatus::Completed && !row.is_clean() {
            "failed"@
        } else {
            status_name_text(row.status)
        },
    }
}

/// The state of a process, or `missing`.
fn process_state(row: Option<&ProcessRow>, missing: &str) -> (r: String)
    ensures
        r@ == state_text(row_of(row), missing@),
{
    match row {
        None => owned(missing),
        Some(row) => match row.status {
            ExecutionProcessStatus::Running => owned("running"),
            ExecutionProcessStatus::Completed => if row.completed_cleanly() {
                owned("completed")
            } else {
                owned("failed")
            },
            ExecutionProcessStatus::Failed => owned("failed"),
            ExecutionProcessStatus::Killed => owned("killed"),
        },
    }
}

/// The state of the implementation.
pub fn implementation_state(row: Option<&ProcessRow>) -> (r: String)
    ensures
        r@ == state_text(row_of(row), "missing"@),
{
    process_state(row, "missing")
}

/// The state of the review fix.
pub fn review_fix_state(row: Option<&ProcessRow>) -> (r: String)
    ensures
        r@ == state_text(row_of(row), "not_started"@),
{
    process_state(row, "not_started")
}

// ---------------------------------------------------------------------------
// Laws
// ---------------------------------------------------------------------------

/// Lower case keeps white space apart from what is none.
proof fn lemma_lower_keeps_whitespace(c: char)
    ensures
        char_is_whitespace(lower_char(c)) == char_is_whitespace(c),
        lower_char(lower_char(c)) == lower_char(c),
{
}

/// A name in the form in which names are compared stays as it is.
pub proof fn law_normalized_is_stable(name: Option<Seq<char>>)
    ensures
        normalized(Some(normalized(name))) == normalized(name),
{
    let bare = match name {
        Some(name) => trimmed(name),
        None => trimmed(""@),
    };
    let text = lowered(bare);
    match name {
        Some(name) => lemma_trimmed_ends(name, whitespace()),
        None => lemma_trimmed_ends(""@, whitespace()),
    }
    assert forall|i: int| 0 <= i < bare.len() implies lower_char(#[trigger] text[i]) == text[i]
        && char_is_whitespace(text[i]) == char_is_whitespace(bare[i]) by {
        lemma_lower_keeps_whitespace(bare[i]);
    }
    if bare.len() > 0 {
        assert(text[0] == lower_char(bare[0]));
        assert(text.last() == lower_char(bare.last()));
        assert(char_is_whitespace(text[0]) == char_is_whitespace(bare[0]));
        assert(char_is_whitespace(text[bare.len() - 1]) == char_is_whitespace(
            bare[bare.len() - 1],
        ));
        assert(whitespace()(bare[0]) == char_is_whitespace(bare[0]));
    }
    lemma_trimmed_already(text, whitespace());
    assert(lowered(text) =~= text);
}

/// No session is both a review and a fix.
pub proof fn law_reviews_are_no_fixes(name: Option<Seq<char>>)
    ensures
        !(names_auto_review(name) && names_review_fix(name)),
{
    law_normalized_is_stable(name);
}

/// Each process of a coding agent is an implementation, a review or a fix, and only one of them.
pub proof fn law_agent_processes_fall_into_one_class(row: ProcessRow)
    requires
        row.run_reason == ExecutionProcessRunReason::CodingAgent,
    ensures
        is_implementation(row) || is_review(row) || is_fix(row),
        !(is_implementation(row) && is_review(row)),
        !(is_implementation(row) && is_fix(row)),
        !(is_review(row) && is_fix(row)),
{
    law_reviews_are_no_fixes(view_of_option(row.session_name));
}

/// Sessions are recognised by the names that they are given: reviews as reviews, fixes as fixes.
pub proof fn law_session_names_are_recognised(rerun: bool)
    ensures
        names_auto_review(Some(auto_review_name(rerun))),
        !names_review_fix(Some(auto_review_name(rerun))),
        names_review_fix(Some(review_fix_name())),
        !names_auto_review(Some(review_fix_name())),
{
    reveal_strlit("Auto review");
    reveal_strlit(" rerun");
    reveal_strlit("");
    reveal_strlit(" - Codex (");
    reveal_strlit("medium");
    reveal_strlit(")");
    reveal_strlit("Review fix - Codex (");
    reveal_strlit("review fix");
    reveal_strlit("fix review");
    reveal_strlit("auto review");
    reveal_strlit("auto review -");
    reveal_strlit("auto review rerun -");
    let review = auto_review_name(rerun);
    let fix = review_fix_name();
    lemma_trimmed_already(review, whitespace());
    lemma_trimmed_already(fix, whitespace());
    let lower_review = lowered(review);
    let lower_fix = lowered(fix);
    assert(lower_fix.subrange(0, 10) =~= "review fix"@);
    assert(occurs_at(lower_fix, "review fix"@, 0));
    law_normalized_is_stable(Some(review));
    assert forall|at: int| !occurs_at(lower_review, "review fix"@, at) by {
        if occurs_at(lower_review, "review fix"@, at) {
            let part = lower_review.subrange(at, at + 10);
            assert(part[7] == 'f');
            assert(part[8] == 'i');
            assert(lower_review[at + 7] == part[7]);
        }
    }
    assert forall|at: int| !occurs_at(lower_review, "fix review"@, at) by {
        if occurs_at(lower_review, "fix review"@, at) {
            let part = lower_review.subrange(at, at + 10);
            assert(part[0] == 'f');
            assert(lower_review[at] == part[0]);
        }
    }
    if rerun {
        assert(lower_review.subrange(0, 19) =~= "auto review rerun -"@);
    } else {
        assert(lower_review.subrange(0, 13) =~= "auto review -"@);
    }
    law_reviews_are_no_fixes(Some(fix));
}

/// A session is a fix where its name, without the white space around it and in lower case, holds
/// "review fix" or "fix review". It is a review where it is no fix and its name is "auto review",
/// or goes on behind that with " -" or " rerun -". A session without a name is neither.
pub proof fn law_sessions_are_told_by_their_names(name: Seq<char>)
    ensures
        ({
            let text = lowered(trimmed(name));
            let fixes = contains_text(text, "review fix"@) || contains_text(text, "fix review"@);
            &&& names_review_fix(Some(name)) <==> fixes
            &&& names_auto_review(Some(name)) <==> !fixes && (text == "auto review"@
                || starts_with_text(text, "auto review -"@) || starts_with_text(
                text,
                "auto review rerun -"@,
            ))
        }),
        !names_review_fix(None),
        !names_auto_review(None),
{
    law_normalized_is_stable(Some(name));
    law_normalized_is_stable(None);
    reveal_strlit("");
    reveal_strlit("review fix");
    reveal_strlit("fix review");
    reveal_strlit("auto review");
    reveal_strlit("auto review -");
    reveal_strlit("auto review rerun -");
    assert(trimmed(""@) =~= Seq::<char>::empty());
    assert(lowered(trimmed(""@)) =~= Seq::<char>::empty());
    assert("review fix"@.len() == 10 && "fix review"@.len() == 10 && "auto review"@.len() == 11);
    assert("auto review -"@.len() == 13 && "auto review rerun -"@.len() == 19);
}

/// The first process of a class is of the class, stands in the list, and none before it is of the
/// class; there is none only where no process is.
pub proof fn law_first_process_is_found(
    rows: Seq<ProcessRow>,
    class: spec_fn(ProcessRow) -> bool,
)
    ensures
        first_of(rows, class) is None <==> forall|i: int|
            0 <= i < rows.len() ==> !class(#[trigger] rows[i]),
        first_of(rows, class) matches Some(row) ==> exists|i: int|
            {
                &&& 0 <= i < rows.len()
                &&& #[trigger] rows[i] == row
                &&& class(row)
                &&& forall|j: int| 0 <= j < i ==> !class(#[trigger] rows[j])
            },
    decreases rows.len(),
{
    if rows.len() > 0 {
        if class(rows[0]) {
            assert(rows[0] == first_of(rows, class)->0);
        } else {
            let rest = rows.drop_first();
            law_first_process_is_found(rest, class);
            assert(forall|i: int| 1 <= i < rows.len() ==> #[trigger] rows[i] == rest[i - 1]);
            if first_of(rest, class) is None {
                assert forall|i: int| 0 <= i < rows.len() implies !class(#[trigger] rows[i]) by {
                    if i > 0 {
                        assert(!class(rest[i - 1]));
                    }
                }
            } else {
                let row = first_of(rest, class)->0;
                let i = choose|i: int|
                    {
                        &&& 0 <= i < rest.len()
                        &&& #[trigger] rest[i] == row
                        &&& class(row)
                        &&& forall|j: int| 0 <= j < i ==> !class(#[trigger] rest[j])
                    };
                assert(rows[i + 1] == row);
                assert forall|j: int| 0 <= j < i + 1 implies !class(#[trigger] rows[j]) by {
                    if j > 0 {
                        assert(!class(rest[j - 1]));
                    }
                }
            }
        }
    }
}

/// The latest implementation is the first process of a coding agent whose session is neither a
/// review nor a fix; the latest fix is the first process of a fix session; and what runs is what
/// has the status of it.
pub proof fn law_classes_of_processes(row: ProcessRow)
    ensures
        implementations()(row) <==> row.run_reason == ExecutionProcessRunReason::CodingAgent
            && !names_auto_review(view_of_option(row.session_name)) && !names_review_fix(
            view_of_option(row.session_name),
        ),
        fixes()(row) <==> names_review_fix(view_of_option(row.session_name)),
        reviews()(row) <==> names_auto_review(view_of_option(row.session_name)),
        running()(row) <==> row.status == ExecutionProcessStatus::Running,
{
}

/// A process is shown as running, completed, failed or killed; one that completed with another
/// exit code than zero, or with none, is shown as failed.
pub proof fn law_states_of_processes(row: ProcessRow, missing: Seq<char>)
    ensures
        state_text(None, missing) == missing,
        row.status == ExecutionProcessStatus::Running ==> state_text(Some(row), missing)
            == "running"@,
        row.status == ExecutionProcessStatus::Completed && row.exit_code == Some(0i64)
            ==> state_text(Some(row), missing) == "completed"@,
        row.status == ExecutionProcessStatus::Completed && row.exit_code != Some(0i64)
            ==> state_text(Some(row), missing) == "failed"@,
        row.status == ExecutionProcessStatus::Failed ==> state_text(Some(row), missing)
            == "failed"@,
        row.status == ExecutionProcessStatus::Killed ==> state_text(Some(row), missing)
            == "killed"@,
{
}

/// The names that sessions are given.
pub proof fn law_session_names(rerun: bool)
    ensures
        auto_review_name(rerun) == if rerun {
            "Auto review rerun - Codex (medium)"@
        } else {
            "Auto review - Codex (medium)"@
        },
        review_fix_name() == "Review fix - Codex (medium)"@,
{
    reveal_strlit("Auto review");
    reveal_strlit(" rerun");
    reveal_strlit("");
    reveal_strlit(" - Codex (");
    reveal_strlit("medium");
    reveal_strlit(")");
    reveal_strlit("Review fix - Codex (");
    reveal_strlit("Auto review rerun - Codex (medium)");
    reveal_strlit("Auto review - Codex (medium)");
    reveal_strlit("Review fix - Codex (medium)");
    assert(auto_review_name(true) =~= "Auto review rerun - Codex (medium)"@);
    assert(auto_review_name(false) =~= "Auto review - Codex (medium)"@);
    assert(review_fix_name() =~= "Review fix - Codex (medium)"@);
}

} // verus!
