//! Starting review and fix sessions.
use vstd::prelude::*;

use super::gates::{auto_review_start_gate, review_fix_start_gate};
#[allow(unused_imports)]
use super::gates::{fix_gate, review_gate, view_of_gate};
use super::review::decide_from_review_attempts;
#[allow(unused_imports)]
use super::review::decided;
use super::sessions::{
    auto_review_session_name, implementation_process, review_fix_process, review_fix_session_name,
    review_processes, DEFAULT_CODEX_MODEL, DEFAULT_CODEX_REASONING,
};
#[allow(unused_imports)]
use super::sessions::{auto_review_name, first_of, fixes, implementations, review_fix_name, reviews};
use super::types::{AutopilotPrStatus, ProcessRow, Workspace};
use crate::ids::Uuid;
use crate::text::owned;
#[allow(unused_imports)]
use crate::text::{ends_with_text, starts_with_text, view_of_option};

verus! {

/// What a review session is told.
pub const REVIEW_PROMPT: &'static str = r#"You are the app-owned Implication autopilot review agent.

This is an unattended review session. Do not implement changes. Do not ask the operator to do routine follow-up. Your job is to decide whether the current workspace/PR/head is safe for the app to move toward merge.

Review discipline:
- Re-read the linked GitHub issue and treat its acceptance criteria, validation/test-plan sections, and labels as the contract.
- Inspect the current diff/PR scope, not stale prior review output.
- Check whether the implementation includes credible validation evidence for the changed behavior.
- Look for blockers only: correctness regressions, missing acceptance criteria, unsafe merge/PR state, unresolved conflicts, failing or missing required checks, security/data-loss risk, or hygiene failures that would make the PR unsafe to merge.
- Do not request changes for style preferences, speculative improvements, or unrelated cleanup. Put those under non-blocking notes.
- If PR/check/mergeability state is unavailable from your tools, report that as a blocker only when it prevents a safe merge decision.

Required final format:

Decision: pass
Blockers:
- None
Validation evidence:
- ...
Non-blocking notes:
- ...
Recommended next action:
- Merge when app-visible PR checks and mergeability are green.

or:

Decision: request changes
Blockers:
- ...
Validation evidence:
- ...
Non-blocking notes:
- ...
Recommended next action:
- Start a bounded review-fix session for the blockers above.

The first line must be exactly one of `Decision: pass` or `Decision: request changes`."#;

/// What a fix session is told.
pub const REVIEW_FIX_PROMPT: &'static str = r#"You are the Implication autopilot fix worker continuing an existing task.

This is an unattended orchestration session. Do not ask the operator for routine next steps. Only stop early for a true external blocker: missing required auth, permissions, secrets, or tooling after checking documented fallbacks.

Scope:
- Fix only the blocking issues from the latest auto-review excerpt below.
- Preserve unrelated dirty work and avoid unrelated refactors.
- Re-read the linked GitHub issue before editing. Treat acceptance criteria and any Validation/Test Plan/Testing section as mandatory.
- Work from the current workspace state. Do not restart the task from scratch unless the review explicitly requires that.

Execution protocol:
1. Identify each blocker you are addressing.
2. Inspect the current diff and relevant code before editing.
3. Make the smallest coherent fix that satisfies the issue contract.
4. Run focused validation that directly proves the fix. Do not run broad guarded validation unless explicitly allowed by repo policy.
5. If validation fails, fix and rerun until the focused proof is green or a true blocker remains.
6. Do not merge the PR and do not claim it is merged. The app owns re-review and merge.

Final response must include:
- Files changed
- Blockers fixed
- Validation run and result
- Remaining blockers, or `None`
- Whether another auto-review is needed

Keep the response concise and factual. The app will start a new auto-review after this session completes."#;

// ---------------------------------------------------------------------------
// Types
// ---------------------------------------------------------------------------

#[derive(Debug, Clone, Copy, PartialEq, Eq, Structural)]
pub enum BaseCodingAgent {
    Codex,
}

#[derive(Debug, Clone, Copy, PartialEq, Eq, Structural)]
pub enum PermissionPolicy {
    Auto,
}

/// How an agent is run.
#[derive(Debug, Clone)]
pub struct ExecutorConfig {
    pub executor: BaseCodingAgent,
    pub variant: Option<String>,
    pub model_id: Option<String>,
    pub agent_id: Option<String>,
    pub reasoning_id: Option<String>,
    pub permission_policy: Option<PermissionPolicy>,
}

/// A session to be created.
#[derive(Debug, Clone)]
pub struct CreateSession {
    pub executor: Option<String>,
    pub name: Option<String>,
}

/// What a session to be created says.
pub struct CreateSessionView {
    pub executor: Option<Seq<char>>,
    pub name: Option<Seq<char>>,
}

impl View for CreateSession {
    type V = CreateSessionView;

    open spec fn view(&self) -> CreateSessionView {
        CreateSessionView {
            executor: view_of_option(self.executor),
            name: view_of_option(self.name),
        }
    }
}

/// A fix session to be created, with what it is told.
#[derive(Debug, Clone)]
pub struct ReviewFixPlan {
    pub session: CreateSession,
    pub prompt: String,
}

/// A repository of a workspace, and the commit at which the work forked off, where that is known.
#[derive(Debug, Clone)]
pub struct RepoForkPoint {
    pub repo_id: Uuid,
    pub repo_name: String,
    pub base_commit: Option<String>,
}

/// A repository of a workspace, and the commit against which it is reviewed.
#[derive(Debug, Clone)]
pub struct RepoReviewContext {
    pub repo_id: Uuid,
    pub repo_name: String,
    pub base_commit: String,
}

/// What a review session is started with.
#[derive(Debug, Clone)]
pub struct ReviewRequest {
    pub executor_config: ExecutorConfig,
    pub context: Option<Vec<RepoReviewContext>>,
    pub prompt: String,
    pub session_id: Option<String>,
    pub working_dir: Option<String>,
}

/// What a fix session is started with.
#[derive(Debug, Clone)]
pub struct CodingAgentInitialRequest {
    pub prompt: String,
    pub executor_config: ExecutorConfig,
    pub working_dir: Option<String>,
}

// ---------------------------------------------------------------------------
// Whether a session starts
// ---------------------------------------------------------------------------

/// Whether a session may start beside the processes of the workspace: not while an agent runs.
pub fn running_agent_gate(running: bool) -> (r: Result<(), String>)
    ensures
        view_of_gate(r) == if running {
            Err("Workspace already has a running agent process"@)
        } else {
            Ok(())
        },
{
    if running {
        Err(owned("Workspace already has a running agent process"))
    } else {
        Ok(())
    }
}

/// The review session to be created in a workspace with the processes `rows`, latest first, where
/// `review_text` is the text of the review that decides; or why none may start.
pub fn plan_auto_review(
    workspace: &Workspace,
    rows: &[ProcessRow],
    review_text: &str,
    pr_merge_state: &str,
    pr_status: Option<&AutopilotPrStatus>,
    rerun: bool,
) -> (r: Result<CreateSession, String>)
    ensures
        ({
            let (decision, _, review) = decided(rows@.filter(reviews()), review_text@);
            let gate = review_gate(
                *workspace,
                first_of(rows@, implementations()),
                decision,
                review,
                first_of(rows@, fixes()),
                pr_merge_state@,
                rerun,
            );
            match r {
                Ok(session) => gate is Ok && session@ == (CreateSessionView {
                    executor: Some("CODEX"@),
                    name: Some(auto_review_name(rerun)),
                }),
                Err(message) => gate == Err::<(), Seq<char>>(message@),
            }
        }),
{
    let implementation = implementation_process(rows);
    let all_reviews = review_processes(rows);
    let fix = review_fix_process(rows);
    let (decision, _, review) = decide_from_review_attempts(all_reviews.as_slice(), review_text);
    match auto_review_start_gate(
        workspace,
        implementation,
        &decision,
        review,
        fix,
        pr_merge_state,
        pr_status,
        rerun,
    ) {
        Ok(_) => Ok(
            CreateSession {
                executor: Some(owned("CODEX")),
                name: Some(auto_review_session_name(rerun)),
            },
        ),
        Err(message) => Err(message),
    }
}

/// What a fix session is told about a review with this excerpt.
pub open spec fn fix_prompt(excerpt: Option<Seq<char>>) -> Seq<char> {
    match excerpt {
        Some(excerpt) => REVIEW_FIX_PROMPT@ + "\n\nLatest auto-review excerpt:\n"@ + excerpt,
        None => REVIEW_FIX_PROMPT@,
    }
}

/// The fix session to be created in a workspace with the processes `rows`, latest first, where
/// `review_text` is the text of the review that decides; or why none may start.
pub fn plan_review_fix(workspace: &Workspace, rows: &[ProcessRow], review_text: &str) -> (r:
    Result<ReviewFixPlan, String>)
    ensures
        ({
            let (decision, excerpt, review) = decided(rows@.filter(reviews()), review_text@);
            let gate = fix_gate(
                *workspace,
                first_of(rows@, implementations()),
                decision,
                review,
                first_of(rows@, fixes()),
            );
            match r {
                Ok(plan) => gate is Ok && plan.session@ == (CreateSessionView {
                    executor: Some("CODEX"@),
                    name: Some(review_fix_name()),
                }) && plan.prompt@ == fix_prompt(excerpt),
                Err(message) => gate == Err::<(), Seq<char>>(message@),
            }
        }),
{
    let implementation = implementation_process(rows);
    let all_reviews = review_processes(rows);
    let fix = review_fix_process(rows);
    let (decision, excerpt, review) = decide_from_review_attempts(all_reviews.as_slice(), review_text);
    match review_fix_start_gate(workspace, implementation, &decision, review, fix) {
        Ok(_) => {
            let mut prompt = owned(REVIEW_FIX_PROMPT);
            if let Some(excerpt) = &excerpt {
                prompt.append("\n\nLatest auto-review excerpt:\n");
                prompt.append(excerpt.as_str());
            }
            Ok(
                ReviewFixPlan {
                    session: CreateSession {
                        executor: Some(owned("CODEX")),
                        name: Some(review_fix_session_name()),
                    },
                    prompt,
                },
            )
        },
        Err(message) => Err(message),
    }
}

// ---------------------------------------------------------------------------
// What a session is started with
// ---------------------------------------------------------------------------

/// An agent is run with the default model at the default effort, and is not asked for permission.
pub open spec fn is_default_config(config: ExecutorConfig) -> bool {
    &&& config.executor == BaseCodingAgent::Codex
    &&& config.variant is None
    &&& view_of_option(config.model_id) == Some(DEFAULT_CODEX_MODEL@)
    &&& config.agent_id is None
    &&& view_of_option(config.reasoning_id) == Some(DEFAULT_CODEX_REASONING@)
    &&& config.permission_policy == Some(PermissionPolicy::Auto)
}

/// How review and fix sessions run their agent.
pub fn default_codex_config() -> (r: ExecutorConfig)
    ensures
        is_default_config(r),
{
    ExecutorConfig {
        executor: BaseCodingAgent::Codex,
        variant: None,
        model_id: Some(owned(DEFAULT_CODEX_MODEL)),
        agent_id: None,
        reasoning_id: Some(owned(DEFAULT_CODEX_REASONING)),
        permission_policy: Some(PermissionPolicy::Auto),
    }
}

/// The repositories that can be reviewed: those whose fork point is known.
pub open spec fn reviewable(repos: Seq<RepoForkPoint>) -> Seq<RepoReviewContext>
    decreases repos.len(),
{
    if repos.len() == 0 {
        Seq::empty()
    } else {
        let front = reviewable(repos.drop_last());
        let last = repos.last();
        match last.base_commit {
            Some(base_commit) => front.push(
                RepoReviewContext {
                    repo_id: last.repo_id,
                    repo_name: last.repo_name,
                    base_commit,
                },
            ),
            None => front,
        }
    }
}

/// The repositories that can be reviewed, where there are any.
pub fn review_contexts(repos: &[RepoForkPoint]) -> (r: Option<Vec<RepoReviewContext>>)
    ensures
        match r {
            Some(contexts) => contexts@ == reviewable(repos@) && contexts@.len() > 0,
            None => reviewable(repos@).len() == 0,
        },
{
    let mut contexts: Vec<RepoReviewContext> = Vec::new();
    for i in 0..repos.len()
        invariant
            contexts@ == reviewable(repos@.take(i as int)),
    {
        assert(repos@.take(i + 1).drop_last() =~= repos@.take(i as int));
        let repo = &repos[i];
        if let Some(base_commit) = &repo.base_commit {
            contexts.push(
                RepoReviewContext {
                    repo_id: repo.repo_id,
                    repo_name: repo.repo_name.clone(),
                    base_commit: base_commit.clone(),
                },
            );
        }
    }
    assert(repos@.take(repos@.len() as int) =~= repos@);
    if contexts.len() > 0 {
        Some(contexts)
    } else {
        None
    }
}

/// What a review session is started with: the prompt as it was built for the context, in the
/// working directory of the session.
pub fn review_request(
    context: Option<Vec<RepoReviewContext>>,
    prompt: String,
    working_dir: Option<String>,
) -> (r: ReviewRequest)
    ensures
        is_default_config(r.executor_config),
        r.context == context,
        r.prompt == prompt,
        r.session_id is None,
        r.working_dir == working_dir,
{
    ReviewRequest {
        executor_config: default_codex_config(),
        context,
        prompt,
        session_id: None,
        working_dir,
    }
}

/// What a fix session is started with. An empty working directory counts as none.
pub fn review_fix_request(prompt: String, working_dir: Option<String>) -> (r:
    CodingAgentInitialRequest)
    ensures
        r.prompt == prompt,
        is_default_config(r.executor_config),
        r.working_dir == if working_dir is Some && working_dir->0@.len() == 0 {
            None
        } else {
            working_dir
        },
{
    let working_dir = match working_dir {
        Some(dir) => if dir.as_str().is_empty() {
            None
        } else {
            Some(dir)
        },
        None => None,
    };
    CodingAgentInitialRequest { prompt, executor_config: default_codex_config(), working_dir }
}

// ---------------------------------------------------------------------------
// Laws
// ---------------------------------------------------------------------------

/// Every repository whose fork point is known is reviewed, against that commit, in order, and no
/// other is.
pub proof fn law_known_forks_are_reviewed(repos: Seq<RepoForkPoint>)
    ensures
        reviewable(repos) == repos.filter(|repo: RepoForkPoint| repo.base_commit is Some).map_values(
            |repo: RepoForkPoint|
                RepoReviewContext {
                    repo_id: repo.repo_id,
                    repo_name: repo.repo_name,
                    base_commit: repo.base_commit->0,
                },
        ),
        reviewable(repos).len() > 0 <==> exists|i: int|
            0 <= i < repos.len() && (#[trigger] repos[i]).base_commit is Some,
    decreases repos.len(),
{
    reveal(Seq::filter);
    let class = |repo: RepoForkPoint| repo.base_commit is Some;
    let pick = |repo: RepoForkPoint|
        RepoReviewContext {
            repo_id: repo.repo_id,
            repo_name: repo.repo_name,
            base_commit: repo.base_commit->0,
        };
    if repos.len() == 0 {
        assert(reviewable(repos) =~= repos.filter(class).map_values(pick));
    } else {
        let less = repos.drop_last();
        let last = repos.len() - 1;
        law_known_forks_are_reviewed(less);
        assert(reviewable(repos) =~= repos.filter(class).map_values(pick));
        if exists|i: int| 0 <= i < less.len() && (#[trigger] less[i]).base_commit is Some {
            let i = choose|i: int|
                0 <= i < less.len() && (#[trigger] less[i]).base_commit is Some;
            assert(repos[i].base_commit is Some);
        }
        if repos[last].base_commit is Some {
            assert(repos[last].base_commit is Some);
        }
        if exists|i: int| 0 <= i < repos.len() && (#[trigger] repos[i]).base_commit is Some {
            let i = choose|i: int|
                0 <= i < repos.len() && (#[trigger] repos[i]).base_commit is Some;
            if i < last {
                assert(less[i].base_commit is Some);
            }
        }
    }
}

/// A fix session is told its orders first, and the review that it answers behind them.
pub proof fn law_fix_prompts_end_with_the_review(excerpt: Seq<char>)
    ensures
        fix_prompt(None) == REVIEW_FIX_PROMPT@,
        starts_with_text(fix_prompt(Some(excerpt)), REVIEW_FIX_PROMPT@),
        ends_with_text(
            fix_prompt(Some(excerpt)),
            "\n\nLatest auto-review excerpt:\n"@ + excerpt,
        ),
        fix_prompt(Some(excerpt)).len() == REVIEW_FIX_PROMPT@.len()
            + "\n\nLatest auto-review excerpt:\n"@.len() + excerpt.len(),
{
    let front = REVIEW_FIX_PROMPT@;
    let back = "\n\nLatest auto-review excerpt:\n"@ + excerpt;
    let whole = fix_prompt(Some(excerpt));
    assert(whole.subrange(0, front.len() as int) =~= front);
    assert(whole.subrange(whole.len() - back.len(), whole.len() as int) =~= back);
}

/// Agents run one model at one effort.
pub proof fn law_agents_run_one_model(config: ExecutorConfig)
    requires
        is_default_config(config),
    ensures
        config.executor == BaseCodingAgent::Codex,
        view_of_option(config.model_id) == Some("gpt-5.5"@),
        view_of_option(config.reasoning_id) == Some("medium"@),
        config.permission_policy == Some(PermissionPolicy::Auto),
        config.variant is None,
        config.agent_id is None,
{
}

} // verus!
