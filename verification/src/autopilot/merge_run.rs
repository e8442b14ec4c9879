//! One run over the linked pull requests of a workspace: each is refreshed, merged where it is
//! still open, and recorded. The run asks for one piece of outside work at a time and is told
//! what came of it.
use vstd::prelude::*;

#[allow(unused_imports)]
use super::merge::{completion_blocker, count_of, exactly};
use super::merge::linked_pr_merge_completion_blocker;
use super::pr_status::merge_status_label;
#[allow(unused_imports)]
use super::pr_status::merge_status_text;
use super::types::{Merge, MergeStatus, PrMerge, PullRequestDetail};
use crate::text::{join, owned, push_signed};
#[allow(unused_imports)]
use crate::text::{
    contains_text, joined, occurs_at, signed_decimal, view_of_option, views_of,
};

verus! {

/// What came of a pull request once its report has been recorded.
#[derive(Debug)]
pub enum MergeOutcome {
    /// It was neither open nor merged when it was refreshed.
    Refused,
    /// The merge command failed, with this message.
    Unmerged(String),
    /// The merge command was accepted, and the pull request is still not merged.
    NotMerged,
    Merged,
}

/// What the run waits for.
#[derive(Debug)]
pub enum MergePhase {
    Refreshing,
    Merging(PullRequestDetail),
    Recording(PullRequestDetail, MergeOutcome),
    Done,
}

/// A piece of outside work that the run asks for, or its result.
#[derive(Debug)]
pub enum MergeRequest {
    /// Ask the host for the report of the pull request at this URL.
    Refresh(String),
    /// Have the host merge the pull request at this URL.
    Merge(String),
    /// Record this report of the linked pull request.
    Record(PullRequestDetail, PrMerge),
    Finished(Result<(), String>),
}

/// What came of a piece of outside work.
#[derive(Debug)]
pub enum MergeEvent {
    ProviderUnknown(String),
    RefreshFailed(String),
    Refreshed(PullRequestDetail),
    MergeFailed(String),
    MergeReturned(PullRequestDetail),
    /// The report was recorded, or could not be, with this message.
    Recorded(Option<String>),
}

/// A run over the linked pull requests of a workspace.
#[derive(Debug)]
pub struct MergeRun {
    prs: Vec<PrMerge>,
    statuses: Vec<MergeStatus>,
    blockers: Vec<String>,
    phase: MergePhase,
}

/// Where a run stands: the pull requests, the final statuses of those that are through, what
/// stands in the way, and what the run waits for.
pub struct MergeRunView {
    pub prs: Seq<PrMerge>,
    pub statuses: Seq<MergeStatus>,
    pub blockers: Seq<Seq<char>>,
    pub phase: MergePhase,
}

impl View for MergeRun {
    type V = MergeRunView;

    closed spec fn view(&self) -> MergeRunView {
        MergeRunView {
            prs: self.prs@,
            statuses: self.statuses@,
            blockers: views_of(self.blockers@),
            phase: self.phase,
        }
    }
}

// ---------------------------------------------------------------------------
// Sentences
// ---------------------------------------------------------------------------

/// A pull request by its number and its URL.
pub open spec fn named(pr: PrMerge) -> Seq<char> {
    "PR #"@ + signed_decimal(pr.number as int) + " ("@ + pr.url@ + ")"@
}

/// What stands in the way of a pull request whose host is not known.
pub open spec fn provider_blocker(pr: PrMerge, error: Seq<char>) -> Seq<char> {
    "Cannot identify pull request provider for "@ + named(pr) + ": "@ + error
}

/// What stands in the way of a pull request that could not be refreshed.
pub open spec fn refresh_blocker(pr: PrMerge, error: Seq<char>) -> Seq<char> {
    "Failed to refresh "@ + named(pr) + " merge status from GitHub: "@ + error
}

/// What stands in the way of a pull request once its report, with the status `status`, has been
/// recorded; `error` tells why it could not be.
pub open spec fn outcome_blockers(
    pr: PrMerge,
    status: MergeStatus,
    outcome: MergeOutcome,
    error: Option<Seq<char>>,
) -> Seq<Seq<char>> {
    match outcome {
        MergeOutcome::Refused => (match error {
            Some(error) => seq![
                named(pr) + " refreshed as "@ + merge_status_text(status)
                    + ", but status persistence failed: "@ + error,
            ],
            None => Seq::empty(),
        }).push(
            "Cannot complete autopilot merge: "@ + named(pr) + " is "@ + merge_status_text(status)
                + " after refresh."@,
        ),
        MergeOutcome::Unmerged(message) => seq![
            named(pr) + " merge is blocked by GitHub requirements: "@ + message@ + "."@ + (
            match error {
                Some(error) => " Refreshed PR status persistence also failed: "@ + error + "."@,
                None => ""@,
            }),
        ],
        MergeOutcome::NotMerged => (match error {
            Some(error) => seq![
                named(pr) + " status persistence failed after merge attempt: "@ + error,
            ],
            None => Seq::empty(),
        }).push(
            "GitHub accepted the merge command for "@ + named(pr) + ", but it is "@
                + merge_status_text(status) + " instead of merged."@,
        ),
        MergeOutcome::Merged => match error {
            Some(error) => seq![
                named(pr) + " merged, but local/remote PR status update failed: "@ + error,
            ],
            None => Seq::empty(),
        },
    }
}

/// The final status of a pull request whose report has the status `status`.
pub open spec fn final_status(status: MergeStatus, outcome: MergeOutcome) -> MergeStatus {
    match outcome {
        MergeOutcome::Refused => status,
        MergeOutcome::Unmerged(_) => MergeStatus::Open,
        MergeOutcome::NotMerged => status,
        MergeOutcome::Merged => MergeStatus::Merged,
    }
}

/// A pull request by its number and its URL.
fn push_named(text: &mut String, pr: &PrMerge)
    ensures
        final(text)@ == old(text)@ + named(*pr),
{
    text.append("PR #");
    push_signed(text, pr.number);
    text.append(" (");
    text.append(pr.url.as_str());
    text.append(")");
    assert(text@ =~= old(text)@ + named(*pr));
}

/// `front`, the pull request, `middle`, `label` and `back`.
fn sentence(front: &str, pr: &PrMerge, middle: &str, label: &str, back: &str) -> (r: String)
    ensures
        r@ == front@ + named(*pr) + middle@ + label@ + back@,
{
    let mut text = owned(front);
    push_named(&mut text, pr);
    text.append(middle);
    text.append(label);
    text.append(back);
    text
}

/// A sentence in which nothing stands in front or at the back.
proof fn lemma_empty_ends()
    ensures
        ""@ == Seq::<char>::empty(),
        forall|text: Seq<char>| #[trigger] (""@ + text) == text,
        forall|text: Seq<char>| #[trigger] (text + ""@) == text,
{
    reveal_strlit("");
    assert(""@ =~= Seq::<char>::empty());
    assert forall|text: Seq<char>| #[trigger] (""@ + text) == text by {
        assert(""@ + text =~= text);
    }
    assert forall|text: Seq<char>| #[trigger] (text + ""@) == text by {
        assert(text + ""@ =~= text);
    }
}

/// Appends `text` to `texts`.
fn push_owned(texts: &mut Vec<String>, text: String)
    ensures
        views_of(final(texts)@) == views_of(old(texts)@).push(text@),
{
    texts.push(text);
    assert(views_of(texts@) =~= views_of(old(texts)@).push(text@));
}

/// Appends what stands in the way of a pull request once its report has been recorded.
fn push_outcome_blockers(
    blockers: &mut Vec<String>,
    pr: &PrMerge,
    status: MergeStatus,
    outcome: &MergeOutcome,
    error: &Option<String>,
)
    ensures
        views_of(final(blockers)@) == views_of(old(blockers)@) + outcome_blockers(
            *pr,
            status,
            *outcome,
            view_of_option(*error),
        ),
{
    proof {
        lemma_empty_ends();
    }
    let label = merge_status_label(&status);
    match outcome {
        MergeOutcome::Refused => {
            if let Some(error) = error {
                let mut text = sentence(
                    "",
                    pr,
                    " refreshed as ",
                    label,
                    ", but status persistence failed: ",
                );
                text.append(error.as_str());
                push_owned(blockers, text);
            }
            push_owned(
                blockers,
                sentence(
                    "Cannot complete autopilot merge: ",
                    pr,
                    " is ",
                    label,
                    " after refresh.",
                ),
            );
        },
        MergeOutcome::Unmerged(message) => {
            let mut text = sentence(
                "",
                pr,
                " merge is blocked by GitHub requirements: ",
                message.as_str(),
                ".",
            );
            if let Some(error) = error {
                let mut note = owned(" Refreshed PR status persistence also failed: ");
                note.append(error.as_str());
                note.append(".");
                text.append(note.as_str());
            }
            push_owned(blockers, text);
        },
        MergeOutcome::NotMerged => {
            if let Some(error) = error {
                push_owned(
                    blockers,
                    sentence(
                        "",
                        pr,
                        " status persistence failed after merge attempt: ",
                        error.as_str(),
                        "",
                    ),
                );
            }
            push_owned(
                blockers,
                sentence(
                    "GitHub accepted the merge command for ",
                    pr,
                    ", but it is ",
                    label,
                    " instead of merged.",
                ),
            );
        },
        MergeOutcome::Merged => {
            if let Some(error) = error {
                push_owned(
                    blockers,
                    sentence(
                        "",
                        pr,
                        " merged, but local/remote PR status update failed: ",
                        error.as_str(),
                        "",
                    ),
                );
            }
        },
    }
    assert(views_of(blockers@) =~= views_of(old(blockers)@) + outcome_blockers(
        *pr,
        status,
        *outcome,
        view_of_option(*error),
    ));
}

// ---------------------------------------------------------------------------
// The run
// ---------------------------------------------------------------------------

/// The pull requests among `merges`.
pub open spec fn linked_prs(merges: Seq<Merge>) -> Seq<PrMerge>
    decreases merges.len(),
{
    if merges.len() == 0 {
        Seq::empty()
    } else {
        let front = linked_prs(merges.drop_last());
        match merges.last() {
            Merge::Pr(pr) => front.push(pr),
            Merge::Direct => front,
        }
    }
}

/// The final statuses once the pull requests that come next and are known to be merged are
/// through.
pub open spec fn settled(prs: Seq<PrMerge>, statuses: Seq<MergeStatus>) -> Seq<MergeStatus>
    decreases prs.len() - statuses.len(),
{
    if statuses.len() < prs.len() && prs[statuses.len() as int].status == MergeStatus::Merged {
        settled(prs, statuses.push(MergeStatus::Merged))
    } else {
        statuses
    }
}

/// The run that goes on with the next pull request, if there is one.
pub open spec fn going_on(
    prs: Seq<PrMerge>,
    statuses: Seq<MergeStatus>,
    blockers: Seq<Seq<char>>,
) -> MergeRunView {
    let through = settled(prs, statuses);
    MergeRunView {
        prs,
        statuses: through,
        blockers,
        phase: if through.len() < prs.len() {
            MergePhase::Refreshing
        } else {
            MergePhase::Done
        },
    }
}

impl MergeRunView {
    /// The pull request that the run is at.
    pub open spec fn current(self) -> PrMerge {
        self.prs[self.statuses.len() as int]
    }

    /// Statuses and phase fit together: the run is at a pull request that is not known to be
    /// merged until it is done, merges what is open, and names what stands in the way of each pull
    /// request that is not merged in the end.
    pub open spec fn wf(self) -> bool {
        &&& self.statuses.len() <= self.prs.len()
        &&& self.phase is Done <==> self.statuses.len() == self.prs.len()
        &&& !(self.phase is Done) ==> self.current().status != MergeStatus::Merged
        &&& self.phase matches MergePhase::Merging(detail) ==> detail.status == MergeStatus::Open
        &&& self.phase matches MergePhase::Recording(detail, outcome) ==> (match outcome {
            MergeOutcome::Merged => detail.status == MergeStatus::Merged,
            MergeOutcome::Unmerged(_) => detail.status == MergeStatus::Open,
            MergeOutcome::NotMerged => detail.status != MergeStatus::Merged,
            MergeOutcome::Refused => detail.status == MergeStatus::Closed || detail.status
                == MergeStatus::Unknown,
        })
        &&& self.blockers.len() == 0 ==> forall|i: int|
            0 <= i < self.statuses.len() ==> #[trigger] self.statuses[i] == MergeStatus::Merged
    }

    /// The run once the current pull request is through.
    pub open spec fn through(
        self,
        status: MergeStatus,
        blockers: Seq<Seq<char>>,
    ) -> MergeRunView {
        going_on(self.prs, self.statuses.push(status), self.blockers + blockers)
    }

    /// The run in another phase.
    pub open spec fn in_phase(self, phase: MergePhase) -> MergeRunView {
        MergeRunView { phase, ..self }
    }

    /// The run after `event`. An event that it does not wait for changes nothing.
    pub open spec fn after(self, event: MergeEvent) -> MergeRunView {
        match self.phase {
            MergePhase::Refreshing => match event {
                MergeEvent::ProviderUnknown(error) => self.through(
                    self.current().status,
                    seq![provider_blocker(self.current(), error@)],
                ),
                MergeEvent::RefreshFailed(error) => self.through(
                    self.current().status,
                    seq![refresh_blocker(self.current(), error@)],
                ),
                MergeEvent::Refreshed(detail) => self.in_phase(
                    match detail.status {
                        MergeStatus::Open => MergePhase::Merging(detail),
                        MergeStatus::Merged => MergePhase::Recording(detail, MergeOutcome::Merged),
                        _ => MergePhase::Recording(detail, MergeOutcome::Refused),
                    },
                ),
                _ => self,
            },
            MergePhase::Merging(known) => match event {
                MergeEvent::MergeFailed(error) => self.in_phase(
                    MergePhase::Recording(known, MergeOutcome::Unmerged(error)),
                ),
                MergeEvent::MergeReturned(detail) => self.in_phase(
                    MergePhase::Recording(
                        detail,
                        if detail.status == MergeStatus::Merged {
                            MergeOutcome::Merged
                        } else {
                            MergeOutcome::NotMerged
                        },
                    ),
                ),
                _ => self,
            },
            MergePhase::Recording(detail, outcome) => match event {
                MergeEvent::Recorded(error) => self.through(
                    final_status(detail.status, outcome),
                    outcome_blockers(
                        self.current(),
                        detail.status,
                        outcome,
                        view_of_option(error),
                    ),
                ),
                _ => self,
            },
            MergePhase::Done => self,
        }
    }

    /// The run waits for such an event.
    pub open spec fn waits_for(self, event: MergeEvent) -> bool {
        match self.phase {
            MergePhase::Refreshing => event is ProviderUnknown || event is RefreshFailed
                || event is Refreshed,
            MergePhase::Merging(_) => event is MergeFailed || event is MergeReturned,
            MergePhase::Recording(_, _) => event is Recorded,
            MergePhase::Done => false,
        }
    }

    /// What a finished run has come to: nothing where every pull request is merged and recorded,
    /// else all that stands in the way.
    pub open spec fn result(self) -> Result<(), Seq<char>> {
        if self.blockers.len() > 0 {
            Err(joined(self.blockers, " "@))
        } else {
            match completion_blocker(self.statuses) {
                Some(blocker) => Err(blocker),
                None => Ok(()),
            }
        }
    }

    /// How many more events the run can wait for at most.
    pub open spec fn outstanding(self) -> int {
        3 * (self.prs.len() - self.statuses.len()) - (match self.phase {
            MergePhase::Refreshing => 0int,
            MergePhase::Merging(_) => 1,
            MergePhase::Recording(_, _) => 2,
            MergePhase::Done => 0,
        })
    }
}

/// Pull requests that are known to be merged are passed over, and nothing else.
proof fn lemma_settled(prs: Seq<PrMerge>, statuses: Seq<MergeStatus>)
    requires
        statuses.len() <= prs.len(),
    ensures
        statuses.len() <= settled(prs, statuses).len() <= prs.len(),
        settled(prs, statuses).take(statuses.len() as int) == statuses,
        forall|i: int|
            statuses.len() <= i < settled(prs, statuses).len() ==> #[trigger] settled(
                prs,
                statuses,
            )[i] == MergeStatus::Merged,
        settled(prs, statuses).len() < prs.len() ==> prs[settled(
            prs,
            statuses,
        ).len() as int].status != MergeStatus::Merged,
    decreases prs.len() - statuses.len(),
{
    if statuses.len() < prs.len() && prs[statuses.len() as int].status == MergeStatus::Merged {
        let more = statuses.push(MergeStatus::Merged);
        lemma_settled(prs, more);
        let all = settled(prs, more);
        assert(all.take(statuses.len() as int) =~= all.take(more.len() as int).take(
            statuses.len() as int,
        ));
        assert(more.take(statuses.len() as int) =~= statuses);
        assert(all[statuses.len() as int] == all.take(more.len() as int)[statuses.len() as int]);
    } else {
        assert(statuses.take(statuses.len() as int) =~= statuses);
    }
}

/// A run that goes on is well formed where what is behind it is.
proof fn lemma_going_on(
    prs: Seq<PrMerge>,
    statuses: Seq<MergeStatus>,
    blockers: Seq<Seq<char>>,
)
    requires
        statuses.len() <= prs.len(),
        blockers.len() == 0 ==> forall|i: int|
            0 <= i < statuses.len() ==> #[trigger] statuses[i] == MergeStatus::Merged,
    ensures
        going_on(prs, statuses, blockers).wf(),
{
    lemma_settled(prs, statuses);
    let all = settled(prs, statuses);
    if blockers.len() == 0 {
        assert forall|i: int| 0 <= i < all.len() implies #[trigger] all[i]
            == MergeStatus::Merged by {
            if i < statuses.len() {
                assert(all.take(statuses.len() as int)[i] == statuses[i]);
            }
        }
    }
}

impl MergeRun {
    /// The pull requests, the statuses and the phase of the run fit together.
    pub open spec fn wf(self) -> bool {
        self@.wf()
    }

    /// Goes on with the next pull request, if there is one.
    fn go_on(prs: Vec<PrMerge>, statuses: Vec<MergeStatus>, blockers: Vec<String>) -> (r: MergeRun)
        requires
            statuses@.len() <= prs@.len(),
        ensures
            r@ == going_on(prs@, statuses@, views_of(blockers@)),
    {
        let mut through = statuses;
        while through.len() < prs.len() && prs[through.len()].status == MergeStatus::Merged
            invariant
                through@.len() <= prs@.len(),
                settled(prs@, through@) == settled(prs@, statuses@),
            ensures
                through@ == settled(prs@, statuses@),
            decreases prs@.len() - through@.len(),
        {
            through.push(MergeStatus::Merged);
        }
        let phase = if through.len() < prs.len() {
            MergePhase::Refreshing
        } else {
            MergePhase::Done
        };
        MergeRun { prs, statuses: through, blockers, phase }
    }

    /// A run over the pull requests among `merges`.
    pub fn new(merges: &[Merge]) -> (r: MergeRun)
        ensures
            r.wf(),
            r@ == going_on(linked_prs(merges@), Seq::empty(), Seq::empty()),
            r@.prs == merges@.filter(|merge: Merge| merge is Pr).map_values(
                |merge: Merge| merge->Pr_0,
            ),
    {
        let mut prs: Vec<PrMerge> = Vec::new();
        for i in 0..merges.len()
            invariant
                prs@ == linked_prs(merges@.take(i as int)),
        {
            assert(merges@.take(i + 1).drop_last() =~= merges@.take(i as int));
            if let Merge::Pr(pr) = &merges[i] {
                prs.push(pr.copy());
            }
        }
        assert(merges@.take(merges@.len() as int) =~= merges@);
        let statuses: Vec<MergeStatus> = Vec::new();
        let blockers: Vec<String> = Vec::new();
        assert(views_of(blockers@) =~= Seq::empty());
        proof {
            lemma_going_on(prs@, Seq::empty(), Seq::empty());
            law_linked_pull_requests_are_all_of_them(merges@);
        }
        MergeRun::go_on(prs, statuses, blockers)
    }

    /// What the run asks for.
    pub fn request(&self) -> (r: MergeRequest)
        requires
            self.wf(),
        ensures
            match self@.phase {
                MergePhase::Refreshing => r matches MergeRequest::Refresh(url) && url
                    == self@.current().url,
                MergePhase::Merging(_) => r matches MergeRequest::Merge(url) && url
                    == self@.current().url,
                MergePhase::Recording(detail, _) => r == MergeRequest::Record(
                    detail,
                    self@.current(),
                ),
                MergePhase::Done => r matches MergeRequest::Finished(result) && match result {
                    Ok(_) => self@.result() is Ok,
                    Err(message) => self@.result() == Err::<(), Seq<char>>(message@),
                },
            },
    {
        match &self.phase {
            MergePhase::Refreshing => MergeRequest::Refresh(
                self.prs[self.statuses.len()].url.clone(),
            ),
            MergePhase::Merging(_) => MergeRequest::Merge(
                self.prs[self.statuses.len()].url.clone(),
            ),
            MergePhase::Recording(detail, _) => MergeRequest::Record(
                detail.copy(),
                self.prs[self.statuses.len()].copy(),
            ),
            MergePhase::Done => MergeRequest::Finished(
                if self.blockers.len() > 0 {
                    Err(join(&self.blockers, " "))
                } else {
                    match linked_pr_merge_completion_blocker(self.statuses.as_slice()) {
                        Some(blocker) => Err(blocker),
                        None => Ok(()),
                    }
                },
            ),
        }
    }

    /// The run after `event`. An event that it does not wait for changes nothing.
    pub fn handle(self, event: MergeEvent) -> (r: MergeRun)
        requires
            self.wf(),
        ensures
            r.wf(),
            r@ == self@.after(event),
    {
        proof {
            lemma_after(self@, event);
            lemma_empty_ends();
        }
        let ghost before = self@;
        let MergeRun { prs, statuses, blockers, phase } = self;
        let mut statuses = statuses;
        let mut blockers = blockers;
        match phase {
            MergePhase::Refreshing => {
                match event {
                    MergeEvent::ProviderUnknown(error) => {
                        let pr = &prs[statuses.len()];
                        let text = sentence(
                            "Cannot identify pull request provider for ",
                            pr,
                            ": ",
                            error.as_str(),
                            "",
                        );
                        push_owned(&mut blockers, text);
                        statuses.push(pr.status);
                        assert(views_of(blockers@) =~= before.blockers + seq![text@]);
                        MergeRun::go_on(prs, statuses, blockers)
                    },
                    MergeEvent::RefreshFailed(error) => {
                        let pr = &prs[statuses.len()];
                        let text = sentence(
                            "Failed to refresh ",
                            pr,
                            " merge status from GitHub: ",
                            error.as_str(),
                            "",
                        );
                        push_owned(&mut blockers, text);
                        statuses.push(pr.status);
                        assert(views_of(blockers@) =~= before.blockers + seq![text@]);
                        MergeRun::go_on(prs, statuses, blockers)
                    },
                    MergeEvent::Refreshed(detail) => {
                        let phase = match detail.status {
                            MergeStatus::Open => MergePhase::Merging(detail),
                            MergeStatus::Merged => MergePhase::Recording(
                                detail,
                                MergeOutcome::Merged,
                            ),
                            _ => MergePhase::Recording(detail, MergeOutcome::Refused),
                        };
                        MergeRun { prs, statuses, blockers, phase }
                    },
                    _ => MergeRun { prs, statuses, blockers, phase: MergePhase::Refreshing },
                }
            },
            MergePhase::Merging(known) => {
                let phase = match event {
                    MergeEvent::MergeFailed(error) => MergePhase::Recording(
                        known,
                        MergeOutcome::Unmerged(error),
                    ),
                    MergeEvent::MergeReturned(detail) => {
                        let outcome = if detail.status == MergeStatus::Merged {
                            MergeOutcome::Merged
                        } else {
                            MergeOutcome::NotMerged
                        };
                        MergePhase::Recording(detail, outcome)
                    },
                    _ => MergePhase::Merging(known),
                };
                MergeRun { prs, statuses, blockers, phase }
            },
            MergePhase::Recording(detail, outcome) => {
                match event {
                    MergeEvent::Recorded(error) => {
                        let pr = &prs[statuses.len()];
                        push_outcome_blockers(
                            &mut blockers,
                            pr,
                            detail.status,
                            &outcome,
                            &error,
                        );
                        let status = match outcome {
                            MergeOutcome::Refused => detail.status,
                            MergeOutcome::Unmerged(_) => MergeStatus::Open,
                            MergeOutcome::NotMerged => detail.status,
                            MergeOutcome::Merged => MergeStatus::Merged,
                        };
                        statuses.push(status);
                        MergeRun::go_on(prs, statuses, blockers)
                    },
                    _ => MergeRun {
                        prs,
                        statuses,
                        blockers,
                        phase: MergePhase::Recording(detail, outcome),
                    },
                }
            },
            MergePhase::Done => MergeRun { prs, statuses, blockers, phase: MergePhase::Done },
        }
    }
}

/// The run stays well formed.
proof fn lemma_after(run: MergeRunView, event: MergeEvent)
    requires
        run.wf(),
    ensures
        run.after(event).wf(),
        run.after(event).prs == run.prs,
{
    match run.phase {
        MergePhase::Refreshing => match event {
            MergeEvent::ProviderUnknown(error) => {
                lemma_going_on(
                    run.prs,
                    run.statuses.push(run.current().status),
                    run.blockers + seq![provider_blocker(run.current(), error@)],
                );
            },
            MergeEvent::RefreshFailed(error) => {
                lemma_going_on(
                    run.prs,
                    run.statuses.push(run.current().status),
                    run.blockers + seq![refresh_blocker(run.current(), error@)],
                );
            },
            _ => {},
        },
        MergePhase::Recording(detail, outcome) => match event {
            MergeEvent::Recorded(error) => {
                let more = outcome_blockers(
                    run.current(),
                    detail.status,
                    outcome,
                    view_of_option(error),
                );
                let status = final_status(detail.status, outcome);
                assert(more.len() == 0 ==> status == MergeStatus::Merged);
                lemma_going_on(run.prs, run.statuses.push(status), run.blockers + more);
            },
            _ => {},
        },
        _ => {},
    }
}

// ---------------------------------------------------------------------------
// Laws
// ---------------------------------------------------------------------------

/// Whether statuses are counted, or looked through one by one.
proof fn lemma_count(statuses: Seq<MergeStatus>, one: MergeStatus)
    ensures
        count_of(statuses, one) == 0 <==> forall|i: int|
            0 <= i < statuses.len() ==> #[trigger] statuses[i] != one,
    decreases statuses.len(),
{
    reveal(Seq::filter);
    if statuses.len() > 0 {
        let front = statuses.drop_last();
        lemma_count(front, one);
        if count_of(front, one) == 0 && statuses.last() != one {
            assert forall|i: int| 0 <= i < statuses.len() implies #[trigger] statuses[i] != one by {
                if i < front.len() {
                    assert(front[i] != one);
                }
            }
        }
        if forall|i: int| 0 <= i < statuses.len() ==> #[trigger] statuses[i] != one {
            assert forall|i: int| 0 <= i < front.len() implies #[trigger] front[i] != one by {
                assert(statuses[i] != one);
            }
            assert(statuses[statuses.len() - 1] != one);
        }
    }
}

/// Nothing is left open exactly where there are pull requests and all of them are merged.
pub proof fn law_complete_means_all_merged(statuses: Seq<MergeStatus>)
    ensures
        completion_blocker(statuses) is None <==> statuses.len() > 0 && forall|i: int|
            0 <= i < statuses.len() ==> #[trigger] statuses[i] == MergeStatus::Merged,
{
    lemma_count(statuses, MergeStatus::Open);
    lemma_count(statuses, MergeStatus::Closed);
    lemma_count(statuses, MergeStatus::Unknown);
    if completion_blocker(statuses) is None {
        assert forall|i: int| 0 <= i < statuses.len() implies #[trigger] statuses[i]
            == MergeStatus::Merged by {
            assert(statuses[i] != MergeStatus::Open);
            assert(statuses[i] != MergeStatus::Closed);
            assert(statuses[i] != MergeStatus::Unknown);
        }
    }
    if statuses.len() > 0 && forall|i: int|
        0 <= i < statuses.len() ==> #[trigger] statuses[i] == MergeStatus::Merged {
        assert(forall|i: int| 0 <= i < statuses.len() ==> #[trigger] statuses[i] != MergeStatus::Open);
    }
}

/// A run that is done succeeds exactly where there are pull requests and nothing stands in the
/// way; then each of them is merged.
pub proof fn law_success_means_all_merged(run: MergeRunView)
    requires
        run.wf(),
        run.phase is Done,
    ensures
        run.result() is Ok <==> run.prs.len() > 0 && run.blockers.len() == 0,
        run.result() is Ok ==> run.statuses.len() == run.prs.len() && forall|i: int|
            0 <= i < run.prs.len() ==> #[trigger] run.statuses[i] == MergeStatus::Merged,
{
    law_complete_means_all_merged(run.statuses);
}

/// Each event that a run waits for brings it closer to its end, so that it asks for at most three
/// pieces of work for each pull request.
pub proof fn law_run_ends(run: MergeRunView, event: MergeEvent)
    requires
        run.wf(),
        run.waits_for(event),
    ensures
        0 <= run.after(event).outstanding() < run.outstanding() <= 3 * run.prs.len(),
{
    lemma_after(run, event);
    let next = run.after(event);
    if next.phase is Refreshing || next.phase is Done {
        match run.phase {
            MergePhase::Refreshing => {
                lemma_settled(run.prs, run.statuses.push(run.current().status));
            },
            MergePhase::Recording(detail, outcome) => {
                lemma_settled(
                    run.prs,
                    run.statuses.push(final_status(detail.status, outcome)),
                );
            },
            _ => {},
        }
    }
}

/// What has once stood in the way of a run stands in its way to the end, and the pull requests
/// that are through keep their statuses.
pub proof fn law_run_keeps_what_it_has_found(run: MergeRunView, event: MergeEvent)
    requires
        run.wf(),
    ensures
        run.blockers.is_prefix_of(run.after(event).blockers),
        run.statuses.is_prefix_of(run.after(event).statuses),
        run.after(event).prs == run.prs,
{
    lemma_after(run, event);
    let next = run.after(event);
    match run.phase {
        MergePhase::Refreshing => match event {
            MergeEvent::ProviderUnknown(_) => {
                lemma_through_keeps(run, run.current().status, next);
            },
            MergeEvent::RefreshFailed(_) => {
                lemma_through_keeps(run, run.current().status, next);
            },
            _ => {},
        },
        MergePhase::Recording(detail, outcome) => match event {
            MergeEvent::Recorded(_) => {
                lemma_through_keeps(run, final_status(detail.status, outcome), next);
            },
            _ => {},
        },
        _ => {},
    }
}

/// The statuses before stay the first ones.
proof fn lemma_through_keeps(run: MergeRunView, status: MergeStatus, next: MergeRunView)
    requires
        run.statuses.len() < run.prs.len(),
        next.statuses == settled(run.prs, run.statuses.push(status)),
    ensures
        run.statuses.is_prefix_of(next.statuses),
{
    let more = run.statuses.push(status);
    lemma_settled(run.prs, more);
    assert(next.statuses.take(more.len() as int) == more);
    assert forall|i: int| 0 <= i < run.statuses.len() implies run.statuses[i]
        == next.statuses[i] by {
        assert(next.statuses.take(more.len() as int)[i] == more[i]);
    }
    assert(run.statuses =~= next.statuses.subrange(0, run.statuses.len() as int));
}

/// A pull request counts as merged in the end only where it was known to be, or its host has
/// reported it merged.
pub proof fn law_merged_is_reported(run: MergeRunView, event: MergeEvent)
    requires
        run.wf(),
        !(run.phase is Done),
        run.statuses.len() < run.after(event).statuses.len(),
        run.after(event).statuses[run.statuses.len() as int] == MergeStatus::Merged,
    ensures
        run.phase matches MergePhase::Recording(detail, outcome) && outcome is Merged
            && detail.status == MergeStatus::Merged,
{
    let at = run.statuses.len() as int;
    match run.phase {
        MergePhase::Refreshing => match event {
            MergeEvent::ProviderUnknown(_) => {
                lemma_through_status(run, run.current().status);
            },
            MergeEvent::RefreshFailed(_) => {
                lemma_through_status(run, run.current().status);
            },
            _ => {},
        },
        MergePhase::Recording(detail, outcome) => match event {
            MergeEvent::Recorded(_) => {
                lemma_through_status(run, final_status(detail.status, outcome));
            },
            _ => {},
        },
        _ => {},
    }
}

/// The pull request that is through has the status it was given.
proof fn lemma_through_status(run: MergeRunView, status: MergeStatus)
    requires
        run.statuses.len() < run.prs.len(),
    ensures
        settled(run.prs, run.statuses.push(status))[run.statuses.len() as int] == status,
{
    let more = run.statuses.push(status);
    lemma_settled(run.prs, more);
    assert(settled(run.prs, more).take(more.len() as int)[run.statuses.len() as int] == status);
}

/// The pull requests of a run are those among the merges, all of them, whatever their status, in
/// their order and as often as they stand there.
pub proof fn law_linked_pull_requests_are_all_of_them(merges: Seq<Merge>)
    ensures
        linked_prs(merges) == merges.filter(|merge: Merge| merge is Pr).map_values(
            |merge: Merge| merge->Pr_0,
        ),
        forall|i: int, pr: PrMerge|
            #![trigger merges[i], linked_prs(merges).contains(pr)]
            0 <= i < merges.len() && merges[i] == Merge::Pr(pr) ==> linked_prs(merges).contains(pr),
        forall|pr: PrMerge| #[trigger]
            linked_prs(merges).contains(pr) ==> exists|i: int|
                0 <= i < merges.len() && #[trigger] merges[i] == Merge::Pr(pr),
        linked_prs(merges).len() == merges.filter(|merge: Merge| merge is Pr).len(),
    decreases merges.len(),
{
    reveal(Seq::filter);
    let class = |merge: Merge| merge is Pr;
    let pick = |merge: Merge| merge->Pr_0;
    let all = linked_prs(merges);
    if merges.len() == 0 {
        assert(all =~= merges.filter(class).map_values(pick));
    } else {
        let less = merges.drop_last();
        let front = linked_prs(less);
        law_linked_pull_requests_are_all_of_them(less);
        assert(all =~= merges.filter(class).map_values(pick));
        assert forall|i: int, pr: PrMerge|
            #![trigger merges[i], all.contains(pr)]
            0 <= i < merges.len() && merges[i] == Merge::Pr(pr) implies all.contains(pr) by {
            if i < less.len() {
                assert(less[i] == Merge::Pr(pr));
                assert(front.contains(pr));
                assert(all[front.index_of(pr)] == pr);
            } else {
                assert(all[all.len() - 1] == pr);
            }
        }
        assert forall|pr: PrMerge| #[trigger] all.contains(pr) implies exists|i: int|
            0 <= i < merges.len() && #[trigger] merges[i] == Merge::Pr(pr) by {
            let at = all.index_of(pr);
            if at < front.len() {
                assert(front[at] == pr);
                assert(front.contains(pr));
                let i = choose|i: int| 0 <= i < less.len() && #[trigger] less[i] == Merge::Pr(pr);
                assert(merges[i] == Merge::Pr(pr));
            } else {
                assert(merges[merges.len() - 1] == Merge::Pr(pr));
            }
        }
    }
}

/// A run over the pull requests among `merges` after the first `count` of `events`.
pub open spec fn run_after(merges: Seq<Merge>, events: Seq<MergeEvent>, count: int) -> MergeRunView
    decreases count,
{
    if count <= 0 {
        going_on(linked_prs(merges), Seq::empty(), Seq::empty())
    } else {
        run_after(merges, events, count - 1).after(events[count - 1])
    }
}

/// The event number `k` reports the pull request at position `j` as merged, while the run is at it.
pub open spec fn reports_merged(
    merges: Seq<Merge>,
    events: Seq<MergeEvent>,
    k: int,
    j: int,
) -> bool {
    &&& 0 <= k < events.len()
    &&& run_after(merges, events, k).statuses.len() == j
    &&& match events[k] {
        MergeEvent::Refreshed(detail) => run_after(merges, events, k).phase is Refreshing
            && detail.status == MergeStatus::Merged,
        MergeEvent::MergeReturned(detail) => run_after(merges, events, k).phase is Merging
            && detail.status == MergeStatus::Merged,
        _ => false,
    }
}

/// The event number `k` is bad news for the run: the host is not known or does not answer, the
/// pull request is neither open nor merged, it could not be merged or is not merged after all, or
/// its report could not be recorded.
pub open spec fn is_bad_news(merges: Seq<Merge>, events: Seq<MergeEvent>, k: int) -> bool {
    let phase = run_after(merges, events, k).phase;
    &&& 0 <= k < events.len()
    &&& match events[k] {
        MergeEvent::ProviderUnknown(_) => phase is Refreshing,
        MergeEvent::RefreshFailed(_) => phase is Refreshing,
        MergeEvent::Refreshed(detail) => phase is Refreshing && (detail.status
            == MergeStatus::Closed || detail.status == MergeStatus::Unknown),
        MergeEvent::MergeFailed(_) => phase is Merging,
        MergeEvent::MergeReturned(detail) => phase is Merging && detail.status
            != MergeStatus::Merged,
        MergeEvent::Recorded(error) => phase is Recording && error is Some,
    }
}

/// The run has news of what stands in the way that it still has to record.
spec fn has_bad_news_to_record(run: MergeRunView) -> bool {
    run.phase matches MergePhase::Recording(_, outcome) && !(outcome is Merged)
}

/// Where a run stands after the first `count` of `events`.
proof fn lemma_run_after(merges: Seq<Merge>, events: Seq<MergeEvent>, count: int)
    requires
        0 <= count <= events.len(),
    ensures
        run_after(merges, events, count).wf(),
        run_after(merges, events, count).prs == linked_prs(merges),
        run_after(merges, events, count).blockers.len() == 0 && !has_bad_news_to_record(
            run_after(merges, events, count),
        ) <==> forall|k: int| 0 <= k < count ==> !#[trigger] is_bad_news(merges, events, k),
        forall|j: int|
            #![trigger run_after(merges, events, count).statuses[j]]
            0 <= j < run_after(merges, events, count).statuses.len() && run_after(
                merges,
                events,
                count,
            ).statuses[j] == MergeStatus::Merged ==> linked_prs(merges)[j].status
                == MergeStatus::Merged || exists|k: int|
                k < count && #[trigger] reports_merged(merges, events, k, j),
        run_after(merges, events, count).phase matches MergePhase::Recording(_, outcome)
            ==> outcome is Merged ==> exists|k: int|
            k < count && #[trigger] reports_merged(
                merges,
                events,
                k,
                run_after(merges, events, count).statuses.len() as int,
            ),
    decreases count,
{
    if count == 0 {
        lemma_going_on(linked_prs(merges), Seq::empty(), Seq::empty());
        lemma_settled_where_merged(linked_prs(merges), Seq::empty());
    } else {
        let k = count - 1;
        let run = run_after(merges, events, k);
        let event = events[k];
        let next = run_after(merges, events, count);
        lemma_run_after(merges, events, k);
        lemma_after(run, event);
        assert(next == run.after(event));
        let status = match run.phase {
            MergePhase::Recording(detail, outcome) => final_status(detail.status, outcome),
            _ => run.current().status,
        };
        let more = run.statuses.push(status);
        if next.statuses != run.statuses {
            lemma_settled(run.prs, more);
            lemma_settled_where_merged(run.prs, more);
            assert(next.statuses == settled(run.prs, more));
        }
        assert forall|j: int|
            #![trigger next.statuses[j]]
            0 <= j < next.statuses.len() && next.statuses[j]
                == MergeStatus::Merged implies linked_prs(merges)[j].status == MergeStatus::Merged
            || exists|m: int| m < count && #[trigger] reports_merged(merges, events, m, j) by {
            if j < run.statuses.len() {
                if next.statuses != run.statuses {
                    assert(next.statuses.take(more.len() as int)[j] == more[j]);
                }
                assert(next.statuses[j] == run.statuses[j]);
                if linked_prs(merges)[j].status != MergeStatus::Merged {
                    let m = choose|m: int| m < k && #[trigger] reports_merged(merges, events, m, j);
                    assert(m < count && reports_merged(merges, events, m, j));
                }
            } else if j == run.statuses.len() {
                assert(next.statuses.take(more.len() as int)[j] == more[j]);
                if run.phase is Recording {
                    let m = choose|m: int| m < k && #[trigger] reports_merged(merges, events, m, j);
                    assert(m < count && reports_merged(merges, events, m, j));
                }
            }
        }
        if next.phase is Recording {
            if run.phase is Recording {
                if next.phase->Recording_1 is Merged {
                    let at = run.statuses.len() as int;
                    let m = choose|m: int| m < k && #[trigger] reports_merged(merges, events, m, at);
                    assert(m < count && reports_merged(merges, events, m, at));
                }
            } else if next.phase->Recording_1 is Merged {
                assert(reports_merged(merges, events, k, run.statuses.len() as int));
            }
        }
        assert(is_bad_news(merges, events, k) || !is_bad_news(merges, events, k));
        if forall|m: int| 0 <= m < count ==> !#[trigger] is_bad_news(merges, events, m) {
            assert(!is_bad_news(merges, events, k));
            assert(forall|m: int| 0 <= m < k ==> !#[trigger] is_bad_news(merges, events, m));
        }
        if next.blockers.len() == 0 && !has_bad_news_to_record(next) {
            assert(run.blockers.len() == 0);
            assert forall|m: int| 0 <= m < count implies !#[trigger] is_bad_news(
                merges,
                events,
                m,
            ) by {
                if m < k {
                    assert(!has_bad_news_to_record(run));
                }
            }
        }
    }
}

/// What is passed over is known to be merged.
proof fn lemma_settled_where_merged(prs: Seq<PrMerge>, statuses: Seq<MergeStatus>)
    requires
        statuses.len() <= prs.len(),
    ensures
        forall|j: int|
            statuses.len() <= j < settled(prs, statuses).len() ==> (#[trigger] prs[j]).status
                == MergeStatus::Merged,
    decreases prs.len() - statuses.len(),
{
    if statuses.len() < prs.len() && prs[statuses.len() as int].status == MergeStatus::Merged {
        lemma_settled_where_merged(prs, statuses.push(MergeStatus::Merged));
    } else {
        assert(settled(prs, statuses) == statuses);
    }
}

/// A run that has finished is a success exactly where there is a pull request among the merges and
/// no event was bad news. Then each pull request among the merges was known to be merged, or its
/// host has reported it merged while the run was at it.
pub proof fn law_finished_run_succeeds_where_all_are_merged(
    merges: Seq<Merge>,
    events: Seq<MergeEvent>,
)
    requires
        run_after(merges, events, events.len() as int).phase is Done,
    ensures
        run_after(merges, events, events.len() as int).result() is Ok <==> (exists|i: int|
            0 <= i < merges.len() && #[trigger] merges[i] is Pr) && (forall|k: int|
            0 <= k < events.len() ==> !#[trigger] is_bad_news(merges, events, k)),
        run_after(merges, events, events.len() as int).result() is Ok ==> forall|j: int|
            #![trigger linked_prs(merges)[j]]
            0 <= j < linked_prs(merges).len() ==> linked_prs(merges)[j].status
                == MergeStatus::Merged || exists|k: int| #[trigger]
                reports_merged(merges, events, k, j),
        run_after(merges, events, events.len() as int).result() is Ok ==> forall|i: int|
            0 <= i < merges.len() && #[trigger] merges[i] is Pr && merges[i]->Pr_0.status
                != MergeStatus::Merged ==> exists|k: int, j: int|
                0 <= j < linked_prs(merges).len() && linked_prs(merges)[j] == merges[i]->Pr_0
                    && #[trigger] reports_merged(merges, events, k, j),
{
    let count = events.len() as int;
    let run = run_after(merges, events, count);
    let prs = linked_prs(merges);
    lemma_run_after(merges, events, count);
    law_linked_pull_requests_are_all_of_them(merges);
    law_success_means_all_merged(run);
    if prs.len() > 0 {
        assert(prs.contains(prs[0]));
        let i = choose|i: int| 0 <= i < merges.len() && #[trigger] merges[i] == Merge::Pr(prs[0]);
        assert(merges[i] is Pr);
    }
    if exists|i: int| 0 <= i < merges.len() && #[trigger] merges[i] is Pr {
        let i = choose|i: int| 0 <= i < merges.len() && #[trigger] merges[i] is Pr;
        let pr = merges[i]->Pr_0;
        assert(merges[i] == Merge::Pr(pr));
        assert(prs.contains(pr));
    }
    if run.result() is Ok {
        assert forall|j: int| #![trigger prs[j]] 0 <= j < prs.len() implies prs[j].status
            == MergeStatus::Merged || exists|k: int| #[trigger]
            reports_merged(merges, events, k, j) by {
            assert(run.statuses[j] == MergeStatus::Merged);
        }
        assert forall|i: int|
            0 <= i < merges.len() && #[trigger] merges[i] is Pr && merges[i]->Pr_0.status
                != MergeStatus::Merged implies exists|k: int, j: int|
            0 <= j < prs.len() && prs[j] == merges[i]->Pr_0 && #[trigger] reports_merged(
                merges,
                events,
                k,
                j,
            ) by {
            let pr = merges[i]->Pr_0;
            assert(merges[i] == Merge::Pr(pr));
            assert(prs.contains(pr));
            let j = prs.index_of(pr);
            assert(prs[j] == pr);
            assert(run.statuses[j] == MergeStatus::Merged);
            let k = choose|k: int| #[trigger] reports_merged(merges, events, k, j);
            assert(reports_merged(merges, events, k, j));
        }
    }
}

/// What stands in the way of a pull request is told with its number and its URL, and with what its
/// host or the board has said.
pub proof fn law_obstacles_name_the_pull_request(
    pr: PrMerge,
    error: Seq<char>,
    message: String,
    other: Option<Seq<char>>,
)
    ensures
        ({
            let name = "PR #"@ + signed_decimal(pr.number as int) + " ("@ + pr.url@ + ")"@;
            let none = None::<Seq<char>>;
            &&& provider_blocker(pr, error) == "Cannot identify pull request provider for "@ + name
                + ": "@ + error
            &&& refresh_blocker(pr, error) == "Failed to refresh "@ + name
                + " merge status from GitHub: "@ + error
            &&& outcome_blockers(pr, MergeStatus::Closed, MergeOutcome::Refused, none) == seq![
                "Cannot complete autopilot merge: "@ + name + " is "@ + "closed"@
                    + " after refresh."@,
            ]
            &&& outcome_blockers(pr, MergeStatus::Unknown, MergeOutcome::Refused, none) == seq![
                "Cannot complete autopilot merge: "@ + name + " is "@ + "unknown"@
                    + " after refresh."@,
            ]
            &&& outcome_blockers(pr, MergeStatus::Open, MergeOutcome::NotMerged, none) == seq![
                "GitHub accepted the merge command for "@ + name + ", but it is "@ + "open"@
                    + " instead of merged."@,
            ]
            &&& outcome_blockers(pr, MergeStatus::Merged, MergeOutcome::Merged, none).len() == 0
            &&& outcome_blockers(pr, MergeStatus::Merged, MergeOutcome::Merged, Some(error)) == seq![
                name + " merged, but local/remote PR status update failed: "@ + error,
            ]
            &&& outcome_blockers(
                pr,
                MergeStatus::Open,
                MergeOutcome::Unmerged(message),
                other,
            ).len() == 1
            &&& contains_text(
                outcome_blockers(pr, MergeStatus::Open, MergeOutcome::Unmerged(message), other)[0],
                name + " merge is blocked by GitHub requirements: "@ + message@,
            )
        }),
{
    let none = None::<Seq<char>>;
    let name = named(pr);
    assert(outcome_blockers(pr, MergeStatus::Closed, MergeOutcome::Refused, none) =~= seq![
        "Cannot complete autopilot merge: "@ + name + " is "@ + "closed"@ + " after refresh."@,
    ]);
    assert(outcome_blockers(pr, MergeStatus::Unknown, MergeOutcome::Refused, none) =~= seq![
        "Cannot complete autopilot merge: "@ + name + " is "@ + "unknown"@ + " after refresh."@,
    ]);
    assert(outcome_blockers(pr, MergeStatus::Open, MergeOutcome::NotMerged, none) =~= seq![
        "GitHub accepted the merge command for "@ + name + ", but it is "@ + "open"@
            + " instead of merged."@,
    ]);
    let text = outcome_blockers(pr, MergeStatus::Open, MergeOutcome::Unmerged(message), other)[0];
    let front = name + " merge is blocked by GitHub requirements: "@ + message@;
    assert(text.subrange(0, front.len() as int) =~= front);
    assert(occurs_at(text, front, 0));
}

/// A failed run tells all that stood in its way, in the order in which it was found; a run without
/// pull requests says that there are none.
pub proof fn law_failed_runs_tell_everything(run: MergeRunView)
    ensures
        run.blockers.len() > 0 ==> run.result() == Err::<(), Seq<char>>(
            joined(run.blockers, " "@),
        ),
        run.blockers.len() == 0 && run.statuses.len() == 0 ==> run.result() == Err::<
            (),
            Seq<char>,
        >(
            "No linked pull requests were found for this workspace; create or link a PR and rerun app advance."@,
        ),
{
}

/// An open pull request is merged before it is recorded, one that is merged already is only
/// recorded, and any other is recorded and stands in the way; each event leads on to the next
/// pull request only once its report has been dealt with.
pub proof fn law_reports_lead_to_the_next_work(run: MergeRunView, detail: PullRequestDetail)
    requires
        run.phase is Refreshing,
    ensures
        ({
            let next = run.after(MergeEvent::Refreshed(detail));
            &&& next.statuses == run.statuses && next.blockers == run.blockers
            &&& detail.status == MergeStatus::Open <==> next.phase is Merging
            &&& detail.status == MergeStatus::Merged <==> (next.phase matches
                MergePhase::Recording(_, outcome) && outcome is Merged)
            &&& detail.status == MergeStatus::Closed || detail.status == MergeStatus::Unknown
                <==> (next.phase matches MergePhase::Recording(_, outcome) && outcome is Refused)
            &&& next.phase matches MergePhase::Recording(recorded, _) ==> recorded == detail
        }),
{
}

} // verus!
