//! Which cards of a batch may start: those without open dependencies, as many as the cap lets.
use vstd::prelude::*;

use super::types::AutopilotNextAction;
use crate::ids::Uuid;
use crate::text::owned;

verus! {

// ---------------------------------------------------------------------------
// Types
// ---------------------------------------------------------------------------

#[derive(Debug, Clone, Copy, PartialEq, Eq, Structural)]
pub enum BatchCardQueueState {
    Queued,
    BlockedByDependencies,
    Runnable,
    Active,
    Done,
}

#[derive(Debug, Clone)]
pub struct BatchAdvanceCard {
    pub issue_id: Uuid,
    pub workspace_id: Option<Uuid>,
    pub state: BatchCardQueueState,
    pub blockers: Vec<Uuid>,
    pub action: Option<AutopilotNextAction>,
    pub reason: String,
}

/// What a card says.
pub struct BatchAdvanceCardView {
    pub issue_id: Uuid,
    pub workspace_id: Option<Uuid>,
    pub state: BatchCardQueueState,
    pub blockers: Seq<Uuid>,
    pub action: Option<AutopilotNextAction>,
    pub reason: Seq<char>,
}

impl View for BatchAdvanceCard {
    type V = BatchAdvanceCardView;

    open spec fn view(&self) -> BatchAdvanceCardView {
        BatchAdvanceCardView {
            issue_id: self.issue_id,
            workspace_id: self.workspace_id,
            state: self.state,
            blockers: self.blockers@,
            action: self.action,
            reason: self.reason@,
        }
    }
}

#[derive(Debug, Clone)]
pub struct BatchAdvancePlan {
    pub max_active: usize,
    pub active_count: usize,
    pub cards: Vec<BatchAdvanceCard>,
}

/// What the cards of a plan say.
pub open spec fn card_views(cards: Seq<BatchAdvanceCard>) -> Seq<BatchAdvanceCardView> {
    cards.map_values(|card: BatchAdvanceCard| card@)
}

#[derive(Debug, Clone)]
pub struct BatchCandidate {
    pub issue_id: Uuid,
    pub workspace_id: Option<Uuid>,
    pub done: bool,
    pub active: bool,
    pub next_action: Option<AutopilotNextAction>,
    pub blockers: Vec<Uuid>,
}

#[derive(Debug, Clone, Copy, PartialEq, Eq, Structural)]
pub struct BatchAdvanceRelationship {
    pub issue_id: Uuid,
    pub blocking_issue_id: Uuid,
}

#[derive(Debug, Clone)]
pub struct BatchAdvancePlanCandidate {
    pub issue_id: Uuid,
    pub workspace_id: Option<Uuid>,
    pub done: bool,
    pub active: bool,
    pub next_action: Option<AutopilotNextAction>,
    pub blockers: Vec<Uuid>,
}

#[derive(Debug, Clone)]
pub struct BatchAdvancePlanRequest {
    pub max_active: usize,
    pub cards: Vec<BatchAdvancePlanCandidate>,
    pub relationships: Vec<BatchAdvanceRelationship>,
}

/// How many cards of a batch may be active where a request does not say.
pub fn default_batch_max_active() -> (r: usize)
    ensures
        r == 3,
{
    3
}

// ---------------------------------------------------------------------------
// The plan
// ---------------------------------------------------------------------------

/// The issues that are done.
pub open spec fn done_ids(candidates: Seq<BatchCandidate>) -> Seq<Uuid>
    decreases candidates.len(),
{
    if candidates.len() == 0 {
        Seq::empty()
    } else {
        let front = done_ids(candidates.drop_last());
        if candidates.last().done {
            front.push(candidates.last().issue_id)
        } else {
            front
        }
    }
}

/// How many candidates are active.
pub open spec fn active_among(candidates: Seq<BatchCandidate>) -> nat
    decreases candidates.len(),
{
    if candidates.len() == 0 {
        0
    } else {
        active_among(candidates.drop_last()) + (if candidates.last().active {
            1nat
        } else {
            0nat
        })
    }
}

/// The class of issues that are not among `done`.
pub open spec fn not_among(done: Seq<Uuid>) -> spec_fn(Uuid) -> bool {
    |id: Uuid| !done.contains(id)
}

/// The class of relationships that say that an issue that is not done blocks `issue_id`.
pub open spec fn blocking(issue_id: Uuid, done: Seq<Uuid>) -> spec_fn(
    BatchAdvanceRelationship,
) -> bool {
    |relationship: BatchAdvanceRelationship|
        relationship.issue_id == issue_id && !done.contains(relationship.blocking_issue_id)
}

/// The issues that relationships say block `issue_id` and that are not done.
pub open spec fn dependency_blockers(
    issue_id: Uuid,
    done: Seq<Uuid>,
    relationships: Seq<BatchAdvanceRelationship>,
) -> Seq<Uuid> {
    relationships.filter(blocking(issue_id, done)).map_values(
        |relationship: BatchAdvanceRelationship| relationship.blocking_issue_id,
    )
}

/// `ids` without those that stand further in front already.
pub open spec fn without_repeats(ids: Seq<Uuid>) -> Seq<Uuid>
    decreases ids.len(),
{
    if ids.len() == 0 {
        ids
    } else {
        let front = without_repeats(ids.drop_last());
        if front.contains(ids.last()) {
            front
        } else {
            front.push(ids.last())
        }
    }
}

/// What blocks a candidate: the issues that it names and those that relationships name, as far as
/// they are not done, each once.
pub open spec fn blockers_of(
    candidate: BatchCandidate,
    done: Seq<Uuid>,
    relationships: Seq<BatchAdvanceRelationship>,
) -> Seq<Uuid> {
    without_repeats(
        candidate.blockers@.filter(not_among(done)) + dependency_blockers(
            candidate.issue_id,
            done,
            relationships,
        ),
    )
}

/// The card of a candidate with these blockers, where `active` cards are active or about to be.
pub open spec fn card_of(
    candidate: BatchCandidate,
    blockers: Seq<Uuid>,
    active: nat,
    max_active: nat,
) -> BatchAdvanceCardView {
    let (state, action, reason) = if candidate.done {
        (BatchCardQueueState::Done, None, "Card is already done."@)
    } else if candidate.active {
        (
            BatchCardQueueState::Active,
            candidate.next_action,
            "Card already has active implementation, review, fix, or merge work."@,
        )
    } else if blockers.len() > 0 {
        (
            BatchCardQueueState::BlockedByDependencies,
            None,
            "Card is staged, but dependency blockers must finish before it starts."@,
        )
    } else if active >= max_active {
        (
            BatchCardQueueState::Queued,
            None,
            "Card is staged and waiting for the active cap."@,
        )
    } else {
        (
            BatchCardQueueState::Runnable,
            candidate.next_action,
            "Card is staged and dependency-unblocked under the active cap."@,
        )
    };
    BatchAdvanceCardView {
        issue_id: candidate.issue_id,
        workspace_id: candidate.workspace_id,
        state,
        blockers,
        action,
        reason,
    }
}

/// How many of the cards may start.
pub open spec fn runnable_among(cards: Seq<BatchAdvanceCardView>) -> nat
    decreases cards.len(),
{
    if cards.len() == 0 {
        0
    } else {
        runnable_among(cards.drop_last()) + (if cards.last().state
            == BatchCardQueueState::Runnable {
            1nat
        } else {
            0nat
        })
    }
}

/// The cards of `candidates`, in their order: each counts as active for those after it where it
/// may start. `done` and `active` speak of the whole batch.
pub open spec fn cards_of(
    candidates: Seq<BatchCandidate>,
    done: Seq<Uuid>,
    relationships: Seq<BatchAdvanceRelationship>,
    active: nat,
    max_active: nat,
) -> Seq<BatchAdvanceCardView>
    decreases candidates.len(),
{
    if candidates.len() == 0 {
        Seq::empty()
    } else {
        let front = cards_of(candidates.drop_last(), done, relationships, active, max_active);
        let candidate = candidates.last();
        front.push(
            card_of(
                candidate,
                blockers_of(candidate, done, relationships),
                active + runnable_among(front),
                max_active,
            ),
        )
    }
}

/// The cap that is kept: at least one card may be active.
pub open spec fn cap_of(max_active: usize) -> usize {
    if max_active >= 1 {
        max_active
    } else {
        1
    }
}

/// The cards of a batch.
pub open spec fn planned_cards(
    candidates: Seq<BatchCandidate>,
    relationships: Seq<BatchAdvanceRelationship>,
    max_active: usize,
) -> Seq<BatchAdvanceCardView> {
    cards_of(
        candidates,
        done_ids(candidates),
        relationships,
        active_among(candidates),
        cap_of(max_active) as nat,
    )
}

/// Whether `id` is among `ids`.
fn contains_id(ids: &[Uuid], id: Uuid) -> (r: bool)
    ensures
        r == ids@.contains(id),
{
    for i in 0..ids.len()
        invariant
            forall|k: int| 0 <= k < i ==> ids@[k] != id,
    {
        if ids[i] == id {
            return true;
        }
    }
    false
}

/// Appends `id` unless it is there already.
fn push_once(ids: &mut Vec<Uuid>, id: Uuid, Ghost(all): Ghost<Seq<Uuid>>)
    requires
        old(ids)@ == without_repeats(all),
    ensures
        final(ids)@ == without_repeats(all.push(id)),
{
    assert(all.push(id).drop_last() =~= all);
    if !contains_id(ids.as_slice(), id) {
        ids.push(id);
    }
}

/// The issues that relationships say block `issue_id` and that are not done.
pub fn dependency_blockers_for(
    issue_id: Uuid,
    done_issue_ids: &[Uuid],
    relationships: &[BatchAdvanceRelationship],
) -> (r: Vec<Uuid>)
    ensures
        r@ == dependency_blockers(issue_id, done_issue_ids@, relationships@),
{
    let mut r: Vec<Uuid> = Vec::new();
    let ghost done = done_issue_ids@;
    proof {
        reveal(Seq::filter);
        assert(dependency_blockers(issue_id, done, relationships@.take(0)) =~= r@);
    }
    for i in 0..relationships.len()
        invariant
            done == done_issue_ids@,
            r@ == dependency_blockers(issue_id, done, relationships@.take(i as int)),
    {
        let relationship = relationships[i];
        proof {
            reveal(Seq::filter);
            let front = relationships@.take(i as int);
            assert(relationships@.take(i + 1).drop_last() =~= front);
            assert(dependency_blockers(issue_id, done, relationships@.take(i + 1)) =~= if blocking(
                issue_id,
                done,
            )(relationship) {
                dependency_blockers(issue_id, done, front).push(relationship.blocking_issue_id)
            } else {
                dependency_blockers(issue_id, done, front)
            });
        }
        if relationship.issue_id == issue_id && !contains_id(
            done_issue_ids,
            relationship.blocking_issue_id,
        ) {
            r.push(relationship.blocking_issue_id);
        }
    }
    assert(relationships@.take(relationships@.len() as int) =~= relationships@);
    r
}

/// What blocks a candidate.
fn candidate_blockers(
    candidate: &BatchCandidate,
    done: &[Uuid],
    relationships: &[BatchAdvanceRelationship],
) -> (r: Vec<Uuid>)
    ensures
        r@ == blockers_of(*candidate, done@, relationships@),
{
    let mut r: Vec<Uuid> = Vec::new();
    let ghost own = candidate.blockers@;
    let ghost class = not_among(done@);
    proof {
        reveal(Seq::filter);
        assert(own.take(0).filter(class) =~= Seq::empty());
    }
    for i in 0..candidate.blockers.len()
        invariant
            own == candidate.blockers@,
            class == not_among(done@),
            r@ == without_repeats(own.take(i as int).filter(class)),
    {
        let id = candidate.blockers[i];
        proof {
            reveal(Seq::filter);
            assert(own.take(i + 1).drop_last() =~= own.take(i as int));
        }
        if !contains_id(done, id) {
            push_once(&mut r, id, Ghost(own.take(i as int).filter(class)));
        }
    }
    assert(own.take(own.len() as int) =~= own);
    let more = dependency_blockers_for(candidate.issue_id, done, relationships);
    let ghost front = own.filter(class);
    assert(front + more@.take(0) =~= front);
    for i in 0..more.len()
        invariant
            r@ == without_repeats(front + more@.take(i as int)),
    {
        push_once(&mut r, more[i], Ghost(front + more@.take(i as int)));
        assert((front + more@.take(i as int)).push(more@[i as int]) =~= front + more@.take(i + 1));
    }
    assert(more@.take(more@.len() as int) =~= more@);
    r
}

/// The card of a candidate with these blockers, where `active` cards are active or about to be.
fn candidate_card(
    candidate: &BatchCandidate,
    blockers: Vec<Uuid>,
    active: usize,
    max_active: usize,
) -> (r: BatchAdvanceCard)
    ensures
        r@ == card_of(*candidate, blockers@, active as nat, max_active as nat),
{
    let (state, action, reason) = if candidate.done {
        (BatchCardQueueState::Done, None, "Card is already done.")
    } else if candidate.active {
        (
            BatchCardQueueState::Active,
            candidate.next_action,
            "Card already has active implementation, review, fix, or merge work.",
        )
    } else if blockers.len() > 0 {
        (
            BatchCardQueueState::BlockedByDependencies,
            None,
            "Card is staged, but dependency blockers must finish before it starts.",
        )
    } else if active >= max_active {
        (
            BatchCardQueueState::Queued,
            None,
            "Card is staged and waiting for the active cap.",
        )
    } else {
        (
            BatchCardQueueState::Runnable,
            candidate.next_action,
            "Card is staged and dependency-unblocked under the active cap.",
        )
    };
    BatchAdvanceCard {
        issue_id: candidate.issue_id,
        workspace_id: candidate.workspace_id,
        state,
        blockers,
        action,
        reason: owned(reason),
    }
}

/// The plan of a batch: one card for each candidate, in their order.
pub fn plan_batch_advance(
    candidates: &[BatchCandidate],
    relationships: &[BatchAdvanceRelationship],
    max_active: usize,
) -> (r: BatchAdvancePlan)
    ensures
        r.max_active == cap_of(max_active),
        r.active_count == active_among(candidates@),
        card_views(r.cards@) == planned_cards(candidates@, relationships@, max_active),
{
    let mut done: Vec<Uuid> = Vec::new();
    let mut active: usize = 0;
    assert(candidates@.take(0) =~= Seq::empty());
    for i in 0..candidates.len()
        invariant
            done@ == done_ids(candidates@.take(i as int)),
            active == active_among(candidates@.take(i as int)),
            active <= i,
    {
        assert(candidates@.take(i + 1).drop_last() =~= candidates@.take(i as int));
        if candidates[i].done {
            done.push(candidates[i].issue_id);
        }
        if candidates[i].active {
            active += 1;
        }
    }
    assert(candidates@.take(candidates@.len() as int) =~= candidates@);
    let cap: usize = if max_active >= 1 {
        max_active
    } else {
        1
    };
    let mut cards: Vec<BatchAdvanceCard> = Vec::new();
    let mut taken: usize = active;
    assert(card_views(cards@) =~= Seq::empty());
    for i in 0..candidates.len()
        invariant
            done@ == done_ids(candidates@),
            card_views(cards@) == cards_of(
                candidates@.take(i as int),
                done@,
                relationships@,
                active as nat,
                cap as nat,
            ),
            taken == active + runnable_among(card_views(cards@)),
    {
        let candidate = &candidates[i];
        assert(candidates@.take(i + 1).drop_last() =~= candidates@.take(i as int));
        let blockers = candidate_blockers(candidate, done.as_slice(), relationships);
        let card = candidate_card(candidate, blockers, taken, cap);
        let ghost before = cards@;
        assert(card_views(before.push(card)) =~= card_views(before).push(card@));
        assert(card_views(before).push(card@).drop_last() =~= card_views(before));
        if card.state == BatchCardQueueState::Runnable {
            taken += 1;
        }
        cards.push(card);
    }
    assert(candidates@.take(candidates@.len() as int) =~= candidates@);
    BatchAdvancePlan { max_active: cap, active_count: active, cards }
}

/// `candidate` says what its card in a request says.
pub open spec fn candidate_of(card: BatchAdvancePlanCandidate, candidate: BatchCandidate) -> bool {
    &&& candidate.issue_id == card.issue_id
    &&& candidate.workspace_id == card.workspace_id
    &&& candidate.done == card.done
    &&& candidate.active == card.active
    &&& candidate.next_action == card.next_action
    &&& candidate.blockers == card.blockers
}

/// The candidates of a request, in its order.
pub fn batch_candidates(cards: Vec<BatchAdvancePlanCandidate>) -> (r: Vec<BatchCandidate>)
    ensures
        r@.len() == cards@.len(),
        forall|i: int| 0 <= i < cards@.len() ==> candidate_of(cards@[i], #[trigger] r@[i]),
{
    let mut r: Vec<BatchCandidate> = Vec::new();
    for card in it: cards.into_iter()
        invariant
            it.seq() == cards@,
            r@.len() == it.index(),
            forall|i: int| 0 <= i < r@.len() ==> candidate_of(cards@[i], #[trigger] r@[i]),
    {
        r.push(
            BatchCandidate {
                issue_id: card.issue_id,
                workspace_id: card.workspace_id,
                done: card.done,
                active: card.active,
                next_action: card.next_action,
                blockers: card.blockers,
            },
        );
    }
    r
}

// ---------------------------------------------------------------------------
// Laws
// ---------------------------------------------------------------------------

/// What is left without repeats is the same, and stands once.
proof fn lemma_without_repeats(ids: Seq<Uuid>)
    ensures
        without_repeats(ids).no_duplicates(),
        forall|id: Uuid| #[trigger] without_repeats(ids).contains(id) <==> ids.contains(id),
    decreases ids.len(),
{
    if ids.len() > 0 {
        let front = ids.drop_last();
        let last = ids.last();
        lemma_without_repeats(front);
        let kept = without_repeats(front);
        let all = without_repeats(ids);
        assert forall|id: Uuid| #[trigger] all.contains(id) <==> ids.contains(id) by {
            if ids.contains(id) && id != last {
                let k = ids.index_of(id);
                assert(front[k] == id);
                assert(front.contains(id));
                assert(kept.contains(id));
                let j = kept.index_of(id);
                assert(all[j] == id);
            }
            if id == last {
                assert(ids[ids.len() - 1] == last);
                if !kept.contains(last) {
                    assert(all[all.len() - 1] == last);
                }
            }
            if all.contains(id) && id != last {
                let j = all.index_of(id);
                assert(kept[j] == id);
                assert(kept.contains(id));
                let k = front.index_of(id);
                assert(ids[k] == id);
            }
        }
    }
}

/// What is kept is what is there and of the class.
proof fn lemma_filter_contains<T>(items: Seq<T>, class: spec_fn(T) -> bool, item: T)
    ensures
        items.filter(class).contains(item) <==> items.contains(item) && class(item),
    decreases items.len(),
{
    reveal(Seq::filter);
    if items.len() > 0 {
        let front = items.drop_last();
        let last = items.last();
        let kept = front.filter(class);
        let all = items.filter(class);
        lemma_filter_contains(front, class, item);
        if items.contains(item) && class(item) {
            let k = items.index_of(item);
            if k < front.len() {
                assert(front[k] == item);
                assert(kept.contains(item));
                let j = kept.index_of(item);
                assert(all[j] == item);
            } else {
                assert(all[all.len() - 1] == item);
            }
        }
        if all.contains(item) {
            let j = all.index_of(item);
            if j < kept.len() {
                assert(kept[j] == item);
                let k = front.index_of(item);
                assert(items[k] == item);
            } else {
                assert(items[items.len() - 1] == item);
            }
        }
    }
}

/// The relationships that are kept are those that name the issue and an issue that is not done.
proof fn lemma_dependency_blockers(
    issue_id: Uuid,
    done: Seq<Uuid>,
    relationships: Seq<BatchAdvanceRelationship>,
    id: Uuid,
)
    ensures
        dependency_blockers(issue_id, done, relationships).contains(id) <==> !done.contains(id)
            && relationships.contains(
            BatchAdvanceRelationship { issue_id, blocking_issue_id: id },
        ),
{
    let class = blocking(issue_id, done);
    let kept = relationships.filter(class);
    let ids = dependency_blockers(issue_id, done, relationships);
    let wanted = BatchAdvanceRelationship { issue_id, blocking_issue_id: id };
    lemma_filter_contains(relationships, class, wanted);
    if ids.contains(id) {
        let k = ids.index_of(id);
        assert(kept.contains(kept[k]));
        lemma_filter_contains(relationships, class, kept[k]);
        assert(kept[k] == wanted);
    }
    if kept.contains(wanted) {
        let k = kept.index_of(wanted);
        assert(ids[k] == id);
    }
}

/// The blockers of a candidate are the issues that it names or that a relationship names for it,
/// without those that are done; each stands once.
pub proof fn law_blockers_are_open_dependencies(
    candidate: BatchCandidate,
    done: Seq<Uuid>,
    relationships: Seq<BatchAdvanceRelationship>,
    id: Uuid,
)
    ensures
        blockers_of(candidate, done, relationships).no_duplicates(),
        blockers_of(candidate, done, relationships).contains(id) <==> !done.contains(id) && (
        candidate.blockers@.contains(id) || relationships.contains(
            BatchAdvanceRelationship {
                issue_id: candidate.issue_id,
                blocking_issue_id: id,
            },
        )),
{
    let own = candidate.blockers@.filter(not_among(done));
    let more = dependency_blockers(candidate.issue_id, done, relationships);
    lemma_without_repeats(own + more);
    lemma_filter_contains(candidate.blockers@, not_among(done), id);
    lemma_dependency_blockers(candidate.issue_id, done, relationships, id);
    assert((own + more).contains(id) <==> own.contains(id) || more.contains(id)) by {
        if own.contains(id) {
            assert((own + more)[own.index_of(id)] == id);
        }
        if more.contains(id) {
            assert((own + more)[own.len() + more.index_of(id)] == id);
        }
        if (own + more).contains(id) {
            let k = (own + more).index_of(id);
            if k < own.len() {
                assert(own[k] == id);
            } else {
                assert(more[k - own.len()] == id);
            }
        }
    }
}

/// The cards of the candidates in front do not depend on those after them.
proof fn lemma_cards(
    candidates: Seq<BatchCandidate>,
    done: Seq<Uuid>,
    relationships: Seq<BatchAdvanceRelationship>,
    active: nat,
    max_active: nat,
    i: int,
)
    requires
        0 <= i < candidates.len(),
    ensures
        ({
            let cards = cards_of(candidates, done, relationships, active, max_active);
            &&& cards.len() == candidates.len()
            &&& cards[i] == card_of(
                candidates[i],
                blockers_of(candidates[i], done, relationships),
                active + runnable_among(cards.take(i)),
                max_active,
            )
        }),
    decreases candidates.len(),
{
    let cards = cards_of(candidates, done, relationships, active, max_active);
    let front = cards_of(candidates.drop_last(), done, relationships, active, max_active);
    if candidates.len() > 1 {
        lemma_cards(
            candidates.drop_last(),
            done,
            relationships,
            active,
            max_active,
            if i < candidates.len() - 1 {
                i
            } else {
                0
            },
        );
    }
    assert(cards.take(candidates.len() - 1) =~= front);
    if i < candidates.len() - 1 {
        assert(cards.take(i) =~= front.take(i));
    }
}

/// Every candidate gets one card, in the order of the candidates, with its own identifiers.
pub proof fn law_one_card_for_each_candidate(
    candidates: Seq<BatchCandidate>,
    relationships: Seq<BatchAdvanceRelationship>,
    max_active: usize,
)
    ensures
        planned_cards(candidates, relationships, max_active).len() == candidates.len(),
        forall|i: int|
            0 <= i < candidates.len() ==> {
                let card = #[trigger] planned_cards(candidates, relationships, max_active)[i];
                card.issue_id == candidates[i].issue_id && card.workspace_id
                    == candidates[i].workspace_id
            },
{
    let done = done_ids(candidates);
    let active = active_among(candidates);
    let cap = cap_of(max_active) as nat;
    if candidates.len() > 0 {
        lemma_cards(candidates, done, relationships, active, cap, 0);
    }
    assert forall|i: int| 0 <= i < candidates.len() implies {
        let card = #[trigger] planned_cards(candidates, relationships, max_active)[i];
        card.issue_id == candidates[i].issue_id && card.workspace_id == candidates[i].workspace_id
    } by {
        lemma_cards(candidates, done, relationships, active, cap, i);
    }
}

/// A card may start exactly where it is neither done nor active, nothing blocks it, and the cap
/// has room behind the active cards and those in front that may start.
pub proof fn law_runnable_cards_are_unblocked(
    candidates: Seq<BatchCandidate>,
    relationships: Seq<BatchAdvanceRelationship>,
    max_active: usize,
    i: int,
)
    requires
        0 <= i < candidates.len(),
    ensures
        ({
            let cards = planned_cards(candidates, relationships, max_active);
            cards[i].state == BatchCardQueueState::Runnable <==> {
                &&& !candidates[i].done
                &&& !candidates[i].active
                &&& blockers_of(candidates[i], done_ids(candidates), relationships).len() == 0
                &&& active_among(candidates) + runnable_among(cards.take(i)) < cap_of(max_active)
            }
        }),
{
    lemma_cards(
        candidates,
        done_ids(candidates),
        relationships,
        active_among(candidates),
        cap_of(max_active) as nat,
        i,
    );
}

/// A card whose every blocker is done is not held back by dependencies.
pub proof fn law_done_blockers_hold_nothing_back(
    candidates: Seq<BatchCandidate>,
    relationships: Seq<BatchAdvanceRelationship>,
    max_active: usize,
    i: int,
)
    requires
        0 <= i < candidates.len(),
        forall|id: Uuid| #[trigger]
            candidates[i].blockers@.contains(id) ==> done_ids(candidates).contains(id),
        forall|id: Uuid|
            relationships.contains(
                BatchAdvanceRelationship {
                    issue_id: candidates[i].issue_id,
                    blocking_issue_id: id,
                },
            ) ==> #[trigger] done_ids(candidates).contains(id),
    ensures
        planned_cards(candidates, relationships, max_active)[i].state
            != BatchCardQueueState::BlockedByDependencies,
        planned_cards(candidates, relationships, max_active)[i].blockers.len() == 0,
{
    let done = done_ids(candidates);
    let blockers = blockers_of(candidates[i], done, relationships);
    lemma_cards(
        candidates,
        done,
        relationships,
        active_among(candidates),
        cap_of(max_active) as nat,
        i,
    );
    if blockers.len() > 0 {
        let id = blockers[0];
        assert(blockers.contains(id));
        law_blockers_are_open_dependencies(candidates[i], done, relationships, id);
        assert(done.contains(id));
    }
}

/// The cap is kept: with the cards that may start, no more are active than the cap lets, unless
/// more were active before.
pub proof fn law_cap_is_kept(
    candidates: Seq<BatchCandidate>,
    relationships: Seq<BatchAdvanceRelationship>,
    max_active: usize,
)
    ensures
        ({
            let total = active_among(candidates) + runnable_among(
                planned_cards(candidates, relationships, max_active),
            );
            total <= cap_of(max_active) || total == active_among(candidates)
        }),
{
    lemma_cap(
        candidates,
        done_ids(candidates),
        relationships,
        active_among(candidates),
        cap_of(max_active) as nat,
    );
}

/// The cap is kept for the candidates in front.
proof fn lemma_cap(
    candidates: Seq<BatchCandidate>,
    done: Seq<Uuid>,
    relationships: Seq<BatchAdvanceRelationship>,
    active: nat,
    max_active: nat,
)
    ensures
        ({
            let runnable = runnable_among(
                cards_of(candidates, done, relationships, active, max_active),
            );
            active + runnable <= max_active || runnable == 0
        }),
    decreases candidates.len(),
{
    if candidates.len() > 0 {
        lemma_cap(candidates.drop_last(), done, relationships, active, max_active);
        let cards = cards_of(candidates, done, relationships, active, max_active);
        let front = cards_of(candidates.drop_last(), done, relationships, active, max_active);
        assert(cards.drop_last() =~= front);
    }
}

/// Which issues are done, how many candidates are active and how many cards may start.
proof fn lemma_counts(candidates: Seq<BatchCandidate>, id: Uuid)
    ensures
        done_ids(candidates).contains(id) <==> exists|j: int|
            0 <= j < candidates.len() && (#[trigger] candidates[j]).done && candidates[j].issue_id
                == id,
        active_among(candidates) == candidates.filter(
            |candidate: BatchCandidate| candidate.active,
        ).len(),
    decreases candidates.len(),
{
    reveal(Seq::filter);
    if candidates.len() > 0 {
        let less = candidates.drop_last();
        let last = candidates.len() - 1;
        lemma_counts(less, id);
        let front = done_ids(less);
        let all = done_ids(candidates);
        assert(forall|j: int| 0 <= j < last ==> #[trigger] less[j] == candidates[j]);
        if all.contains(id) {
            let k = all.index_of(id);
            if k < front.len() {
                assert(front[k] == id);
                assert(front.contains(id));
                let j = choose|j: int|
                    0 <= j < less.len() && (#[trigger] less[j]).done && less[j].issue_id == id;
                assert(candidates[j].done && candidates[j].issue_id == id);
            } else {
                assert(candidates[last].done && candidates[last].issue_id == id);
            }
        }
        if exists|j: int|
            0 <= j < candidates.len() && (#[trigger] candidates[j]).done && candidates[j].issue_id
                == id {
            let j = choose|j: int|
                0 <= j < candidates.len() && (#[trigger] candidates[j]).done
                    && candidates[j].issue_id == id;
            if j < last {
                assert(less[j].done && less[j].issue_id == id);
                assert(front.contains(id));
                assert(all[front.index_of(id)] == id);
            } else {
                assert(all[all.len() - 1] == id);
            }
        }
    }
}

/// How many cards may start.
proof fn lemma_runnable(cards: Seq<BatchAdvanceCardView>)
    ensures
        runnable_among(cards) == cards.filter(
            |card: BatchAdvanceCardView| card.state == BatchCardQueueState::Runnable,
        ).len(),
    decreases cards.len(),
{
    reveal(Seq::filter);
    if cards.len() > 0 {
        lemma_runnable(cards.drop_last());
    }
}

/// `id` holds the candidate at position `i` back: it is named by the candidate or by a relationship
/// for it, and no candidate with it is done.
pub open spec fn holds_back(
    candidates: Seq<BatchCandidate>,
    relationships: Seq<BatchAdvanceRelationship>,
    i: int,
    id: Uuid,
) -> bool {
    &&& candidates[i].blockers@.contains(id) || relationships.contains(
        BatchAdvanceRelationship { issue_id: candidates[i].issue_id, blocking_issue_id: id },
    )
    &&& forall|j: int|
        0 <= j < candidates.len() && (#[trigger] candidates[j]).issue_id == id
            ==> !candidates[j].done
}

/// How a card stands, told from the candidates and the cards in front of it: it is done, active,
/// held back by an issue that is not done, or waits for room, which the active candidates and the
/// cards in front that may start take up to the cap of at least one; else it may start. It names
/// what holds it back, and offers an action only where it is active or may start.
pub proof fn law_cards_stand_by_dependencies_and_room(
    candidates: Seq<BatchCandidate>,
    relationships: Seq<BatchAdvanceRelationship>,
    max_active: usize,
    i: int,
    id: Uuid,
)
    requires
        0 <= i < candidates.len(),
    ensures
        ({
            let cards = planned_cards(candidates, relationships, max_active);
            let card = cards[i];
            let candidate = candidates[i];
            let held_back = exists|other: Uuid| #[trigger]
                holds_back(candidates, relationships, i, other);
            let taken = candidates.filter(|candidate: BatchCandidate| candidate.active).len()
                + cards.take(i).filter(
                |card: BatchAdvanceCardView| card.state == BatchCardQueueState::Runnable,
            ).len();
            let room = taken < max_active || (max_active == 0 && taken < 1);
            let waits = !candidate.done && !candidate.active;
            &&& card.state == BatchCardQueueState::Done <==> candidate.done
            &&& card.state == BatchCardQueueState::Active <==> !candidate.done && candidate.active
            &&& card.state == BatchCardQueueState::BlockedByDependencies <==> waits && held_back
            &&& card.state == BatchCardQueueState::Queued <==> waits && !held_back && !room
            &&& card.state == BatchCardQueueState::Runnable <==> waits && !held_back && room
            &&& card.blockers.contains(id) <==> holds_back(candidates, relationships, i, id)
            &&& card.action == if card.state == BatchCardQueueState::Active || card.state
                == BatchCardQueueState::Runnable {
                candidate.next_action
            } else {
                None
            }
            &&& card.issue_id == candidate.issue_id && card.workspace_id == candidate.workspace_id
        }),
{
    let done = done_ids(candidates);
    let cards = planned_cards(candidates, relationships, max_active);
    let blockers = blockers_of(candidates[i], done, relationships);
    lemma_cards(
        candidates,
        done,
        relationships,
        active_among(candidates),
        cap_of(max_active) as nat,
        i,
    );
    lemma_runnable(cards.take(i));
    lemma_counts(candidates, id);
    assert forall|other: Uuid| #[trigger]
        holds_back(candidates, relationships, i, other) <==> blockers.contains(other) by {
        law_blockers_are_open_dependencies(candidates[i], done, relationships, other);
        lemma_counts(candidates, other);
    }
    assert(holds_back(candidates, relationships, i, id) <==> blockers.contains(id));
    if blockers.len() > 0 {
        assert(blockers.contains(blockers[0]));
        assert(holds_back(candidates, relationships, i, blockers[0]));
    }
    if exists|other: Uuid| #[trigger] holds_back(candidates, relationships, i, other) {
        let other = choose|other: Uuid| #[trigger]
            holds_back(candidates, relationships, i, other);
        assert(blockers.contains(other));
    }
}

/// The cap of a plan is the one asked for, and at least one.
pub proof fn law_cap_is_at_least_one(max_active: usize, candidates: Seq<BatchCandidate>)
    ensures
        cap_of(max_active) >= 1,
        max_active >= 1 ==> cap_of(max_active) == max_active,
        active_among(candidates) == candidates.filter(
            |candidate: BatchCandidate| candidate.active,
        ).len(),
{
    lemma_counts(candidates, arbitrary());
}

/// Relationships name what holds an issue back in their order, as often as they name it, without
/// what is done.
pub proof fn law_relationships_name_blockers_in_order(
    issue_id: Uuid,
    done: Seq<Uuid>,
    front: Seq<BatchAdvanceRelationship>,
    last: BatchAdvanceRelationship,
)
    ensures
        dependency_blockers(issue_id, done, Seq::empty()).len() == 0,
        dependency_blockers(issue_id, done, front.push(last)) == if last.issue_id == issue_id
            && !done.contains(last.blocking_issue_id) {
            dependency_blockers(issue_id, done, front).push(last.blocking_issue_id)
        } else {
            dependency_blockers(issue_id, done, front)
        },
{
    reveal(Seq::filter);
    assert(front.push(last).drop_last() =~= front);
    assert(dependency_blockers(issue_id, done, front.push(last)) =~= if last.issue_id == issue_id
        && !done.contains(last.blocking_issue_id) {
        dependency_blockers(issue_id, done, front).push(last.blocking_issue_id)
    } else {
        dependency_blockers(issue_id, done, front)
    });
}

} // verus!
