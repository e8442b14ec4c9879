//! The text that an agent leaves in the log of its process.
use vstd::prelude::*;

use crate::json::Json;
#[allow(unused_imports)]
use crate::json::{
    first_member, json_in_text, lemma_array_view, lemma_first_member, lemma_object_view, JsonView,
};
use crate::text::{is_blank, join, owned, push_decimal, same_text, split_lines};
#[allow(unused_imports)]
use crate::text::{
    char_is_whitespace, decimal, joined, law_lines_of_two_texts, lemma_blank,
    lemma_joined_not_blank, lines, trimmed, views_of,
};

verus! {

// ---------------------------------------------------------------------------
// The text of a document
// ---------------------------------------------------------------------------

/// A text, or the empty one.
pub open spec fn or_empty(text: Option<Seq<char>>) -> Seq<char> {
    match text {
        Some(text) => text,
        None => Seq::empty(),
    }
}

/// The class of texts that are not empty.
pub open spec fn non_empty() -> spec_fn(Seq<char>) -> bool {
    |text: Seq<char>| text.len() > 0
}

/// The class of texts that are not white space throughout.
pub open spec fn non_blank() -> spec_fn(Seq<char>) -> bool {
    |text: Seq<char>| trimmed(text).len() > 0
}

/// The texts of `class` among `parts`, one to a line.
pub open spec fn stacked(
    parts: Seq<Seq<char>>,
    class: spec_fn(Seq<char>) -> bool,
) -> Seq<char> {
    joined(parts.filter(class), "\n"@)
}

/// The text in a document: that of a string; of an array, the texts of its items; of an object,
/// the texts of the members that are read, in the order in which they are read. Empty texts are
/// left out.
pub open spec fn value_text(value: JsonView) -> Seq<char>
    decreases value, 1int,
{
    match value {
        JsonView::Text(text) => text,
        JsonView::Array(items) => stacked(item_texts(items), non_empty()),
        JsonView::Object(_) => stacked(
            seq![
                member_value_text(value, "text"@),
                member_value_text(value, "message"@),
                member_value_text(value, "body"@),
                member_value_text(value, "summary"@),
                member_value_text(value, "decision"@),
                member_value_text(value, "review"@),
                member_value_text(value, "content"@),
            ],
            non_empty(),
        ),
        _ => Seq::empty(),
    }
}

/// The texts in the items of an array.
pub open spec fn item_texts(items: Seq<JsonView>) -> Seq<Seq<char>>
    decreases items, 0int,
{
    if items.len() == 0 {
        Seq::empty()
    } else {
        item_texts(items.drop_last()).push(value_text(items.last()))
    }
}

/// The text in the member of an object with the key `key`.
pub open spec fn member_value_text(value: JsonView, key: Seq<char>) -> Seq<char>
    decreases value, 0int,
{
    match value {
        JsonView::Object(members) => match first_member(members, key) {
            Some(member) => {
                proof {
                    lemma_first_member(members, key);
                    let at = choose|at: int|
                        0 <= at < members.len() && (#[trigger] members[at]).1 == member;
                    assert(decreases_to!(value => members[at].1));
                }
                value_text(member)
            },
            None => Seq::empty(),
        },
        _ => Seq::empty(),
    }
}

/// One more text, kept or left out.
proof fn lemma_filter_push(
    parts: Seq<Seq<char>>,
    class: spec_fn(Seq<char>) -> bool,
    part: Seq<char>,
)
    ensures
        parts.push(part).filter(class) == if class(part) {
            parts.filter(class).push(part)
        } else {
            parts.filter(class)
        },
{
    reveal(Seq::filter);
    assert(parts.push(part).drop_last() =~= parts);
}

/// Appends `text` to `kept` unless it is empty.
fn keep_non_empty(kept: &mut Vec<String>, text: String, Ghost(parts): Ghost<Seq<Seq<char>>>)
    requires
        views_of(old(kept)@) == parts.filter(non_empty()),
    ensures
        views_of(final(kept)@) == parts.push(text@).filter(non_empty()),
{
    proof {
        lemma_filter_push(parts, non_empty(), text@);
    }
    if !text.as_str().is_empty() {
        let ghost before = kept@;
        kept.push(text);
        assert(views_of(kept@) =~= views_of(before).push(text@));
    }
}

/// The text in the member of a document with the key `key`.
fn text_from_member(value: &Json, key: &str) -> (r: String)
    ensures
        r@ == member_value_text(value@, key@),
    decreases value, 0int,
{
    match value.get(key) {
        Some(member) => text_from_value(member),
        None => String::new(),
    }
}

/// The text in a document.
pub fn text_from_value(value: &Json) -> (r: String)
    ensures
        r@ == value_text(value@),
    decreases value, 1int,
{
    match value {
        Json::Text(text) => text.clone(),
        Json::Array(items) => {
            let mut kept: Vec<String> = Vec::new();
            let ghost views = value@->Array_0;
            proof {
                reveal(Seq::filter);
                lemma_array_view(*items);
                assert(views.take(0) =~= Seq::empty());
            }
            for i in 0..items.len()
                invariant
                    *value matches Json::Array(all) && all == items,
                    views.len() == items@.len(),
                    forall|k: int| 0 <= k < items@.len() ==> #[trigger] views[k] == items@[k]@,
                    views_of(kept@) == item_texts(views.take(i as int)).filter(non_empty()),
            {
                assert(decreases_to!(value => items@[i as int]));
                let text = text_from_value(&items[i]);
                keep_non_empty(&mut kept, text, Ghost(item_texts(views.take(i as int))));
                assert(views.take(i + 1).drop_last() =~= views.take(i as int));
            }
            assert(views.take(views.len() as int) =~= views);
            join(&kept, "\n")
        },
        Json::Object(members) => {
            proof {
                lemma_object_view(*members);
                reveal(Seq::filter);
            }
            let mut kept: Vec<String> = Vec::new();
            let text = text_from_member(value, "text");
            let message = text_from_member(value, "message");
            let body = text_from_member(value, "body");
            let summary = text_from_member(value, "summary");
            let decision = text_from_member(value, "decision");
            let review = text_from_member(value, "review");
            let content = text_from_member(value, "content");
            let ghost all = seq![text@, message@, body@, summary@, decision@, review@, content@];
            assert(all.take(0).filter(non_empty()) =~= views_of(kept@));
            keep_non_empty(&mut kept, text, Ghost(all.take(0)));
            assert(all.take(0).push(text@) =~= all.take(1));
            keep_non_empty(&mut kept, message, Ghost(all.take(1)));
            assert(all.take(1).push(message@) =~= all.take(2));
            keep_non_empty(&mut kept, body, Ghost(all.take(2)));
            assert(all.take(2).push(body@) =~= all.take(3));
            keep_non_empty(&mut kept, summary, Ghost(all.take(3)));
            assert(all.take(3).push(summary@) =~= all.take(4));
            keep_non_empty(&mut kept, decision, Ghost(all.take(4)));
            assert(all.take(4).push(decision@) =~= all.take(5));
            keep_non_empty(&mut kept, review, Ghost(all.take(5)));
            assert(all.take(5).push(review@) =~= all.take(6));
            keep_non_empty(&mut kept, content, Ghost(all.take(6)));
            assert(all.take(6).push(content@) =~= all);
            join(&kept, "\n")
        },
        _ => String::new(),
    }
}

// ---------------------------------------------------------------------------
// Tables
// ---------------------------------------------------------------------------

/// A table: keys in the order of their first appearance, each with its value.
pub type Table = Seq<(Seq<char>, Seq<char>)>;

/// The place of `key` in `table`, or the length of the table.
pub open spec fn place_of(table: Table, key: Seq<char>) -> int
    decreases table.len(),
{
    if table.len() == 0 || table[0].0 == key {
        0
    } else {
        1 + place_of(table.drop_first(), key)
    }
}

/// The value of `key` in `table`.
pub open spec fn found(table: Table, key: Seq<char>) -> Option<Seq<char>> {
    if place_of(table, key) < table.len() {
        Some(table[place_of(table, key)].1)
    } else {
        None
    }
}

/// `table` with `value` as the value of `key`.
pub open spec fn stored(table: Table, key: Seq<char>, value: Seq<char>) -> Table {
    if place_of(table, key) < table.len() {
        table.update(place_of(table, key), (key, value))
    } else {
        table.push((key, value))
    }
}

/// The place of a key is the first entry that has it.
proof fn lemma_place(table: Table, key: Seq<char>)
    ensures
        0 <= place_of(table, key) <= table.len(),
        forall|i: int| 0 <= i < place_of(table, key) ==> (#[trigger] table[i]).0 != key,
        place_of(table, key) < table.len() ==> table[place_of(table, key)].0 == key,
    decreases table.len(),
{
    if table.len() > 0 && table[0].0 != key {
        let rest = table.drop_first();
        lemma_place(rest, key);
        assert forall|i: int| 0 <= i < place_of(table, key) implies (#[trigger] table[i]).0
            != key by {
            if i > 0 {
                assert(table[i] == rest[i - 1]);
            }
        }
    }
}

/// The first entry that has a key is its place.
proof fn lemma_place_is(table: Table, key: Seq<char>, at: int)
    requires
        0 <= at <= table.len(),
        forall|i: int| 0 <= i < at ==> (#[trigger] table[i]).0 != key,
        at < table.len() ==> table[at].0 == key,
    ensures
        place_of(table, key) == at,
{
    lemma_place(table, key);
    if place_of(table, key) < at {
        assert(table[place_of(table, key)].0 != key);
    }
}

/// What is stored is found, and nothing else changes.
pub proof fn law_stored_is_found(table: Table, key: Seq<char>, value: Seq<char>, other: Seq<char>)
    ensures
        found(stored(table, key, value), key) == Some(value),
        other != key ==> found(stored(table, key, value), other) == found(table, other),
{
    let after = stored(table, key, value);
    lemma_place(table, key);
    lemma_place_is(after, key, place_of(table, key));
    lemma_place(table, other);
    if other != key {
        let at = place_of(table, other);
        if at < table.len() {
            lemma_place_is(after, other, at);
        } else {
            lemma_place_is(after, other, after.len() as int);
        }
    }
}

/// The entries of a table.
pub open spec fn entries_of(entries: Seq<(String, String)>) -> Table {
    entries.map_values(|entry: (String, String)| (entry.0@, entry.1@))
}

/// The place of `key` among `entries`, or their number.
fn find_entry(entries: &Vec<(String, String)>, key: &str) -> (r: usize)
    ensures
        r == place_of(entries_of(entries@), key@),
        r <= entries@.len(),
{
    let ghost table = entries_of(entries@);
    let mut at: usize = 0;
    while at < entries.len()
        invariant
            at <= entries@.len(),
            table == entries_of(entries@),
            forall|i: int| 0 <= i < at ==> (#[trigger] table[i]).0 != key@,
        ensures
            at <= entries@.len(),
            forall|i: int| 0 <= i < at ==> (#[trigger] table[i]).0 != key@,
            at < entries@.len() ==> table[at as int].0 == key@,
        decreases entries@.len() - at,
    {
        assert(table[at as int].0 == entries@[at as int].0@);
        if same_text(entries[at].0.as_str(), key) {
            break ;
        }
        at += 1;
    }
    proof {
        lemma_place_is(table, key@, at as int);
    }
    at
}

/// Stores `value` as the value of `key`.
fn store_entry(entries: &mut Vec<(String, String)>, key: &str, value: String)
    ensures
        entries_of(final(entries)@) == stored(entries_of(old(entries)@), key@, value@),
{
    let at = find_entry(entries, key);
    let ghost before = entries@;
    let entry = (owned(key), value);
    if at < entries.len() {
        entries.set(at, entry);
        assert(entries_of(entries@) =~= entries_of(before).update(at as int, (key@, value@)));
    } else {
        entries.push(entry);
        assert(entries_of(entries@) =~= entries_of(before).push((key@, value@)));
    }
}

// ---------------------------------------------------------------------------
// The transcript
// ---------------------------------------------------------------------------

/// What the messages of a process have said so far: the type, the phase and the text of each
/// item, the text that came in pieces, and the items that hold a final answer or a review.
#[derive(Debug)]
pub struct AgentTranscript {
    types: Vec<(String, String)>,
    phases: Vec<(String, String)>,
    completed: Vec<(String, String)>,
    deltas: Vec<(String, String)>,
    final_ids: Vec<String>,
    review_ids: Vec<String>,
}

/// What a transcript holds.
pub struct TranscriptView {
    pub types: Table,
    pub phases: Table,
    pub completed: Table,
    pub deltas: Table,
    pub final_ids: Seq<Seq<char>>,
    pub review_ids: Seq<Seq<char>>,
}

impl View for AgentTranscript {
    type V = TranscriptView;

    closed spec fn view(&self) -> TranscriptView {
        TranscriptView {
            types: entries_of(self.types@),
            phases: entries_of(self.phases@),
            completed: entries_of(self.completed@),
            deltas: entries_of(self.deltas@),
            final_ids: views_of(self.final_ids@),
            review_ids: views_of(self.review_ids@),
        }
    }
}

/// The transcript before any message.
pub open spec fn empty_transcript() -> TranscriptView {
    TranscriptView {
        types: Seq::empty(),
        phases: Seq::empty(),
        completed: Seq::empty(),
        deltas: Seq::empty(),
        final_ids: Seq::empty(),
        review_ids: Seq::empty(),
    }
}

/// Items of this type hold a review.
pub open spec fn is_review_type(kind: Seq<char>) -> bool {
    kind == "review_rollout_assistant"@ || kind == "exitedReviewMode"@
}

/// A document, or null.
pub open spec fn or_null(value: Option<JsonView>) -> JsonView {
    match value {
        Some(value) => value,
        None => JsonView::Null,
    }
}

/// The text of an item of a log: what an agent said, or what a review says.
pub open spec fn text_of_item(item: JsonView) -> Seq<char> {
    let kind = or_empty(item.member_text("type"@));
    if kind == "agentMessage"@ {
        value_text(or_null(item.member("text"@)))
    } else if is_review_type(kind) {
        value_text(item)
    } else {
        Seq::empty()
    }
}

impl TranscriptView {
    /// The transcript once the type and the phase of the item `id` are known.
    pub open spec fn with_item(
        self,
        id: Seq<char>,
        kind: Seq<char>,
        phase: Seq<char>,
    ) -> TranscriptView {
        if id.len() == 0 {
            self
        } else {
            TranscriptView {
                types: stored(self.types, id, kind),
                phases: stored(self.phases, id, phase),
                final_ids: if phase == "final_answer"@ {
                    self.final_ids.push(id)
                } else {
                    self.final_ids
                },
                review_ids: if is_review_type(kind) {
                    self.review_ids.push(id)
                } else {
                    self.review_ids
                },
                ..self
            }
        }
    }

    /// The transcript with `text` as the text of the review `id`.
    pub open spec fn with_review(self, id: Seq<char>, text: Seq<char>) -> TranscriptView {
        TranscriptView {
            completed: stored(self.completed, id, text),
            review_ids: self.review_ids.push(id),
            ..self
        }
    }

    /// The transcript once the item `item` has started or completed. A review without an
    /// identifier gets one from the number of reviews before it.
    pub open spec fn after_item(self, item: JsonView) -> TranscriptView {
        let id = or_empty(item.member_text("id"@));
        let kind = or_empty(item.member_text("type"@));
        let phase = or_empty(item.member_text("phase"@));
        let text = text_of_item(item);
        let known = self.with_item(id, kind, phase);
        if trimmed(text).len() == 0 {
            known
        } else if id.len() > 0 {
            TranscriptView { completed: stored(known.completed, id, text), ..known }
        } else if is_review_type(kind) {
            known.with_review("anonymous-"@ + decimal(known.review_ids.len()), text)
        } else {
            known
        }
    }

    /// The transcript once a piece of the text of an item has come.
    pub open spec fn after_delta(self, params: JsonView) -> TranscriptView {
        let name = match params.member("itemId"@) {
            Some(name) => Some(name),
            None => params.member("item_id"@),
        };
        let id = or_empty(or_null(name).text());
        let delta = or_empty(params.member_text("delta"@));
        if id.len() > 0 && delta.len() > 0 {
            TranscriptView {
                deltas: stored(self.deltas, id, or_empty(found(self.deltas, id)) + delta),
                ..self
            }
        } else {
            self
        }
    }

    /// The transcript once a review has come by itself. It gets its identifier from the number of
    /// texts before it.
    pub open spec fn after_rollout(self, params: JsonView) -> TranscriptView {
        let item = match params.member("item"@) {
            Some(item) => item,
            None => params,
        };
        let text = value_text(item);
        if trimmed(text).len() > 0 {
            self.with_review("review-"@ + decimal(self.completed.len()), text)
        } else {
            self
        }
    }

    /// The transcript after the message `message`.
    pub open spec fn after(self, message: JsonView) -> TranscriptView {
        let method = or_empty(message.member_text("method"@));
        let params = or_null(message.member("params"@));
        if method == "item/started"@ || method == "item/completed"@ {
            self.after_item(or_null(params.member("item"@)))
        } else if method == "item/agentMessage/delta"@ {
            self.after_delta(params)
        } else if method == "review_rollout_assistant"@ {
            self.after_rollout(params)
        } else {
            self
        }
    }

    /// The text of an item: the whole one where it came, else the pieces that came.
    pub open spec fn text_for(self, id: Seq<char>) -> Seq<char> {
        match found(self.completed, id) {
            Some(text) => text,
            None => or_empty(found(self.deltas, id)),
        }
    }

    /// The texts of the items `ids`, one to a line, without those that are blank.
    pub open spec fn texts_for(self, ids: Seq<Seq<char>>) -> Seq<char> {
        stacked(ids.map_values(|id: Seq<char>| self.text_for(id)), non_blank())
    }

    /// The item of this entry of the types holds something that the agent said to its user.
    pub open spec fn is_said(self, entry: (Seq<char>, Seq<char>)) -> bool {
        let phase = or_empty(found(self.phases, entry.0));
        entry.1 == "agentMessage"@ && (phase.len() == 0 || phase == "final_answer"@ || phase
            == "commentary"@)
    }

    /// The items that hold something that the agent said to its user.
    pub open spec fn said_ids(self) -> Seq<Seq<char>> {
        self.types.filter(|entry: (Seq<char>, Seq<char>)| self.is_said(entry)).map_values(
            |entry: (Seq<char>, Seq<char>)| entry.0,
        )
    }

    /// The text that the agent leaves: its final answers; where they say nothing, the reviews;
    /// where they say nothing either, all that it said.
    pub open spec fn agent_text(self) -> Seq<char> {
        let answer = self.texts_for(self.final_ids);
        let review = self.texts_for(self.review_ids);
        if trimmed(answer).len() > 0 {
            answer
        } else if trimmed(review).len() > 0 {
            review
        } else {
            self.texts_for(self.said_ids())
        }
    }
}

/// The transcript after one line of a log. A line that is no JSON says nothing.
pub open spec fn after_line(before: TranscriptView, line: Seq<char>) -> TranscriptView {
    match json_in_text(line) {
        Some(message) => before.after(message),
        None => before,
    }
}

/// The transcript after the lines `all`.
pub open spec fn after_lines(before: TranscriptView, all: Seq<Seq<char>>) -> TranscriptView
    decreases all.len(),
{
    if all.len() == 0 {
        before
    } else {
        after_line(after_lines(before, all.drop_last()), all.last())
    }
}

/// The transcript after the chunks of output `chunks`.
pub open spec fn transcript_of(chunks: Seq<Seq<char>>) -> TranscriptView
    decreases chunks.len(),
{
    if chunks.len() == 0 {
        empty_transcript()
    } else {
        after_lines(transcript_of(chunks.drop_last()), lines(chunks.last()))
    }
}

/// The text of an item of a log.
pub fn item_text(item: &Json) -> (r: String)
    ensures
        r@ == text_of_item(item@),
{
    let kind = match item.get_str("type") {
        Some(kind) => kind,
        None => "",
    };
    proof {
        reveal_strlit("");
        assert(""@ =~= Seq::empty());
    }
    if same_text(kind, "agentMessage") {
        match item.get("text") {
            Some(text) => text_from_value(text),
            None => String::new(),
        }
    } else if same_text(kind, "review_rollout_assistant") || same_text(kind, "exitedReviewMode") {
        text_from_value(item)
    } else {
        String::new()
    }
}

/// Appends `text` to `kept` unless it is blank.
fn keep_non_blank(kept: &mut Vec<String>, text: String, Ghost(parts): Ghost<Seq<Seq<char>>>)
    requires
        views_of(old(kept)@) == parts.filter(non_blank()),
    ensures
        views_of(final(kept)@) == parts.push(text@).filter(non_blank()),
{
    proof {
        lemma_filter_push(parts, non_blank(), text@);
    }
    if !is_blank(text.as_str()) {
        let ghost before = kept@;
        kept.push(text);
        assert(views_of(kept@) =~= views_of(before).push(text@));
    }
}

/// Appends an owned copy of `text` to `texts`.
fn push_text(texts: &mut Vec<String>, text: &str)
    ensures
        views_of(final(texts)@) == views_of(old(texts)@).push(text@),
{
    texts.push(owned(text));
    assert(views_of(texts@) =~= views_of(old(texts)@).push(text@));
}

impl AgentTranscript {
    /// A transcript before any message.
    pub fn new() -> (r: AgentTranscript)
        ensures
            r@ == empty_transcript(),
    {
        let r = AgentTranscript {
            types: Vec::new(),
            phases: Vec::new(),
            completed: Vec::new(),
            deltas: Vec::new(),
            final_ids: Vec::new(),
            review_ids: Vec::new(),
        };
        assert(r@.types =~= Seq::empty());
        assert(r@.phases =~= Seq::empty());
        assert(r@.completed =~= Seq::empty());
        assert(r@.deltas =~= Seq::empty());
        assert(r@.final_ids =~= Seq::empty());
        assert(r@.review_ids =~= Seq::empty());
        r
    }

    /// Takes in that the item `item` has started or completed.
    fn record_item(&mut self, item: &Json)
        ensures
            final(self)@ == old(self)@.after_item(item@),
    {
        proof {
            reveal_strlit("");
            assert(""@ =~= Seq::empty());
        }
        let id = match item.get_str("id") {
            Some(id) => id,
            None => "",
        };
        let kind = match item.get_str("type") {
            Some(kind) => kind,
            None => "",
        };
        let phase = match item.get_str("phase") {
            Some(phase) => phase,
            None => "",
        };
        let is_review = same_text(kind, "review_rollout_assistant") || same_text(
            kind,
            "exitedReviewMode",
        );
        if !id.is_empty() {
            store_entry(&mut self.types, id, owned(kind));
            store_entry(&mut self.phases, id, owned(phase));
            if same_text(phase, "final_answer") {
                push_text(&mut self.final_ids, id);
            }
            if is_review {
                push_text(&mut self.review_ids, id);
            }
        }
        let text = item_text(item);
        if !is_blank(text.as_str()) {
            if !id.is_empty() {
                store_entry(&mut self.completed, id, text);
            } else if is_review {
                let mut anonymous = owned("anonymous-");
                push_decimal(&mut anonymous, self.review_ids.len() as u64);
                store_entry(&mut self.completed, anonymous.as_str(), text);
                push_text(&mut self.review_ids, anonymous.as_str());
            }
        }
    }

    /// Takes in a piece of the text of an item.
    fn record_delta(&mut self, params: &Json)
        ensures
            final(self)@ == old(self)@.after_delta(params@),
    {
        proof {
            reveal_strlit("");
            assert(""@ =~= Seq::empty());
        }
        let name = match params.get("itemId") {
            Some(name) => Some(name),
            None => params.get("item_id"),
        };
        let id = match name {
            Some(name) => match name.as_str() {
                Some(id) => id,
                None => "",
            },
            None => "",
        };
        let delta = match params.get_str("delta") {
            Some(delta) => delta,
            None => "",
        };
        if !id.is_empty() && !delta.is_empty() {
            let at = find_entry(&self.deltas, id);
            let ghost table = entries_of(self.deltas@);
            let mut text = String::new();
            if at < self.deltas.len() {
                text = self.deltas[at].1.clone();
            }
            assert(text@ =~= or_empty(found(table, id@)));
            text.append(delta);
            store_entry(&mut self.deltas, id, text);
        }
    }

    /// Takes in a review that has come by itself.
    fn record_rollout(&mut self, params: &Json)
        ensures
            final(self)@ == old(self)@.after_rollout(params@),
    {
        let item = match params.get("item") {
            Some(item) => item,
            None => params,
        };
        let text = text_from_value(item);
        if !is_blank(text.as_str()) {
            let mut id = owned("review-");
            push_decimal(&mut id, self.completed.len() as u64);
            store_entry(&mut self.completed, id.as_str(), text);
            push_text(&mut self.review_ids, id.as_str());
        }
    }

    /// Takes in one message of the process.
    pub fn record(&mut self, message: &Json)
        ensures
            final(self)@ == old(self)@.after(message@),
    {
        proof {
            reveal_strlit("");
            assert(""@ =~= Seq::empty());
        }
        let null = Json::Null;
        let method = match message.get_str("method") {
            Some(method) => method,
            None => "",
        };
        let params = match message.get("params") {
            Some(params) => params,
            None => &null,
        };
        if same_text(method, "item/started") || same_text(method, "item/completed") {
            let item = match params.get("item") {
                Some(item) => item,
                None => &null,
            };
            self.record_item(item);
        } else if same_text(method, "item/agentMessage/delta") {
            self.record_delta(params);
        } else if same_text(method, "review_rollout_assistant") {
            self.record_rollout(params);
        }
    }

    /// The text of an item.
    fn text_for(&self, id: &str) -> (r: String)
        ensures
            r@ == self@.text_for(id@),
    {
        let at = find_entry(&self.completed, id);
        if at < self.completed.len() {
            return self.completed[at].1.clone();
        }
        let at = find_entry(&self.deltas, id);
        if at < self.deltas.len() {
            self.deltas[at].1.clone()
        } else {
            String::new()
        }
    }

    /// The texts of the items `ids`, one to a line, without those that are blank.
    fn texts_for(&self, ids: &Vec<String>) -> (r: String)
        ensures
            r@ == self@.texts_for(views_of(ids@)),
    {
        let ghost views = views_of(ids@);
        let ghost parts = views.map_values(|id: Seq<char>| self@.text_for(id));
        let mut kept: Vec<String> = Vec::new();
        proof {
            reveal(Seq::filter);
            assert(parts.take(0).filter(non_blank()) =~= views_of(kept@));
        }
        for i in 0..ids.len()
            invariant
                views == views_of(ids@),
                parts == views.map_values(|id: Seq<char>| self@.text_for(id)),
                views_of(kept@) == parts.take(i as int).filter(non_blank()),
        {
            let text = self.text_for(ids[i].as_str());
            assert(views[i as int] == ids@[i as int]@);
            keep_non_blank(&mut kept, text, Ghost(parts.take(i as int)));
            assert(parts.take(i as int).push(text@) =~= parts.take(i + 1));
        }
        assert(parts.take(parts.len() as int) =~= parts);
        join(&kept, "\n")
    }

    /// The items that hold something that the agent said to its user.
    fn said_ids(&self) -> (r: Vec<String>)
        ensures
            views_of(r@) == self@.said_ids(),
    {
        let ghost said = |entry: (Seq<char>, Seq<char>)| self@.is_said(entry);
        let ghost first = |entry: (Seq<char>, Seq<char>)| entry.0;
        let ghost types = self@.types;
        let mut r: Vec<String> = Vec::new();
        proof {
            reveal(Seq::filter);
            assert(types.take(0).filter(said).map_values(first) =~= views_of(r@));
        }
        for i in 0..self.types.len()
            invariant
                types == self@.types,
                types == entries_of(self.types@),
                said == (|entry: (Seq<char>, Seq<char>)| self@.is_said(entry)),
                first == (|entry: (Seq<char>, Seq<char>)| entry.0),
                views_of(r@) == types.take(i as int).filter(said).map_values(first),
        {
            let entry = &self.types[i];
            let ghost view = types[i as int];
            assert(view == (entry.0@, entry.1@));
            let mut is_said = false;
            if same_text(entry.1.as_str(), "agentMessage") {
                let at = find_entry(&self.phases, entry.0.as_str());
                if at < self.phases.len() {
                    let phase = self.phases[at].1.as_str();
                    is_said = phase.is_empty() || same_text(phase, "final_answer") || same_text(
                        phase,
                        "commentary",
                    );
                } else {
                    is_said = true;
                }
            }
            assert(is_said == said(view));
            let ghost before = r@;
            if is_said {
                r.push(entry.0.clone());
                assert(views_of(r@) =~= views_of(before).push(view.0));
            }
            proof {
                reveal(Seq::filter);
                let shorter = types.take(i as int);
                assert(types.take(i + 1).drop_last() =~= shorter);
                assert(types.take(i + 1).filter(said).map_values(first) =~= if said(view) {
                    shorter.filter(said).map_values(first).push(view.0)
                } else {
                    shorter.filter(said).map_values(first)
                });
            }
        }
        assert(types.take(types.len() as int) =~= types);
        r
    }

    /// The text that the agent leaves.
    pub fn text(&self) -> (r: String)
        ensures
            r@ == self@.agent_text(),
    {
        let answer = self.texts_for(&self.final_ids);
        if !is_blank(answer.as_str()) {
            return answer;
        }
        let review = self.texts_for(&self.review_ids);
        if !is_blank(review.as_str()) {
            return review;
        }
        let ids = self.said_ids();
        self.texts_for(&ids)
    }
}

/// The text that the agent of a process leaves in the chunks of output `chunks`.
pub fn extract_process_agent_text(chunks: &[String]) -> (r: String)
    ensures
        r@ == transcript_of(views_of(chunks@)).agent_text(),
{
    let ghost views = views_of(chunks@);
    let mut transcript = AgentTranscript::new();
    assert(views.take(0) =~= Seq::empty());
    for i in 0..chunks.len()
        invariant
            views == views_of(chunks@),
            transcript@ == transcript_of(views.take(i as int)),
    {
        let all = split_lines(chunks[i].as_str());
        let ghost all_views = lines(views[i as int]);
        let ghost before = transcript@;
        assert(views[i as int] == chunks@[i as int]@);
        assert(all_views.take(0) =~= Seq::empty());
        for k in 0..all.len()
            invariant
                views_of(all@) == all_views,
                transcript@ == after_lines(before, all_views.take(k as int)),
        {
            assert(all_views[k as int] == all@[k as int]@);
            if let Some(message) = Json::parse(all[k].as_str()) {
                transcript.record(&message);
            }
            assert(all_views.take(k + 1).drop_last() =~= all_views.take(k as int));
        }
        assert(all_views.take(all_views.len() as int) =~= all_views);
        assert(views.take(i + 1).drop_last() =~= views.take(i as int));
    }
    assert(views.take(views.len() as int) =~= views);
    transcript.text()
}

/// A message of the log of a process, as far as its text is read.
#[derive(Debug, Clone)]
pub enum LogMsg {
    Stdout(String),
    Other,
}

/// What the messages of a log write to standard output.
pub open spec fn stdout_of(messages: Seq<LogMsg>) -> Seq<Seq<char>>
    decreases messages.len(),
{
    if messages.len() == 0 {
        Seq::empty()
    } else {
        let front = stdout_of(messages.drop_last());
        match messages.last() {
            LogMsg::Stdout(text) => front.push(text@),
            LogMsg::Other => front,
        }
    }
}

/// The text that the agent of a process leaves in its log; a process without a log leaves none.
pub fn process_agent_text(messages: &Option<Vec<LogMsg>>) -> (r: String)
    ensures
        r@ == (match messages {
            Some(messages) => transcript_of(stdout_of(messages@)).agent_text(),
            None => Seq::empty(),
        }),
{
    let messages = match messages {
        Some(messages) => messages,
        None => {
            return String::new();
        },
    };
    let mut chunks: Vec<String> = Vec::new();
    assert(views_of(chunks@) =~= stdout_of(messages@.take(0)));
    for i in 0..messages.len()
        invariant
            views_of(chunks@) == stdout_of(messages@.take(i as int)),
    {
        assert(messages@.take(i + 1).drop_last() =~= messages@.take(i as int));
        if let LogMsg::Stdout(text) = &messages[i] {
            push_text(&mut chunks, text.as_str());
        }
    }
    assert(messages@.take(messages@.len() as int) =~= messages@);
    extract_process_agent_text(chunks.as_slice())
}

// ---------------------------------------------------------------------------
// Laws
// ---------------------------------------------------------------------------

/// Once an item has come as a final answer that says something, the text that the agent leaves is
/// that of its final answers, whatever the reviews and its other messages say.
pub proof fn law_final_answer_is_preferred(before: TranscriptView, item: JsonView)
    requires
        or_empty(item.member_text("id"@)).len() > 0,
        or_empty(item.member_text("phase"@)) == "final_answer"@,
        trimmed(text_of_item(item)).len() > 0,
    ensures
        before.after_item(item).agent_text() == before.after_item(item).texts_for(
            before.after_item(item).final_ids,
        ),
{
    let after = before.after_item(item);
    let id = or_empty(item.member_text("id"@));
    let text = text_of_item(item);
    law_stored_is_found(before.completed, id, text, id);
    let parts = after.final_ids.map_values(|id: Seq<char>| after.text_for(id));
    assert(parts.last() == text);
    lemma_filter_push(parts.drop_last(), non_blank(), text);
    assert(parts.drop_last().push(text) =~= parts);
    let kept = parts.filter(non_blank());
    assert(kept.last() == text);
    lemma_joined_not_blank(kept, "\n"@, kept.len() - 1);
}

/// Where no final answer says anything and a review does, the reviews are the text that is left.
pub proof fn law_reviews_before_other_messages(transcript: TranscriptView)
    requires
        trimmed(transcript.texts_for(transcript.final_ids)).len() == 0,
        trimmed(transcript.texts_for(transcript.review_ids)).len() > 0,
    ensures
        transcript.agent_text() == transcript.texts_for(transcript.review_ids),
{
}

/// Messages of this method are read.
pub open spec fn is_known_method(method: Seq<char>) -> bool {
    ||| method == "item/started"@
    ||| method == "item/completed"@
    ||| method == "item/agentMessage/delta"@
    ||| method == "review_rollout_assistant"@
}

/// The line is a message of a method that is read.
pub open spec fn is_read(line: Seq<char>) -> bool {
    match json_in_text(line) {
        Some(message) => is_known_method(or_empty(message.member_text("method"@))),
        None => false,
    }
}

/// The class of lines that are messages of a method that is read.
pub open spec fn read_lines() -> spec_fn(Seq<char>) -> bool {
    |line: Seq<char>| is_read(line)
}

/// The lines of all the chunks of output `chunks`.
pub open spec fn log_lines(chunks: Seq<Seq<char>>) -> Seq<Seq<char>>
    decreases chunks.len(),
{
    if chunks.len() == 0 {
        Seq::empty()
    } else {
        log_lines(chunks.drop_last()) + lines(chunks.last())
    }
}

/// Lines one after the other are taken in one after the other.
proof fn lemma_after_more_lines(before: TranscriptView, a: Seq<Seq<char>>, b: Seq<Seq<char>>)
    ensures
        after_lines(before, a + b) == after_lines(after_lines(before, a), b),
    decreases b.len(),
{
    if b.len() == 0 {
        assert(a + b =~= a);
    } else {
        lemma_after_more_lines(before, a, b.drop_last());
        assert((a + b).drop_last() =~= a + b.drop_last());
    }
}

/// The lines of chunks one after the other.
proof fn lemma_more_log_lines(a: Seq<Seq<char>>, b: Seq<Seq<char>>)
    ensures
        log_lines(a + b) == log_lines(a) + log_lines(b),
    decreases b.len(),
{
    if b.len() == 0 {
        assert(a + b =~= a);
        assert(log_lines(a) + log_lines(b) =~= log_lines(a));
    } else {
        lemma_more_log_lines(a, b.drop_last());
        assert((a + b).drop_last() =~= a + b.drop_last());
        assert(log_lines(a + b) =~= log_lines(a) + log_lines(b));
    }
}

/// The lines of one chunk.
proof fn lemma_log_lines_of_one(chunk: Seq<char>)
    ensures
        log_lines(seq![chunk]) == lines(chunk),
{
    let none = seq![chunk].drop_last();
    assert(log_lines(none) =~= Seq::empty());
    assert(log_lines(none) + lines(chunk) =~= lines(chunk));
    assert(log_lines(seq![chunk]) =~= lines(chunk));
}

/// Lines that are no JSON and messages of an unknown method say nothing, however many there are
/// and wherever they stand: the transcript is that of the other lines.
pub proof fn law_other_lines_are_skipped(before: TranscriptView, all: Seq<Seq<char>>)
    ensures
        after_lines(before, all) == after_lines(before, all.filter(read_lines())),
    decreases all.len(),
{
    reveal(Seq::filter);
    if all.len() > 0 {
        let front = all.drop_last();
        let kept = front.filter(read_lines());
        law_other_lines_are_skipped(before, front);
        if is_read(all.last()) {
            assert(kept.push(all.last()).drop_last() =~= kept);
        }
    }
}

/// How the output is cut into chunks does not matter beyond its lines, and of these only the
/// messages of a known method do.
pub proof fn law_transcript_is_that_of_the_messages(chunks: Seq<Seq<char>>)
    ensures
        transcript_of(chunks) == after_lines(empty_transcript(), log_lines(chunks)),
        transcript_of(chunks) == after_lines(
            empty_transcript(),
            log_lines(chunks).filter(read_lines()),
        ),
    decreases chunks.len(),
{
    law_other_lines_are_skipped(empty_transcript(), log_lines(chunks));
    if chunks.len() > 0 {
        law_transcript_is_that_of_the_messages(chunks.drop_last());
        lemma_after_more_lines(
            empty_transcript(),
            log_lines(chunks.drop_last()),
            lines(chunks.last()),
        );
    }
}

/// Two logs with the same messages of known methods, in the same order, leave the same transcript
/// and the same text.
pub proof fn law_same_messages_leave_the_same_text(a: Seq<Seq<char>>, b: Seq<Seq<char>>)
    requires
        log_lines(a).filter(read_lines()) == log_lines(b).filter(read_lines()),
    ensures
        transcript_of(a) == transcript_of(b),
        transcript_of(a).agent_text() == transcript_of(b).agent_text(),
{
    law_transcript_is_that_of_the_messages(a);
    law_transcript_is_that_of_the_messages(b);
}

/// A chunk that is split in two behind a line feed leaves the same transcript and the same text.
pub proof fn law_chunks_may_be_split(
    front: Seq<Seq<char>>,
    u: Seq<char>,
    v: Seq<char>,
    back: Seq<Seq<char>>,
)
    requires
        u.len() == 0 || u.last() == '\n',
    ensures
        transcript_of(front + seq![u, v] + back) == transcript_of(front + seq![u + v] + back),
        transcript_of(front + seq![u, v] + back).agent_text() == transcript_of(
            front + seq![u + v] + back,
        ).agent_text(),
{
    law_lines_of_two_texts(u, v);
    lemma_more_log_lines(seq![u], seq![v]);
    lemma_log_lines_of_one(u);
    lemma_log_lines_of_one(v);
    lemma_log_lines_of_one(u + v);
    assert(seq![u] + seq![v] =~= seq![u, v]);
    lemma_more_log_lines(front, seq![u, v]);
    lemma_more_log_lines(front + seq![u, v], back);
    lemma_more_log_lines(front, seq![u + v]);
    lemma_more_log_lines(front + seq![u + v], back);
    law_same_messages_leave_the_same_text(front + seq![u, v] + back, front + seq![u + v] + back);
}

/// Lines without a message of a known method may be put in at the beginning of any line, as part
/// of a chunk or as a chunk of their own: the transcript and the text stay the same.
pub proof fn law_inserted_lines_change_nothing(
    front: Seq<Seq<char>>,
    u: Seq<char>,
    inserted: Seq<char>,
    v: Seq<char>,
    back: Seq<Seq<char>>,
)
    requires
        u.len() == 0 || u.last() == '\n',
        inserted.len() == 0 || inserted.last() == '\n',
        forall|i: int|
            0 <= i < lines(inserted).len() ==> !is_read(#[trigger] lines(inserted)[i]),
    ensures
        transcript_of(front + seq![u + inserted + v] + back) == transcript_of(
            front + seq![u + v] + back,
        ),
        transcript_of(front + seq![inserted] + back) == transcript_of(front + back),
        transcript_of(front + seq![u + inserted + v] + back).agent_text() == transcript_of(
            front + seq![u + v] + back,
        ).agent_text(),
        transcript_of(front + seq![inserted] + back).agent_text() == transcript_of(
            front + back,
        ).agent_text(),
{
    let class = read_lines();
    let silent = lines(inserted);
    lemma_nothing_is_kept(silent);
    law_lines_of_two_texts(u, inserted + v);
    law_lines_of_two_texts(inserted, v);
    law_lines_of_two_texts(u, v);
    assert(u + inserted + v =~= u + (inserted + v));
    lemma_log_lines_of_one(u + inserted + v);
    lemma_log_lines_of_one(u + v);
    lemma_log_lines_of_one(inserted);
    let with = front + seq![u + inserted + v];
    let without = front + seq![u + v];
    let apart = front + seq![inserted];
    lemma_more_log_lines(front, seq![u + inserted + v]);
    lemma_more_log_lines(with, back);
    lemma_more_log_lines(front, seq![u + v]);
    lemma_more_log_lines(without, back);
    lemma_more_log_lines(front, seq![inserted]);
    lemma_more_log_lines(apart, back);
    lemma_more_log_lines(front, back);
    let head = log_lines(front);
    let tail = log_lines(back);
    Seq::filter_distributes_over_add(head + (lines(u) + (silent + lines(v))), tail, class);
    Seq::filter_distributes_over_add(head, lines(u) + (silent + lines(v)), class);
    Seq::filter_distributes_over_add(lines(u), silent + lines(v), class);
    Seq::filter_distributes_over_add(silent, lines(v), class);
    Seq::filter_distributes_over_add(head + (lines(u) + lines(v)), tail, class);
    Seq::filter_distributes_over_add(head, lines(u) + lines(v), class);
    Seq::filter_distributes_over_add(lines(u), lines(v), class);
    Seq::filter_distributes_over_add(head + silent, tail, class);
    Seq::filter_distributes_over_add(head, silent, class);
    Seq::filter_distributes_over_add(head, tail, class);
    assert(silent.filter(class) + lines(v).filter(class) =~= lines(v).filter(class));
    assert(head.filter(class) + silent.filter(class) =~= head.filter(class));
    law_same_messages_leave_the_same_text(with + back, without + back);
    law_same_messages_leave_the_same_text(apart + back, front + back);
}

/// Nothing is left of lines none of which is read.
proof fn lemma_nothing_is_kept(all: Seq<Seq<char>>)
    requires
        forall|i: int| 0 <= i < all.len() ==> !is_read(#[trigger] all[i]),
    ensures
        all.filter(read_lines()) == Seq::<Seq<char>>::empty(),
    decreases all.len(),
{
    reveal(Seq::filter);
    if all.len() > 0 {
        let front = all.drop_last();
        assert forall|i: int| 0 <= i < front.len() implies !is_read(#[trigger] front[i]) by {
            assert(front[i] == all[i]);
        }
        lemma_nothing_is_kept(front);
        assert(!is_read(all[all.len() - 1]));
    }
}

/// The texts of the items of an array, one by one.
proof fn lemma_item_texts(items: Seq<JsonView>)
    ensures
        item_texts(items) == items.map_values(|item: JsonView| value_text(item)),
    decreases items.len(),
{
    let texts = items.map_values(|item: JsonView| value_text(item));
    if items.len() > 0 {
        lemma_item_texts(items.drop_last());
    }
    assert(item_texts(items) =~= texts);
}

/// The text of a document: a string is its own text, an array holds the texts of its items and an
/// object those of seven of its members, in this order, one to a line and without the empty ones;
/// anything else has none.
pub proof fn law_text_of_documents(
    text: Seq<char>,
    items: Seq<JsonView>,
    members: Seq<(Seq<char>, JsonView)>,
    number: i128,
    flag: bool,
)
    ensures
        value_text(JsonView::Text(text)) == text,
        value_text(JsonView::Array(items)) == joined(
            items.map_values(|item: JsonView| value_text(item)).filter(
                |text: Seq<char>| text.len() > 0,
            ),
            "\n"@,
        ),
        ({
            let value = JsonView::Object(members);
            let of = |key: Seq<char>|
                match value.member(key) {
                    Some(member) => value_text(member),
                    None => Seq::empty(),
                };
            value_text(value) == joined(
                seq![
                    of("text"@),
                    of("message"@),
                    of("body"@),
                    of("summary"@),
                    of("decision"@),
                    of("review"@),
                    of("content"@),
                ].filter(|text: Seq<char>| text.len() > 0),
                "\n"@,
            )
        }),
        value_text(JsonView::Null).len() == 0,
        value_text(JsonView::Bool(flag)).len() == 0,
        value_text(JsonView::Integer(number)).len() == 0,
        value_text(JsonView::Decimal(text)).len() == 0,
{
    assert(non_empty() =~= |text: Seq<char>| text.len() > 0);
    lemma_item_texts(items);
    let value = JsonView::Object(members);
    lemma_member_text(value, "text"@);
    lemma_member_text(value, "message"@);
    lemma_member_text(value, "body"@);
    lemma_member_text(value, "summary"@);
    lemma_member_text(value, "decision"@);
    lemma_member_text(value, "review"@);
    lemma_member_text(value, "content"@);
}

/// The text of a member.
proof fn lemma_member_text(value: JsonView, key: Seq<char>)
    ensures
        member_value_text(value, key) == (match value.member(key) {
            Some(member) => value_text(member),
            None => Seq::empty(),
        }),
{
}

/// What an item of a log says: the text of a message of the agent is that of its `text`; that of a
/// review, under either of its names, is that of the whole item; other items say nothing.
pub proof fn law_text_of_items(item: JsonView)
    ensures
        item.member("type"@) == Some(JsonView::Text("agentMessage"@)) ==> text_of_item(item) == (
        match item.member("text"@) {
            Some(text) => value_text(text),
            None => Seq::empty(),
        }),
        item.member("type"@) == Some(JsonView::Text("review_rollout_assistant"@)) || item.member(
            "type"@,
        ) == Some(JsonView::Text("exitedReviewMode"@)) ==> text_of_item(item) == value_text(item),
        item.member("type"@) != Some(JsonView::Text("agentMessage"@)) && item.member("type"@)
            != Some(JsonView::Text("review_rollout_assistant"@)) && item.member("type"@) != Some(
            JsonView::Text("exitedReviewMode"@),
        ) ==> text_of_item(item).len() == 0,
{
    lemma_kinds_differ();
}

/// The kinds of items are apart.
proof fn lemma_kinds_differ()
    ensures
        "agentMessage"@.len() == 12,
        "review_rollout_assistant"@.len() == 24,
        "exitedReviewMode"@.len() == 16,
{
    reveal_strlit("agentMessage");
    reveal_strlit("review_rollout_assistant");
    reveal_strlit("exitedReviewMode");
}

/// A message that an item has started or completed is taken in under the identifier of the item:
/// its type and phase are those of the item; what it says, where it says anything, becomes its text
/// in place of an earlier one; a final answer and a review are noted as such; and the texts of all
/// other items stay as they are.
pub proof fn law_items_are_taken_in_by_identifier(
    before: TranscriptView,
    message: JsonView,
    item: JsonView,
    id: Seq<char>,
    other: Seq<char>,
)
    requires
        message.member("method"@) == Some(JsonView::Text("item/completed"@)) || message.member(
            "method"@,
        ) == Some(JsonView::Text("item/started"@)),
        message.member("params"@) matches Some(params) && params.member("item"@) == Some(item),
        item.member("id"@) == Some(JsonView::Text(id)),
        id.len() > 0,
        other != id,
    ensures
        ({
            let after = before.after(message);
            let says = exists|i: int|
                0 <= i < text_of_item(item).len() && !char_is_whitespace(
                    #[trigger] text_of_item(item)[i],
                );
            let is_final = item.member("phase"@) == Some(JsonView::Text("final_answer"@));
            let is_review = item.member("type"@) == Some(
                JsonView::Text("review_rollout_assistant"@),
            ) || item.member("type"@) == Some(JsonView::Text("exitedReviewMode"@));
            &&& found(after.types, id) == Some(or_empty(item.member_text("type"@)))
            &&& found(after.phases, id) == Some(or_empty(item.member_text("phase"@)))
            &&& says ==> found(after.completed, id) == Some(text_of_item(item))
            &&& !says ==> found(after.completed, id) == found(before.completed, id)
            &&& after.final_ids == if is_final {
                before.final_ids.push(id)
            } else {
                before.final_ids
            }
            &&& after.review_ids == if is_review {
                before.review_ids.push(id)
            } else {
                before.review_ids
            }
            &&& after.deltas == before.deltas
            &&& found(after.completed, other) == found(before.completed, other)
            &&& found(after.types, other) == found(before.types, other)
            &&& found(after.phases, other) == found(before.phases, other)
        }),
{
    let kind = or_empty(item.member_text("type"@));
    let phase = or_empty(item.member_text("phase"@));
    let text = text_of_item(item);
    lemma_blank(text);
    lemma_kinds_differ();
    reveal_strlit("final_answer");
    assert("final_answer"@.len() == 12);
    law_stored_is_found(before.types, id, kind, other);
    law_stored_is_found(before.phases, id, phase, other);
    law_stored_is_found(before.completed, id, text, other);
}

/// Pieces of the text of an item are put together in the order in which they come, and change
/// nothing else.
pub proof fn law_pieces_are_put_together(
    before: TranscriptView,
    message: JsonView,
    params: JsonView,
    id: Seq<char>,
    piece: Seq<char>,
    other: Seq<char>,
)
    requires
        message.member("method"@) == Some(JsonView::Text("item/agentMessage/delta"@)),
        message.member("params"@) == Some(params),
        params.member("itemId"@) == Some(JsonView::Text(id)) || (params.member("itemId"@) is None
            && params.member("item_id"@) == Some(JsonView::Text(id))),
        params.member("delta"@) == Some(JsonView::Text(piece)),
        id.len() > 0,
        piece.len() > 0,
        other != id,
    ensures
        ({
            let after = before.after(message);
            &&& found(after.deltas, id) == Some(
                (match found(before.deltas, id) {
                    Some(text) => text,
                    None => Seq::empty(),
                }) + piece,
            )
            &&& found(after.deltas, other) == found(before.deltas, other)
            &&& after == TranscriptView { deltas: after.deltas, ..before }
        }),
{
    lemma_methods_differ();
    law_stored_is_found(before.deltas, id, or_empty(found(before.deltas, id)) + piece, other);
}

/// The methods that are read are apart.
proof fn lemma_methods_differ()
    ensures
        "item/started"@.len() == 12,
        "item/completed"@.len() == 14,
        "item/agentMessage/delta"@.len() == 23,
        "review_rollout_assistant"@.len() == 24,
{
    reveal_strlit("item/started");
    reveal_strlit("item/completed");
    reveal_strlit("item/agentMessage/delta");
    reveal_strlit("review_rollout_assistant");
}

/// A review that comes by itself is taken in, under a new name, with the text of its item or of
/// the whole message; one that says nothing is not.
pub proof fn law_reviews_that_come_alone_are_taken_in(
    before: TranscriptView,
    message: JsonView,
    params: JsonView,
    text: Seq<char>,
)
    requires
        message.member("method"@) == Some(JsonView::Text("review_rollout_assistant"@)),
        message.member("params"@) == Some(params),
        text == (match params.member("item"@) {
            Some(item) => value_text(item),
            None => value_text(params),
        }),
    ensures
        ({
            let after = before.after(message);
            let says = exists|i: int|
                0 <= i < text.len() && !char_is_whitespace(#[trigger] text[i]);
            &&& says ==> after.review_ids.len() == before.review_ids.len() + 1
                && after.review_ids.drop_last() == before.review_ids && found(
                after.completed,
                after.review_ids.last(),
            ) == Some(text)
            &&& !says ==> after == before
            &&& after.final_ids == before.final_ids && after.types == before.types
            &&& after.phases == before.phases && after.deltas == before.deltas
        }),
{
    lemma_methods_differ();
    lemma_blank(text);
    let id = "review-"@ + decimal(before.completed.len());
    let after = before.after(message);
    law_stored_is_found(before.completed, id, text, id);
    assert(message.member_text("method"@) == Some("review_rollout_assistant"@));
    assert(after == before.after_rollout(params));
    if trimmed(text).len() > 0 {
        let i = choose|i: int| 0 <= i < text.len() && !char_is_whitespace(#[trigger] text[i]);
        assert(!char_is_whitespace(text[i]));
        assert(after.review_ids == before.review_ids.push(id));
        assert(after.completed == stored(before.completed, id, text));
        assert(before.review_ids.push(id).drop_last() =~= before.review_ids);
    } else {
        assert(after == before);
    }
}

/// The text that is left is put together from those of the final answers, of the reviews or of all
/// that was said, one to a line and without the blank ones; the text of an item is the whole one
/// where it came, and else its pieces.
pub proof fn law_texts_are_put_together(transcript: TranscriptView, ids: Seq<Seq<char>>)
    ensures
        transcript.texts_for(ids) == joined(
            ids.map_values(|id: Seq<char>| transcript.text_for(id)).filter(
                |text: Seq<char>| trimmed(text).len() > 0,
            ),
            "\n"@,
        ),
        forall|id: Seq<char>|
            #![trigger transcript.text_for(id)]
            transcript.text_for(id) == if found(transcript.completed, id) is Some {
                found(transcript.completed, id)->0
            } else if found(transcript.deltas, id) is Some {
                found(transcript.deltas, id)->0
            } else {
                Seq::empty()
            },
        trimmed(transcript.texts_for(transcript.final_ids)).len() > 0 ==> transcript.agent_text()
            == transcript.texts_for(transcript.final_ids),
        trimmed(transcript.texts_for(transcript.final_ids)).len() == 0 && trimmed(
            transcript.texts_for(transcript.review_ids),
        ).len() == 0 ==> transcript.agent_text() == transcript.texts_for(transcript.said_ids()),
{
    assert(non_blank() =~= |text: Seq<char>| trimmed(text).len() > 0);
}

/// What was said to the user are the messages of the agent without a phase, in the final answer or
/// in a commentary, and no others.
pub proof fn law_messages_to_the_user(transcript: TranscriptView, id: Seq<char>)
    ensures
        transcript.said_ids().contains(id) <==> exists|i: int|
            {
                let phase = match found(transcript.phases, id) {
                    Some(phase) => phase,
                    None => Seq::empty(),
                };
                &&& 0 <= i < transcript.types.len()
                &&& #[trigger] transcript.types[i] == (id, "agentMessage"@)
                &&& phase.len() == 0 || phase == "final_answer"@ || phase == "commentary"@
            },
{
    let class = |entry: (Seq<char>, Seq<char>)| transcript.is_said(entry);
    let kept = transcript.types.filter(class);
    let ids = transcript.said_ids();
    if ids.contains(id) {
        let k = ids.index_of(id);
        let entry = kept[k];
        assert(kept.contains(entry));
        lemma_kept(transcript.types, class, entry);
        let i = transcript.types.index_of(entry);
        assert(transcript.types[i] == (id, "agentMessage"@));
    }
    if exists|i: int|
        {
            let phase = match found(transcript.phases, id) {
                Some(phase) => phase,
                None => Seq::empty(),
            };
            &&& 0 <= i < transcript.types.len()
            &&& #[trigger] transcript.types[i] == (id, "agentMessage"@)
            &&& phase.len() == 0 || phase == "final_answer"@ || phase == "commentary"@
        } {
        let entry = (id, "agentMessage"@);
        assert(transcript.types.contains(entry));
        lemma_kept(transcript.types, class, entry);
        let k = kept.index_of(entry);
        assert(ids[k] == id);
    }
}

/// What is kept is what is there and of the class.
proof fn lemma_kept(
    items: Table,
    class: spec_fn((Seq<char>, Seq<char>)) -> bool,
    item: (Seq<char>, Seq<char>),
)
    ensures
        items.filter(class).contains(item) <==> items.contains(item) && class(item),
    decreases items.len(),
{
    reveal(Seq::filter);
    if items.len() > 0 {
        let front = items.drop_last();
        let kept = front.filter(class);
        let all = items.filter(class);
        lemma_kept(front, class, item);
        if items.contains(item) && class(item) {
            let k = items.index_of(item);
            if k < front.len() {
                assert(front[k] == item);
                assert(kept.contains(item));
                assert(all[kept.index_of(item)] == item);
            } else {
                assert(all[all.len() - 1] == item);
            }
        }
        if all.contains(item) {
            let j = all.index_of(item);
            if j < kept.len() {
                assert(kept[j] == item);
                assert(items[front.index_of(item)] == item);
            } else {
                assert(items[items.len() - 1] == item);
            }
        }
    }
}

/// Of a log only what was written to standard output is read, all of it and in order.
pub proof fn law_standard_output_is_read(messages: Seq<LogMsg>, text: String)
    ensures
        stdout_of(Seq::empty()).len() == 0,
        stdout_of(messages.push(LogMsg::Stdout(text))) == stdout_of(messages).push(text@),
        stdout_of(messages.push(LogMsg::Other)) == stdout_of(messages),
{
    assert(messages.push(LogMsg::Stdout(text)).drop_last() =~= messages);
    assert(messages.push(LogMsg::Other).drop_last() =~= messages);
}

/// A review item without an identifier is taken in under a new name where it says anything; no
/// other item without an identifier is taken in.
pub proof fn law_reviews_without_a_name_are_taken_in(
    before: TranscriptView,
    message: JsonView,
    item: JsonView,
    text: Seq<char>,
)
    requires
        message.member("method"@) == Some(JsonView::Text("item/completed"@)) || message.member(
            "method"@,
        ) == Some(JsonView::Text("item/started"@)),
        message.member("params"@) matches Some(params) && params.member("item"@) == Some(item),
        item.member("id"@) is None,
        text == text_of_item(item),
    ensures
        ({
            let after = before.after(message);
            let says = exists|i: int|
                0 <= i < text.len() && !char_is_whitespace(#[trigger] text[i]);
            let is_review = item.member("type"@) == Some(
                JsonView::Text("review_rollout_assistant"@),
            ) || item.member("type"@) == Some(JsonView::Text("exitedReviewMode"@));
            &&& is_review && says ==> after.review_ids.len() == before.review_ids.len() + 1
                && after.review_ids.drop_last() == before.review_ids && found(
                after.completed,
                after.review_ids.last(),
            ) == Some(text) && after.final_ids == before.final_ids && after.types == before.types
            &&& !is_review || !says ==> after == before
        }),
{
    lemma_blank(text);
    lemma_kinds_differ();
    lemma_methods_differ();
    let id = "anonymous-"@ + decimal(before.review_ids.len());
    let after = before.after(message);
    law_stored_is_found(before.completed, id, text, id);
    assert(after == before.after_item(item));
    let kind = or_empty(item.member_text("type"@));
    if trimmed(text).len() > 0 && is_review_type(kind) {
        assert(after.review_ids == before.review_ids.push(id));
        assert(after.completed == stored(before.completed, id, text));
        assert(before.review_ids.push(id).drop_last() =~= before.review_ids);
    } else {
        assert(after == before);
    }
}

/// Lines are taken in one after the other, each that is JSON as the message that it is.
pub proof fn law_lines_are_taken_in_turn(
    before: TranscriptView,
    all: Seq<Seq<char>>,
    line: Seq<char>,
)
    ensures
        after_lines(before, Seq::empty()) == before,
        json_in_text(line) matches Some(message) ==> after_lines(before, all.push(line))
            == after_lines(before, all).after(message),
        json_in_text(line) is None ==> after_lines(before, all.push(line)) == after_lines(
            before,
            all,
        ),
{
    assert(all.push(line).drop_last() =~= all);
}

/// A log is read chunk by chunk and line by line.
pub proof fn law_chunks_are_read_in_turn(front: Seq<Seq<char>>, chunk: Seq<char>)
    ensures
        transcript_of(Seq::empty()) == empty_transcript(),
        transcript_of(front.push(chunk)) == after_lines(transcript_of(front), lines(chunk)),
{
    assert(front.push(chunk).drop_last() =~= front);
}

} // verus!
