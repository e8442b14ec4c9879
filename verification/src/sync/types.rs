//! The GitHub side, the Kanban side and the planned operations of a sync run.
use vstd::prelude::*;

use crate::ids::Uuid;
use crate::text::view_of_option;

verus! {

// ---------------------------------------------------------------------------
// GitHub-side types
// ---------------------------------------------------------------------------

#[derive(Debug, Clone, Copy, PartialEq, Eq, Structural)]
pub enum GitHubIssueState {
    Open,
    Closed,
}

#[derive(Debug, Clone)]
pub struct GitHubLabel {
    pub name: String,
    pub color: Option<String>,
}

#[derive(Debug, Clone)]
pub struct GitHubUser {
    pub login: String,
}

/// A lightweight reference to another GitHub issue (used for sub-issues and links).
#[derive(Debug, Clone)]
pub struct GitHubIssueRef {
    pub number: u64,
    pub url: String,
}

/// A comment on a GitHub issue that should be mirrored into Kanban. Only comments marked for
/// mirroring are held: callers filter before they build the snapshot.
#[derive(Debug, Clone)]
pub struct GitHubMirrorComment {
    pub github_comment_id: u64,
    pub author_login: String,
    pub body: String,
}

/// Full snapshot of a GitHub issue as seen at sync time.
#[derive(Debug, Clone)]
pub struct GitHubIssue {
    pub number: u64,
    pub url: String,
    pub title: String,
    pub body: Option<String>,
    pub state: GitHubIssueState,
    pub labels: Vec<GitHubLabel>,
    pub assignees: Vec<GitHubUser>,
    /// Direct children in GitHub's sub-issue hierarchy.
    pub sub_issues: Vec<GitHubIssueRef>,
    /// Issues that block this one.
    pub blocked_by: Vec<GitHubIssueRef>,
    /// Peer issues that are related but not blocking.
    pub related_issues: Vec<GitHubIssueRef>,
    /// Notable comments to mirror as durable Kanban comments.
    pub mirror_comments: Vec<GitHubMirrorComment>,
    /// Relationship metadata that could not be fetched safely.
    pub unsupported_relations: Vec<UnsupportedGitHubRelation>,
}

#[derive(Debug, Clone, Copy, PartialEq, Eq, Structural)]
pub enum GitHubRelationKind {
    SubIssues,
    BlockedBy,
    Related,
    Comments,
}

#[derive(Debug, Clone, PartialEq, Eq)]
pub struct UnsupportedGitHubRelation {
    pub kind: GitHubRelationKind,
    pub reason: String,
}

/// The name of a kind of relation.
pub open spec fn kind_name_text(kind: GitHubRelationKind) -> Seq<char> {
    match kind {
        GitHubRelationKind::SubIssues => "SubIssues"@,
        GitHubRelationKind::BlockedBy => "BlockedBy"@,
        GitHubRelationKind::Related => "Related"@,
        GitHubRelationKind::Comments => "Comments"@,
    }
}

impl GitHubRelationKind {
    /// The name of the kind.
    pub fn name(&self) -> (r: &'static str)
        ensures
            r@ == kind_name_text(*self),
    {
        match self {
            GitHubRelationKind::SubIssues => "SubIssues",
            GitHubRelationKind::BlockedBy => "BlockedBy",
            GitHubRelationKind::Related => "Related",
            GitHubRelationKind::Comments => "Comments",
        }
    }
}

// ---------------------------------------------------------------------------
// Kanban-side state
// ---------------------------------------------------------------------------

/// What is known about an existing Kanban issue that may already represent a GitHub issue.
#[derive(Debug, Clone)]
pub struct KanbanIssueRef {
    pub id: Uuid,
    pub github_issue_number: Option<u64>,
    pub title: String,
    pub description: Option<String>,
}

#[derive(Debug, Clone, Copy, PartialEq, Eq, Structural, Hash)]
pub enum KanbanRelationshipType {
    Blocking,
    Related,
}

#[derive(Debug, Clone, Copy, PartialEq, Eq, Structural, Hash)]
pub struct KanbanRelationshipRef {
    pub from_kanban_id: Uuid,
    pub to_kanban_id: Uuid,
    pub relationship_type: KanbanRelationshipType,
}

#[derive(Debug, Clone, Copy, PartialEq, Eq, Structural, Hash)]
pub struct KanbanMirroredCommentRef {
    pub kanban_id: Uuid,
    pub github_comment_id: u64,
}

#[derive(Debug, Clone)]
pub struct KanbanSyncState {
    pub issues: Vec<KanbanIssueRef>,
    pub relationships: Vec<KanbanRelationshipRef>,
    pub mirrored_comments: Vec<KanbanMirroredCommentRef>,
}

/// What is known about a Kanban issue.
pub struct KanbanIssueView {
    pub id: Uuid,
    pub github_issue_number: Option<u64>,
    pub title: Seq<char>,
    pub description: Option<Seq<char>>,
}

impl View for KanbanIssueRef {
    type V = KanbanIssueView;

    open spec fn view(&self) -> KanbanIssueView {
        KanbanIssueView {
            id: self.id,
            github_issue_number: self.github_issue_number,
            title: self.title@,
            description: view_of_option(self.description),
        }
    }
}

/// What is known about a board.
pub struct KanbanSyncStateView {
    pub issues: Seq<KanbanIssueView>,
    pub relationships: Seq<KanbanRelationshipRef>,
    pub mirrored_comments: Seq<KanbanMirroredCommentRef>,
}

impl View for KanbanSyncState {
    type V = KanbanSyncStateView;

    open spec fn view(&self) -> KanbanSyncStateView {
        KanbanSyncStateView {
            issues: self.issues@.map_values(|issue: KanbanIssueRef| issue@),
            relationships: self.relationships@,
            mirrored_comments: self.mirrored_comments@,
        }
    }
}

impl Default for KanbanSyncState {
    fn default() -> (r: KanbanSyncState)
        ensures
            r.issues@.len() == 0,
            r.relationships@.len() == 0,
            r.mirrored_comments@.len() == 0,
    {
        KanbanSyncState {
            issues: Vec::new(),
            relationships: Vec::new(),
            mirrored_comments: Vec::new(),
        }
    }
}

impl KanbanIssueRef {
    /// A copy of the reference.
    pub fn copy(&self) -> (r: KanbanIssueRef)
        ensures
            r == *self,
    {
        KanbanIssueRef {
            id: self.id,
            github_issue_number: self.github_issue_number,
            title: self.title.clone(),
            description: crate::text::copy_option(&self.description),
        }
    }
}

// ---------------------------------------------------------------------------
// Planned operations
// ---------------------------------------------------------------------------

/// A single mutation that the sync executor should apply to the Kanban board.
#[derive(Debug, Clone, PartialEq)]
#[allow(inconsistent_fields)]
pub enum SyncOp {
    /// Create a new Kanban issue for a GitHub issue that has no match yet.
    CreateIssue {
        /// Identifier reserved during planning so later operations can refer to it.
        kanban_id: Uuid,
        github_number: u64,
        github_url: String,
        title: String,
        description: Option<String>,
        /// If this GitHub issue is itself a sub-issue, link it under the parent.
        parent_kanban_id: Option<Uuid>,
    },
    /// Bring an existing Kanban issue's title in line with GitHub.
    UpdateTitle { kanban_id: Uuid, new_title: String },
    /// Bring an existing Kanban issue's description in line with GitHub.
    UpdateDescription { kanban_id: Uuid, new_description: Option<String> },
    /// Establish a parent-to-child (sub-issue) link between two Kanban issues.
    LinkSubIssue { parent_kanban_id: Uuid, child_kanban_id: Uuid },
    /// Mirror a GitHub "blocked-by" dependency as a Kanban blocking relationship.
    AddBlockingRelationship {
        /// The issue doing the blocking (it must be done first).
        blocker_kanban_id: Uuid,
        /// The issue that is blocked.
        blocked_kanban_id: Uuid,
    },
    /// Mirror a GitHub "related" link as a Kanban related-issue link.
    AddRelatedLink { from_kanban_id: Uuid, to_kanban_id: Uuid },
    /// Ensure a tag with `tag_name` exists and is attached to the Kanban issue.
    EnsureTag { kanban_id: Uuid, tag_name: String },
    /// Append a durable comment from GitHub to the Kanban issue. The `github_comment_id` lets
    /// executors deduplicate on later runs.
    AddComment { kanban_id: Uuid, github_comment_id: u64, author_login: String, body: String },
}

/// What a planned operation says.
#[allow(inconsistent_fields)]
pub enum SyncOpView {
    CreateIssue {
        kanban_id: Uuid,
        github_number: u64,
        github_url: Seq<char>,
        title: Seq<char>,
        description: Option<Seq<char>>,
        parent_kanban_id: Option<Uuid>,
    },
    UpdateTitle { kanban_id: Uuid, new_title: Seq<char> },
    UpdateDescription { kanban_id: Uuid, new_description: Option<Seq<char>> },
    LinkSubIssue { parent_kanban_id: Uuid, child_kanban_id: Uuid },
    AddBlockingRelationship { blocker_kanban_id: Uuid, blocked_kanban_id: Uuid },
    AddRelatedLink { from_kanban_id: Uuid, to_kanban_id: Uuid },
    EnsureTag { kanban_id: Uuid, tag_name: Seq<char> },
    AddComment {
        kanban_id: Uuid,
        github_comment_id: u64,
        author_login: Seq<char>,
        body: Seq<char>,
    },
}

impl View for SyncOp {
    type V = SyncOpView;

    open spec fn view(&self) -> SyncOpView {
        match *self {
            SyncOp::CreateIssue {
                kanban_id,
                github_number,
                github_url,
                title,
                description,
                parent_kanban_id,
            } => SyncOpView::CreateIssue {
                kanban_id,
                github_number,
                github_url: github_url@,
                title: title@,
                description: view_of_option(description),
                parent_kanban_id,
            },
            SyncOp::UpdateTitle { kanban_id, new_title } => SyncOpView::UpdateTitle {
                kanban_id,
                new_title: new_title@,
            },
            SyncOp::UpdateDescription { kanban_id, new_description } => {
                SyncOpView::UpdateDescription {
                    kanban_id,
                    new_description: view_of_option(new_description),
                }
            },
            SyncOp::LinkSubIssue { parent_kanban_id, child_kanban_id } => {
                SyncOpView::LinkSubIssue { parent_kanban_id, child_kanban_id }
            },
            SyncOp::AddBlockingRelationship { blocker_kanban_id, blocked_kanban_id } => {
                SyncOpView::AddBlockingRelationship { blocker_kanban_id, blocked_kanban_id }
            },
            SyncOp::AddRelatedLink { from_kanban_id, to_kanban_id } => {
                SyncOpView::AddRelatedLink { from_kanban_id, to_kanban_id }
            },
            SyncOp::EnsureTag { kanban_id, tag_name } => SyncOpView::EnsureTag {
                kanban_id,
                tag_name: tag_name@,
            },
            SyncOp::AddComment { kanban_id, github_comment_id, author_login, body } => {
                SyncOpView::AddComment {
                    kanban_id,
                    github_comment_id,
                    author_login: author_login@,
                    body: body@,
                }
            },
        }
    }
}

/// What a list of operations says.
pub open spec fn op_views(ops: Seq<SyncOp>) -> Seq<SyncOpView> {
    ops.map_values(|op: SyncOp| op@)
}

#[derive(Debug, Clone, PartialEq, Eq)]
pub enum UnsupportedSyncItem {
    GitHubRelation { github_number: u64, kind: GitHubRelationKind, reason: String },
    Tags { kanban_id: Uuid, tag_name: String, reason: String },
}

/// What an unsupported item says.
pub enum UnsupportedSyncItemView {
    GitHubRelation { github_number: u64, kind: GitHubRelationKind, reason: Seq<char> },
    Tags { kanban_id: Uuid, tag_name: Seq<char>, reason: Seq<char> },
}

impl View for UnsupportedSyncItem {
    type V = UnsupportedSyncItemView;

    open spec fn view(&self) -> UnsupportedSyncItemView {
        match *self {
            UnsupportedSyncItem::GitHubRelation { github_number, kind, reason } => {
                UnsupportedSyncItemView::GitHubRelation { github_number, kind, reason: reason@ }
            },
            UnsupportedSyncItem::Tags { kanban_id, tag_name, reason } => {
                UnsupportedSyncItemView::Tags {
                    kanban_id,
                    tag_name: tag_name@,
                    reason: reason@,
                }
            },
        }
    }
}

/// What a list of unsupported items says.
pub open spec fn unsupported_views(items: Seq<UnsupportedSyncItem>) -> Seq<
    UnsupportedSyncItemView,
> {
    items.map_values(|item: UnsupportedSyncItem| item@)
}

impl UnsupportedSyncItem {
    /// A copy of the item.
    pub fn copy(&self) -> (r: UnsupportedSyncItem)
        ensures
            r@ == self@,
    {
        match self {
            UnsupportedSyncItem::GitHubRelation { github_number, kind, reason } => {
                UnsupportedSyncItem::GitHubRelation {
                    github_number: *github_number,
                    kind: *kind,
                    reason: reason.clone(),
                }
            },
            UnsupportedSyncItem::Tags { kanban_id, tag_name, reason } => {
                UnsupportedSyncItem::Tags {
                    kanban_id: *kanban_id,
                    tag_name: tag_name.clone(),
                    reason: reason.clone(),
                }
            },
        }
    }
}

/// The result of planning a sync run.
#[derive(Debug)]
pub struct SyncPlan {
    /// Ordered list of mutations the executor should apply.
    pub ops: Vec<SyncOp>,
    /// GitHub issue numbers that were referenced (as sub-issue, blocker or related issue) but
    /// were not present in the input snapshot. Callers may fetch these and plan again, or surface
    /// them as warnings.
    pub unresolved_github_refs: Vec<u64>,
    /// Human-readable notes about deferred work, printed in sync summaries.
    pub notes: Vec<String>,
    /// Work that is intentionally not guessed by this sync slice.
    pub unsupported: Vec<UnsupportedSyncItem>,
}

impl Default for SyncPlan {
    fn default() -> (r: SyncPlan)
        ensures
            r.ops@.len() == 0,
            r.unresolved_github_refs@.len() == 0,
            r.notes@.len() == 0,
            r.unsupported@.len() == 0,
    {
        SyncPlan {
            ops: Vec::new(),
            unresolved_github_refs: Vec::new(),
            notes: Vec::new(),
            unsupported: Vec::new(),
        }
    }
}

} // verus!
