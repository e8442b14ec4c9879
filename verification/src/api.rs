//! Requests to the board: the plain values that go over its interface.
use vstd::prelude::*;

use crate::ids::Uuid;
use crate::json::Json;
#[allow(unused_imports)]
use crate::json::{view_of_json, JsonView};
#[allow(unused_imports)]
use crate::text::view_of_option;

verus! {

/// A point in time: seconds since the Unix epoch, and nanoseconds since that second.
#[derive(Debug, Clone, Copy, PartialEq, Eq, Structural)]
pub struct Timestamp {
    pub seconds: i64,
    pub nanos: u32,
}

/// A position among the issues of a column, carried as the bits of a double precision number.
#[derive(Debug, Clone, Copy, PartialEq, Eq, Structural)]
pub struct SortOrder {
    pub bits: u64,
}

#[derive(Debug, Clone, Copy, PartialEq, Eq, Structural)]
pub enum IssuePriority {
    Urgent,
    High,
    Medium,
    Low,
}

#[derive(Debug, Clone, Copy, PartialEq, Eq, Structural)]
pub enum IssueRelationshipType {
    Blocking,
    Related,
}

#[derive(Debug, Clone)]
pub struct CreateIssueRequest {
    pub id: Option<Uuid>,
    pub project_id: Uuid,
    pub status_id: Uuid,
    pub title: String,
    pub description: Option<String>,
    pub priority: Option<IssuePriority>,
    pub start_date: Option<Timestamp>,
    pub target_date: Option<Timestamp>,
    pub completed_at: Option<Timestamp>,
    pub sort_order: SortOrder,
    pub parent_issue_id: Option<Uuid>,
    pub parent_issue_sort_order: Option<SortOrder>,
    pub extension_metadata: Json,
}

/// What a request to create an issue says.
pub struct CreateIssueRequestView {
    pub id: Option<Uuid>,
    pub project_id: Uuid,
    pub status_id: Uuid,
    pub title: Seq<char>,
    pub description: Option<Seq<char>>,
    pub priority: Option<IssuePriority>,
    pub start_date: Option<Timestamp>,
    pub target_date: Option<Timestamp>,
    pub completed_at: Option<Timestamp>,
    pub sort_order: SortOrder,
    pub parent_issue_id: Option<Uuid>,
    pub parent_issue_sort_order: Option<SortOrder>,
    pub extension_metadata: JsonView,
}

impl View for CreateIssueRequest {
    type V = CreateIssueRequestView;

    open spec fn view(&self) -> CreateIssueRequestView {
        CreateIssueRequestView {
            id: self.id,
            project_id: self.project_id,
            status_id: self.status_id,
            title: self.title@,
            description: view_of_option(self.description),
            priority: self.priority,
            start_date: self.start_date,
            target_date: self.target_date,
            completed_at: self.completed_at,
            sort_order: self.sort_order,
            parent_issue_id: self.parent_issue_id,
            parent_issue_sort_order: self.parent_issue_sort_order,
            extension_metadata: self.extension_metadata@,
        }
    }
}

/// A change to an issue: a field that is `None` is left as it is; of a field that may be empty,
/// `Some(None)` empties it.
#[derive(Debug, Clone)]
pub struct UpdateIssueRequest {
    pub status_id: Option<Uuid>,
    pub title: Option<String>,
    pub description: Option<Option<String>>,
    pub priority: Option<Option<IssuePriority>>,
    pub start_date: Option<Option<Timestamp>>,
    pub target_date: Option<Option<Timestamp>>,
    pub completed_at: Option<Option<Timestamp>>,
    pub sort_order: Option<SortOrder>,
    pub parent_issue_id: Option<Option<Uuid>>,
    pub parent_issue_sort_order: Option<Option<SortOrder>>,
    pub extension_metadata: Option<Json>,
}

/// What a change to an issue says.
pub struct UpdateIssueRequestView {
    pub status_id: Option<Uuid>,
    pub title: Option<Seq<char>>,
    pub description: Option<Option<Seq<char>>>,
    pub priority: Option<Option<IssuePriority>>,
    pub start_date: Option<Option<Timestamp>>,
    pub target_date: Option<Option<Timestamp>>,
    pub completed_at: Option<Option<Timestamp>>,
    pub sort_order: Option<SortOrder>,
    pub parent_issue_id: Option<Option<Uuid>>,
    pub parent_issue_sort_order: Option<Option<SortOrder>>,
    pub extension_metadata: Option<JsonView>,
}

impl View for UpdateIssueRequest {
    type V = UpdateIssueRequestView;

    open spec fn view(&self) -> UpdateIssueRequestView {
        UpdateIssueRequestView {
            status_id: self.status_id,
            title: view_of_option(self.title),
            description: match self.description {
                Some(description) => Some(view_of_option(description)),
                None => None,
            },
            priority: self.priority,
            start_date: self.start_date,
            target_date: self.target_date,
            completed_at: self.completed_at,
            sort_order: self.sort_order,
            parent_issue_id: self.parent_issue_id,
            parent_issue_sort_order: self.parent_issue_sort_order,
            extension_metadata: view_of_json(self.extension_metadata),
        }
    }
}

/// The change that changes nothing.
pub open spec fn no_change() -> UpdateIssueRequestView {
    UpdateIssueRequestView {
        status_id: None,
        title: None,
        description: None,
        priority: None,
        start_date: None,
        target_date: None,
        completed_at: None,
        sort_order: None,
        parent_issue_id: None,
        parent_issue_sort_order: None,
        extension_metadata: None,
    }
}

/// The change that changes nothing.
pub fn empty_update_issue_request() -> (r: UpdateIssueRequest)
    ensures
        r@ == no_change(),
{
    UpdateIssueRequest {
        status_id: None,
        title: None,
        description: None,
        priority: None,
        start_date: None,
        target_date: None,
        completed_at: None,
        sort_order: None,
        parent_issue_id: None,
        parent_issue_sort_order: None,
        extension_metadata: None,
    }
}

#[derive(Debug, Clone, Copy, PartialEq, Eq, Structural)]
pub struct CreateIssueRelationshipRequest {
    pub id: Option<Uuid>,
    pub issue_id: Uuid,
    pub related_issue_id: Uuid,
    pub relationship_type: IssueRelationshipType,
}

#[derive(Debug, Clone)]
pub struct CreateIssueCommentRequest {
    pub id: Option<Uuid>,
    pub issue_id: Uuid,
    pub message: String,
    pub parent_id: Option<Uuid>,
}

/// What a request to create a comment says.
pub struct CreateIssueCommentRequestView {
    pub id: Option<Uuid>,
    pub issue_id: Uuid,
    pub message: Seq<char>,
    pub parent_id: Option<Uuid>,
}

impl View for CreateIssueCommentRequest {
    type V = CreateIssueCommentRequestView;

    open spec fn view(&self) -> CreateIssueCommentRequestView {
        CreateIssueCommentRequestView {
            id: self.id,
            issue_id: self.issue_id,
            message: self.message@,
            parent_id: self.parent_id,
        }
    }
}

} // verus!
