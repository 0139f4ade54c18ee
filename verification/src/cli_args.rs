//! The arguments of the command-line client's commands, as plain values.
//! The command-line parser fills copies of these types and converts them.

use std::path::PathBuf;
use vstd::prelude::*;

verus! {

#[verifier::external_type_specification]
#[verifier::external_body]
pub struct ExPathBuf(PathBuf);

/// Arguments of the `activity` command.
#[derive(Debug)]
pub struct ActivityArgs {
    pub command: ActivityCommands,
}

/// The `activity` subcommands.
#[derive(Debug)]
pub enum ActivityCommands {
    /// Recent activities in a project.
    Project {
        project_id: String,
        type_ids: Option<String>,
        count: Option<u32>,
        order: Option<String>,
    },
    /// Recent activities in the space.
    Space { type_ids: Option<String>, count: Option<u32>, order: Option<String> },
}

/// Arguments of the `document` command.
#[derive(Debug)]
pub struct DocumentArgs {
    pub command: DocumentCommands,
}

/// The `document` subcommands.
#[derive(Debug)]
pub enum DocumentCommands {
    List {
        project_id: String,
        keyword: Option<String>,
        sort: Option<String>,
        order: Option<String>,
        offset: Option<u32>,
        count: Option<u32>,
        json: bool,
    },
    Get { document_id: String, json: bool },
    Tree { project_id: String, json: bool },
    Download { document_id: String, attachment_id: u32, output: Option<String> },
    Add {
        project_id: String,
        title: String,
        content: Option<String>,
        emoji: Option<String>,
        parent_id: Option<String>,
        add_last: bool,
        json: bool,
    },
    Delete { document_id: String, json: bool },
}

/// Arguments of the `issue` command.
#[derive(Debug)]
pub struct IssueArgs {
    pub command: IssueCommands,
}

/// The `issue` subcommands.
#[derive(Debug)]
pub enum IssueCommands {
    List { params: IssueListCliParams },
    Show { issue_id_or_key: String },
    DownloadAttachment(DownloadAttachmentArgs),
    AddComment(AddCommentArgs),
    UpdateComment(UpdateCommentArgs),
    DeleteComment(DeleteCommentArgs),
    DeleteAttachment(DeleteAttachmentArgs),
    Create(CreateIssueArgs),
    Update(UpdateIssueArgs),
    Delete(DeleteIssueArgs),
    CountComment(CountCommentArgs),
    GetComment(GetCommentArgs),
    GetCommentNotifications(GetCommentArgs),
    AddCommentNotification(AddCommentNotificationArgs),
    ListParticipants { issue_id_or_key: String },
    ListSharedFiles { issue_id_or_key: String },
    LinkSharedFiles { issue_id_or_key: String, file_ids: Vec<u32> },
    UnlinkSharedFile { issue_id_or_key: String, file_id: u32 },
    RecentlyViewed { order: String, count: u32, offset: Option<u32> },
    AddRecentlyViewed { issue_id_or_key: String },
}

/// Arguments for downloading an issue attachment.
#[derive(Debug)]
pub struct DownloadAttachmentArgs {
    pub issue_id_or_key: String,
    pub attachment_id: u32,
    pub output: PathBuf,
}

/// Arguments for adding a comment to an issue.
#[derive(Debug)]
pub struct AddCommentArgs {
    pub issue_id_or_key: String,
    pub content: String,
    /// Comma-separated user ids to notify.
    pub notify_users: Option<String>,
    /// Comma-separated attachment ids.
    pub attachments: Option<String>,
}

/// Arguments for updating a comment.
#[derive(Debug)]
pub struct UpdateCommentArgs {
    pub issue_id: String,
    pub comment_id: u32,
    pub content: String,
}

/// Arguments for deleting a comment.
#[derive(Debug)]
pub struct DeleteCommentArgs {
    pub issue_id: String,
    pub comment_id: u32,
}

/// Arguments for deleting an issue attachment.
#[derive(Debug)]
pub struct DeleteAttachmentArgs {
    pub issue_id: String,
    pub attachment_id: u32,
}

/// Arguments for creating an issue.
#[derive(Debug)]
pub struct CreateIssueArgs {
    pub project_id: String,
    pub summary: String,
    pub issue_type_id: u32,
    pub priority_id: u32,
    pub description: Option<String>,
    pub assignee_id: Option<u32>,
    pub due_date: Option<String>,
    /// Comma-separated category ids.
    pub category_ids: Option<String>,
    /// Comma-separated milestone ids.
    pub milestone_ids: Option<String>,
    pub custom_fields: Vec<String>,
    pub custom_fields_json: Option<PathBuf>,
}

/// Arguments for updating an issue.
#[derive(Debug)]
pub struct UpdateIssueArgs {
    pub issue_id_or_key: String,
    pub summary: Option<String>,
    pub description: Option<String>,
    pub issue_type_id: Option<u32>,
    pub priority_id: Option<u32>,
    pub status_id: Option<String>,
    pub assignee_id: Option<u32>,
    pub resolution_id: Option<u32>,
    pub due_date: Option<String>,
    pub comment: Option<String>,
    pub custom_fields: Vec<String>,
    pub custom_fields_json: Option<PathBuf>,
}

/// Arguments for deleting an issue.
#[derive(Debug)]
pub struct DeleteIssueArgs {
    pub issue_key: String,
}

/// Arguments for counting the comments of an issue.
#[derive(Debug)]
pub struct CountCommentArgs {
    pub issue_id_or_key: String,
}

/// Arguments naming one comment of an issue.
#[derive(Debug)]
pub struct GetCommentArgs {
    pub issue_id_or_key: String,
    pub comment_id: u32,
}

/// Arguments for adding notifications to a comment.
#[derive(Debug)]
pub struct AddCommentNotificationArgs {
    pub issue_id_or_key: String,
    pub comment_id: u32,
    /// Comma-separated user ids.
    pub users: String,
}

/// Filters of the issue list.
#[derive(Debug)]
pub struct IssueListCliParams {
    pub project_id: Option<Vec<String>>,
    pub assignee_id: Option<Vec<String>>,
    pub status_id: Option<Vec<String>>,
    pub keyword: Option<String>,
    pub count: u32,
    pub start_date_since: Option<String>,
    pub start_date_until: Option<String>,
    pub due_date_since: Option<String>,
    pub due_date_until: Option<String>,
}

impl Default for IssueListCliParams {
    fn default() -> (r: Self)
        ensures
            r.project_id is None,
            r.assignee_id is None,
            r.status_id is None,
            r.keyword is None,
            r.count == 0,
            r.start_date_since is None,
            r.start_date_until is None,
            r.due_date_since is None,
            r.due_date_until is None,
    {
        IssueListCliParams {
            project_id: None,
            assignee_id: None,
            status_id: None,
            keyword: None,
            count: 0,
            start_date_since: None,
            start_date_until: None,
            due_date_since: None,
            due_date_until: None,
        }
    }
}

/// The `rate-limit` subcommands.
#[derive(Debug, Clone, Copy, PartialEq, Eq)]
pub enum RateLimitCommand {
    /// Shows the current rate limits.
    Get,
}

/// Arguments of the `space` command.
#[derive(Debug)]
pub struct SpaceArgs {
    pub command: SpaceCommands,
}

/// The `space` subcommands.
#[derive(Debug)]
pub enum SpaceCommands {
    Logo { output: PathBuf },
    DiskUsage { format: String },
    Licence { format: String },
    UploadAttachment { file: PathBuf },
    UpdateNotification { content: String },
}

} // verus!
