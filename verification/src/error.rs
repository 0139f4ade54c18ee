//! The library's error type, its message, and how it is reported to a tool
//! client.

use crate::decimal::{decimal, write_decimal};
use vstd::prelude::*;

verus! {

/// The kind of a tool error, as the protocol numbers them.
#[derive(Debug, Clone, Copy, PartialEq, Eq)]
pub enum ToolErrorCode {
    InvalidRequest,
    InvalidParams,
    InternalError,
}

/// An error reported to a tool client: its kind and message.
#[derive(Debug)]
pub struct ToolError {
    pub code: ToolErrorCode,
    pub message: String,
}

/// How an API call failed, as far as error reporting tells failures apart.
#[derive(Debug)]
pub enum ApiFailureKind {
    /// The server answered with an error status.
    HttpStatus { status: u16, errors_summary: String },
    /// A successful response could not be parsed; the parser's message.
    Json { parse_error: String },
    /// Any other failure.
    Other,
}

/// A failed API call: its kind and the message the client library gives.
#[derive(Debug)]
pub struct ApiFailure {
    pub kind: ApiFailureKind,
    pub message: String,
}

/// Errors of the tool server. Project and repository references are carried
/// as they are shown.
#[derive(Debug)]
pub enum Error {
    Api(ApiFailure),
    Parameter(String),
    Server(String),
    MilestoneNotFoundByName {
        project_id_or_key: String,
        original_name: String,
        suggestions: Option<Vec<String>>,
    },
    NothingToUpdate,
    PullRequestAttachmentNotFound {
        project_id_or_key: String,
        repo_id_or_name: String,
        pr_number: String,
        attachment_id: u32,
    },
    ProjectAccessDenied { project: String, allowed_projects: Vec<String> },
    ProjectNotFound(String),
}

/// The texts of a list of strings.
pub open spec fn texts_of(v: Seq<String>) -> Seq<Seq<char>> {
    v.map_values(|s: String| s@)
}

/// How `{:?}` shows a list of strings.
pub uninterp spec fn debug_list_text(items: Seq<Seq<char>>) -> Seq<char>;

/// Wrapper around `format!("{:?}", ..)` on a list of strings.
#[verifier::external_body]
fn debug_list(items: &Vec<String>) -> (r: String)
    ensures
        r@ == debug_list_text(texts_of(items@)),
{
    format!("{:?}", items)
}

/// The message of an error.
pub open spec fn error_text(e: Error) -> Seq<char> {
    match e {
        Error::Api(failure) => "API error: "@ + failure.message@,
        Error::Parameter(m) => "Parameter error: "@ + m@,
        Error::Server(m) => "Server error: "@ + m@,
        Error::MilestoneNotFoundByName { project_id_or_key, original_name, .. } => "Milestone named '"@
            + original_name@ + "' not found in project '"@ + project_id_or_key@ + "'."@,
        Error::NothingToUpdate => "Nothing to update. Please provide a summary and/or a description."@,
        Error::PullRequestAttachmentNotFound {
            project_id_or_key,
            repo_id_or_name,
            pr_number,
            attachment_id,
        } => "Pull request attachment with ID '"@ + decimal(attachment_id as nat)
            + "' not found in pull request #"@ + pr_number@ + " of repository '"@
            + repo_id_or_name@ + "' in project '"@ + project_id_or_key@ + "'."@,
        Error::ProjectAccessDenied { project, allowed_projects } => "Access denied to project '"@
            + project@ + "'. Allowed projects: "@ + debug_list_text(texts_of(allowed_projects@)),
        Error::ProjectNotFound(m) => m@,
    }
}

/// The message a milestone that was not found is reported with: suggestions
/// when there are any, and where to list the milestones.
pub open spec fn milestone_report(
    project: Seq<char>,
    name: Seq<char>,
    suggestions: Option<Vec<String>>,
) -> Seq<char> {
    let head = "Milestone named '"@ + name + "' not found in project '"@ + project + "'."@;
    let hint = if suggestions is Some && suggestions->0@.len() > 0 {
        " Did you mean one of: "@ + debug_list_text(texts_of(suggestions->0@)) + "?"@
    } else {
        Seq::empty()
    };
    head + hint + " You can list all available milestones using the 'get_version_milestone_list' tool for project '"@
        + project + "'."@
}

/// The kind an error is reported as.
pub open spec fn report_code(e: Error) -> ToolErrorCode {
    match e {
        Error::Server(_) => ToolErrorCode::InternalError,
        Error::Parameter(_) => ToolErrorCode::InvalidParams,
        Error::Api(failure) => match failure.kind {
            ApiFailureKind::Json { .. } => ToolErrorCode::InternalError,
            _ => ToolErrorCode::InvalidRequest,
        },
        Error::MilestoneNotFoundByName { .. } => ToolErrorCode::InvalidParams,
        Error::NothingToUpdate => ToolErrorCode::InvalidParams,
        Error::PullRequestAttachmentNotFound { .. } => ToolErrorCode::InvalidRequest,
        Error::ProjectAccessDenied { .. } => ToolErrorCode::InvalidParams,
        Error::ProjectNotFound(_) => ToolErrorCode::InvalidParams,
    }
}

/// The message an error is reported with.
pub open spec fn report_message(e: Error) -> Seq<char> {
    match e {
        Error::Server(m) => m@,
        Error::Parameter(m) => m@,
        Error::Api(failure) => match failure.kind {
            ApiFailureKind::HttpStatus { status, errors_summary } => "Backlog API Error (HTTP "@
                + decimal(status as nat) + "): "@ + errors_summary@,
            ApiFailureKind::Json { parse_error } => "Failed to parse a successful response from Backlog API: "@
                + parse_error@
                + ". This might indicate an unexpected API format change or a misconfiguration (e.g., wrong server URL pointing to a non-Backlog service that returned 200 OK with different JSON). Please verify settings."@,
            ApiFailureKind::Other => failure.message@,
        },
        Error::MilestoneNotFoundByName { project_id_or_key, original_name, suggestions } =>
            milestone_report(project_id_or_key@, original_name@, suggestions),
        _ => error_text(e),
    }
}

impl Error {
    /// The message of the error.
    pub fn message(&self) -> (r: String)
        ensures
            r@ == error_text(*self),
    {
        match self {
            Error::Api(failure) => {
                let mut s = String::from_str("API error: ");
                s.append(failure.message.as_str());
                s
            },
            Error::Parameter(m) => {
                let mut s = String::from_str("Parameter error: ");
                s.append(m.as_str());
                s
            },
            Error::Server(m) => {
                let mut s = String::from_str("Server error: ");
                s.append(m.as_str());
                s
            },
            Error::MilestoneNotFoundByName { project_id_or_key, original_name, .. } => {
                let mut s = String::from_str("Milestone named '");
                s.append(original_name.as_str());
                s.append("' not found in project '");
                s.append(project_id_or_key.as_str());
                s.append("'.");
                s
            },
            Error::NothingToUpdate => String::from_str(
                "Nothing to update. Please provide a summary and/or a description.",
            ),
            Error::PullRequestAttachmentNotFound {
                project_id_or_key,
                repo_id_or_name,
                pr_number,
                attachment_id,
            } => {
                let mut s = String::from_str("Pull request attachment with ID '");
                write_decimal(&mut s, *attachment_id as u128);
                s.append("' not found in pull request #");
                s.append(pr_number.as_str());
                s.append(" of repository '");
                s.append(repo_id_or_name.as_str());
                s.append("' in project '");
                s.append(project_id_or_key.as_str());
                s.append("'.");
                s
            },
            Error::ProjectAccessDenied { project, allowed_projects } => {
                let mut s = String::from_str("Access denied to project '");
                s.append(project.as_str());
                s.append("'. Allowed projects: ");
                let listed = debug_list(allowed_projects);
                s.append(listed.as_str());
                s
            },
            Error::ProjectNotFound(m) => m.clone(),
        }
    }

    /// How the error is reported to a tool client.
    pub fn to_tool_error(self) -> (r: ToolError)
        ensures
            r.code == report_code(self),
            r.message@ == report_message(self),
    {
        let code = Self::code_of(&self);
        let message = match &self {
            Error::Server(m) => m.clone(),
            Error::Parameter(m) => m.clone(),
            Error::Api(failure) => match &failure.kind {
                ApiFailureKind::HttpStatus { status, errors_summary } => {
                    let mut s = String::from_str("Backlog API Error (HTTP ");
                    write_decimal(&mut s, *status as u128);
                    s.append("): ");
                    s.append(errors_summary.as_str());
                    s
                },
                ApiFailureKind::Json { parse_error } => {
                    let mut s = String::from_str("Failed to parse a successful response from Backlog API: ");
                    s.append(parse_error.as_str());
                    s.append(
                        ". This might indicate an unexpected API format change or a misconfiguration (e.g., wrong server URL pointing to a non-Backlog service that returned 200 OK with different JSON). Please verify settings.",
                    );
                    s
                },
                ApiFailureKind::Other => failure.message.clone(),
            },
            Error::MilestoneNotFoundByName { project_id_or_key, original_name, suggestions } => {
                let mut s = String::from_str("Milestone named '");
                s.append(original_name.as_str());
                s.append("' not found in project '");
                s.append(project_id_or_key.as_str());
                s.append("'.");
                if let Some(suggs) = suggestions {
                    if suggs.len() > 0 {
                        s.append(" Did you mean one of: ");
                        let listed = debug_list(suggs);
                        s.append(listed.as_str());
                        s.append("?");
                    }
                }
                s.append(
                    " You can list all available milestones using the 'get_version_milestone_list' tool for project '",
                );
                s.append(project_id_or_key.as_str());
                s.append("'.");
                s
            },
            _ => self.message(),
        };
        ToolError { code, message }
    }

    /// The kind the error is reported as.
    fn code_of(e: &Error) -> (r: ToolErrorCode)
        ensures
            r == report_code(*e),
    {
        match e {
            Error::Server(_) => ToolErrorCode::InternalError,
            Error::Parameter(_) => ToolErrorCode::InvalidParams,
            Error::Api(failure) => match &failure.kind {
                ApiFailureKind::Json { .. } => ToolErrorCode::InternalError,
                _ => ToolErrorCode::InvalidRequest,
            },
            Error::MilestoneNotFoundByName { .. } => ToolErrorCode::InvalidParams,
            Error::NothingToUpdate => ToolErrorCode::InvalidParams,
            Error::PullRequestAttachmentNotFound { .. } => ToolErrorCode::InvalidRequest,
            Error::ProjectAccessDenied { .. } => ToolErrorCode::InvalidParams,
            Error::ProjectNotFound(_) => ToolErrorCode::InvalidParams,
        }
    }
}

/// Law: an error caused by the caller's request (a bad parameter, a project
/// that is not found or not allowed, an update that changes nothing, a
/// milestone that is not found) is reported as invalid parameters; only a
/// server error and a successful API response that could not be parsed are
/// reported as internal errors.
pub proof fn law_error_kinds(e: Error)
    ensures
        (e is Parameter || e is ProjectNotFound || e is ProjectAccessDenied || e is NothingToUpdate
            || e is MilestoneNotFoundByName) ==> report_code(e) == ToolErrorCode::InvalidParams,
        report_code(e) == ToolErrorCode::InternalError <==> (e is Server || (e matches Error::Api(f)
            && f.kind is Json)),
        e is PullRequestAttachmentNotFound ==> report_code(e) == ToolErrorCode::InvalidRequest,
        (e matches Error::Api(f) && !(f.kind is Json)) ==> report_code(e) == ToolErrorCode::InvalidRequest,
{
}

} // verus!
