use backlog_mcp::error::{ApiFailure, ApiFailureKind, Error, ToolErrorCode};

fn api(kind: ApiFailureKind, message: &str) -> Error {
    Error::Api(ApiFailure { kind, message: message.to_string() })
}

#[test]
fn error_messages() {
    assert_eq!(Error::Parameter("bad".into()).message(), "Parameter error: bad");
    assert_eq!(Error::Server("down".into()).message(), "Server error: down");
    assert_eq!(api(ApiFailureKind::Other, "boom").message(), "API error: boom");
    assert_eq!(
        Error::NothingToUpdate.message(),
        "Nothing to update. Please provide a summary and/or a description."
    );
    assert_eq!(
        Error::PullRequestAttachmentNotFound {
            project_id_or_key: "PRJ".into(),
            repo_id_or_name: "repo".into(),
            pr_number: "12".into(),
            attachment_id: 345,
        }
        .message(),
        "Pull request attachment with ID '345' not found in pull request #12 of repository 'repo' in project 'PRJ'."
    );
    assert_eq!(
        Error::ProjectAccessDenied {
            project: "OTHER".into(),
            allowed_projects: vec!["TEST".into(), "SECOND".into()],
        }
        .message(),
        "Access denied to project 'OTHER'. Allowed projects: [\"TEST\", \"SECOND\"]"
    );
    assert_eq!(Error::ProjectNotFound("no such project".into()).message(), "no such project");
}

#[test]
fn tool_error_codes_and_messages() {
    let e = Error::Server("down".into()).to_tool_error();
    assert_eq!(e.code, ToolErrorCode::InternalError);
    assert_eq!(e.message, "down");
    let e = Error::Parameter("bad".into()).to_tool_error();
    assert_eq!(e.code, ToolErrorCode::InvalidParams);
    assert_eq!(e.message, "bad");
    let e = api(
        ApiFailureKind::HttpStatus { status: 404, errors_summary: "No project.".into() },
        "ignored",
    )
    .to_tool_error();
    assert_eq!(e.code, ToolErrorCode::InvalidRequest);
    assert_eq!(e.message, "Backlog API Error (HTTP 404): No project.");
    let e = api(ApiFailureKind::Json { parse_error: "eof".into() }, "x").to_tool_error();
    assert_eq!(e.code, ToolErrorCode::InternalError);
    assert!(e.message.starts_with("Failed to parse a successful response from Backlog API: eof. "));
    let e = api(ApiFailureKind::Other, "timeout").to_tool_error();
    assert_eq!(e.code, ToolErrorCode::InvalidRequest);
    assert_eq!(e.message, "timeout");
    let e = Error::NothingToUpdate.to_tool_error();
    assert_eq!(e.code, ToolErrorCode::InvalidParams);
}

#[test]
fn milestone_reports_suggestions() {
    let e = Error::MilestoneNotFoundByName {
        project_id_or_key: "PRJ".into(),
        original_name: "v1".into(),
        suggestions: Some(vec!["v1.0".into()]),
    }
    .to_tool_error();
    assert_eq!(e.code, ToolErrorCode::InvalidParams);
    assert_eq!(
        e.message,
        "Milestone named 'v1' not found in project 'PRJ'. Did you mean one of: [\"v1.0\"]? You can list all available milestones using the 'get_version_milestone_list' tool for project 'PRJ'."
    );
    let e = Error::MilestoneNotFoundByName {
        project_id_or_key: "PRJ".into(),
        original_name: "v1".into(),
        suggestions: Some(vec![]),
    }
    .to_tool_error();
    assert_eq!(
        e.message,
        "Milestone named 'v1' not found in project 'PRJ'. You can list all available milestones using the 'get_version_milestone_list' tool for project 'PRJ'."
    );
    let e = Error::MilestoneNotFoundByName {
        project_id_or_key: "PRJ".into(),
        original_name: "v1".into(),
        suggestions: None,
    };
    assert_eq!(e.message(), "Milestone named 'v1' not found in project 'PRJ'.");
}
