use backlog_mcp::custom_field_converter::CustomFieldSettings;
use backlog_mcp::document_query::{
    document_list_query, DocumentListQuery, DocumentOrder, DocumentQueryError, DocumentSortKey,
};
use backlog_mcp::document_scope::projects_to_check;
use backlog_mcp::document_tree::{tree_lines, DocumentTreeNode};
use backlog_mcp::error::Error;
use backlog_mcp::field_plan::{
    applicable_issue_types, date_settings_given, plan_field_kind, settings_label, FieldKind,
    FieldPlanError,
};
use backlog_mcp::ids::ProjectIdOrKey;
use backlog_mcp::issue_requests::{
    check_update_request, issue_creation_plan, project_source, IssueCreationError,
    IssueCreationPlan, ProjectSource,
};
use backlog_mcp::tool_names::{prefixed_tool_name, prefixed_tool_names};

#[test]
fn field_kinds_from_type_names() {
    assert!(matches!(plan_field_kind("text", &None), Ok(FieldKind::Text)));
    assert!(matches!(plan_field_kind("textarea", &None), Ok(FieldKind::TextArea)));
    assert!(matches!(plan_field_kind("numeric", &None), Ok(FieldKind::Numeric)));
    assert!(matches!(plan_field_kind("date", &None), Ok(FieldKind::Date)));
    assert!(matches!(plan_field_kind("checkbox", &None), Ok(FieldKind::Checkbox)));
    assert!(matches!(plan_field_kind("radio", &None), Ok(FieldKind::Radio)));
    match plan_field_kind("single-list", &Some("High, Low".to_string())) {
        Ok(FieldKind::SingleList(items)) => assert_eq!(items, vec!["High", "Low"]),
        other => panic!("unexpected {other:?}"),
    }
    match plan_field_kind("multiple-list", &Some("a,b ,c".to_string())) {
        Ok(FieldKind::MultipleList(items)) => assert_eq!(items, vec!["a", "b", "c"]),
        other => panic!("unexpected {other:?}"),
    }
    assert_eq!(
        plan_field_kind("single-list", &None).unwrap_err(),
        FieldPlanError::ItemsRequired("single-list".to_string())
    );
    assert_eq!(
        plan_field_kind("multiple-list", &None).unwrap_err(),
        FieldPlanError::ItemsRequired("multiple-list".to_string())
    );
    assert_eq!(
        plan_field_kind("list", &None).unwrap_err(),
        FieldPlanError::InvalidType("list".to_string())
    );
}

#[test]
fn applicable_types_skip_bad_pieces() {
    assert_eq!(applicable_issue_types(&None), None);
    assert_eq!(applicable_issue_types(&Some("1, 2".to_string())), Some(vec![1, 2]));
    assert_eq!(applicable_issue_types(&Some("x, 3".to_string())), Some(vec![3]));
    assert_eq!(applicable_issue_types(&Some("x,y".to_string())), None);
}

#[test]
fn date_settings_are_sent_when_any_is_given() {
    assert!(!date_settings_given(&None, &None, None, &None, None));
    assert!(date_settings_given(&None, &None, None, &None, Some(3)));
    assert!(date_settings_given(&Some("2024-01-01".into()), &None, None, &None, None));
}

#[test]
fn field_type_labels() {
    assert_eq!(settings_label(&CustomFieldSettings::Text), "Text");
    assert_eq!(settings_label(&CustomFieldSettings::TextArea), "TextArea");
    assert_eq!(settings_label(&CustomFieldSettings::SingleList(vec![])), "SingleList");
    assert_eq!(settings_label(&CustomFieldSettings::Radio(vec![])), "Radio");
}

#[test]
fn document_listing_options() {
    let q = document_list_query(
        &ProjectIdOrKey::Id(12),
        &Some("updated".into()),
        &Some("asc".into()),
    )
    .unwrap();
    assert_eq!(
        q,
        DocumentListQuery {
            project_id: 12,
            sort: Some(DocumentSortKey::Updated),
            order: Some(DocumentOrder::Asc),
        }
    );
    let q = document_list_query(&ProjectIdOrKey::EitherIdOrKey(7, "7".into()), &None, &None)
        .unwrap();
    assert_eq!(q, DocumentListQuery { project_id: 7, sort: None, order: None });
    assert_eq!(
        document_list_query(&ProjectIdOrKey::Key("PRJ".into()), &Some("bad".into()), &None)
            .unwrap_err(),
        DocumentQueryError::KeyNotSupported("PRJ".into())
    );
    assert_eq!(
        document_list_query(&ProjectIdOrKey::Id(1), &Some("name".into()), &Some("up".into()))
            .unwrap_err(),
        DocumentQueryError::InvalidSort("name".into())
    );
    assert_eq!(
        document_list_query(&ProjectIdOrKey::Id(1), &Some("created".into()), &Some("up".into()))
            .unwrap_err(),
        DocumentQueryError::InvalidOrder("up".into())
    );
}

#[test]
fn document_projects_are_checked_once_each() {
    assert_eq!(projects_to_check(&vec![1, 1, 2, 2]), vec![1, 2]);
    assert_eq!(projects_to_check(&vec![3, 1, 3, 2, 1]), vec![3, 1, 2]);
    assert_eq!(projects_to_check(&vec![]), Vec::<u32>::new());
}

#[test]
fn update_requests_must_change_something() {
    assert!(matches!(check_update_request(&None, &None, &None), Err(Error::NothingToUpdate)));
    assert!(check_update_request(&Some("s".into()), &None, &None).is_ok());
    assert!(check_update_request(&None, &Some("d".into()), &None).is_ok());
    assert!(check_update_request(&None, &None, &Some(vec![])).is_ok());
}

#[test]
fn new_issue_project_source() {
    assert_eq!(project_source(&ProjectIdOrKey::Id(5)), ProjectSource::Known(5));
    assert_eq!(
        project_source(&ProjectIdOrKey::EitherIdOrKey(6, "6".into())),
        ProjectSource::Known(6)
    );
    assert_eq!(
        project_source(&ProjectIdOrKey::Key("PRJ".into())),
        ProjectSource::LookUpKey("PRJ".into())
    );
}

#[test]
fn tool_names_carry_the_prefix() {
    assert_eq!(prefixed_tool_name("backlog_", "issue_add"), "backlog_issue_add");
    assert_eq!(prefixed_tool_name("", "issue_add"), "issue_add");
    let names = vec!["document_list_get".to_string(), "document_count_get".to_string()];
    assert_eq!(
        prefixed_tool_names("test_", &names),
        vec!["test_document_list_get", "test_document_count_get"]
    );
    let renamed = prefixed_tool_names("p_", &names);
    assert_ne!(renamed[0], renamed[1]);
}

#[test]
fn document_tree_lines_are_depth_first() {
    let tree = vec![
        node("a", Some("📘"), vec![node("a1", None, vec![node("a11", None, vec![])])]),
        node("b", None, vec![]),
    ];
    let lines = tree_lines(&tree);
    let shown: Vec<(usize, &str, &str)> =
        lines.iter().map(|l| (l.depth, l.emoji.as_str(), l.id.as_str())).collect();
    assert_eq!(
        shown,
        vec![(0, "📘", "a"), (1, "📄", "a1"), (2, "📄", "a11"), (0, "📄", "b")]
    );
    assert_eq!(lines[1].name, "doc a1");
    assert!(tree_lines(&vec![]).is_empty());
}

fn node(id: &str, emoji: Option<&str>, children: Vec<DocumentTreeNode>) -> DocumentTreeNode {
    DocumentTreeNode {
        id: id.to_string(),
        name: format!("doc {id}"),
        emoji: emoji.map(|e| e.to_string()),
        children,
    }
}

#[test]
fn issue_creation_needs_a_project_number() {
    assert_eq!(
        issue_creation_plan(&ProjectIdOrKey::Key("PRJ".into()), &None, &None),
        Err(IssueCreationError::KeyNotSupported)
    );
    assert_eq!(
        issue_creation_plan(
            &ProjectIdOrKey::Id(12),
            &Some("1, 2".into()),
            &Some("3,x".into())
        ),
        Ok(IssueCreationPlan { project_id: 12, category_ids: Some(vec![1, 2]), milestone_ids: None })
    );
    assert_eq!(
        issue_creation_plan(&ProjectIdOrKey::EitherIdOrKey(7, "7".into()), &None, &Some("9".into())),
        Ok(IssueCreationPlan { project_id: 7, category_ids: None, milestone_ids: Some(vec![9]) })
    );
}
