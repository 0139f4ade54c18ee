use backlog_mcp::custom_field_converter::{
    convert_value_to_input, parse_multiple_list_value, parse_single_list_value,
    resolve_custom_fields, CustomFieldInput, CustomFieldSettings, CustomFieldType, ListItem,
    NamedValue,
};
use backlog_mcp::error::Error;
use backlog_mcp::json::JsonValue;

fn text(s: &str) -> JsonValue {
    JsonValue::String(s.to_string())
}

fn object(members: Vec<(&str, JsonValue)>) -> JsonValue {
    JsonValue::Object(members.into_iter().map(|(k, v)| (k.to_string(), v)).collect())
}

fn items(names: &[(u32, &str)]) -> Vec<ListItem> {
    names
        .iter()
        .map(|(id, name)| ListItem { id: *id, name: name.to_string() })
        .collect()
}

fn server_message(e: Error) -> String {
    match e {
        Error::Server(m) => m,
        other => panic!("expected a server error, got {other:?}"),
    }
}

#[test]
fn test_parse_single_list_value_string() {
    let value = text("High");
    let (name, other) = parse_single_list_value(&value, "Priority").unwrap();
    assert_eq!(name, "High");
    assert_eq!(other, None);
}

#[test]
fn test_parse_single_list_value_object() {
    let value = object(vec![("name", text("Other")), ("other", text("Custom value"))]);
    let (name, other) = parse_single_list_value(&value, "Priority").unwrap();
    assert_eq!(name, "Other");
    assert_eq!(other, Some("Custom value".to_string()));
}

#[test]
fn test_parse_multiple_list_value_array() {
    let value = JsonValue::Array(vec![text("Backend"), text("Frontend")]);
    let (names, other) = parse_multiple_list_value(&value, "Tags").unwrap();
    assert_eq!(names, vec!["Backend", "Frontend"]);
    assert_eq!(other, None);
}

#[test]
fn test_parse_multiple_list_value_object() {
    let value = object(vec![
        ("items", JsonValue::Array(vec![text("Backend"), text("Frontend")])),
        ("other", text("Custom tag")),
    ]);
    let (names, other) = parse_multiple_list_value(&value, "Tags").unwrap();
    assert_eq!(names, vec!["Backend", "Frontend"]);
    assert_eq!(other, Some("Custom tag".to_string()));
}

#[test]
fn single_list_value_errors() {
    let missing_name = object(vec![("other", text("x"))]);
    assert_eq!(
        server_message(parse_single_list_value(&missing_name, "Priority").unwrap_err()),
        "Custom field 'Priority' object must have a 'name' field"
    );
    assert_eq!(
        server_message(parse_single_list_value(&JsonValue::Bool(true), "Priority").unwrap_err()),
        "Custom field 'Priority' expects a string or object with 'name' field"
    );
    // A name that is not a string counts as missing.
    let numeric_name = object(vec![("name", JsonValue::Null)]);
    assert!(parse_single_list_value(&numeric_name, "Priority").is_err());
    // An `other` that is not a string is left out.
    let odd_other = object(vec![("name", text("A")), ("other", JsonValue::Null)]);
    assert_eq!(
        parse_single_list_value(&odd_other, "Priority").unwrap(),
        ("A".to_string(), None)
    );
}

#[test]
fn multiple_list_value_errors() {
    assert_eq!(
        server_message(
            parse_multiple_list_value(&JsonValue::Array(vec![text("a"), JsonValue::Null]), "Tags")
                .unwrap_err()
        ),
        "Custom field 'Tags' array must contain strings"
    );
    assert_eq!(
        server_message(
            parse_multiple_list_value(&object(vec![("other", text("x"))]), "Tags").unwrap_err()
        ),
        "Custom field 'Tags' object must have an 'items' array"
    );
    assert_eq!(
        server_message(
            parse_multiple_list_value(
                &object(vec![("items", JsonValue::Array(vec![JsonValue::Bool(false)]))]),
                "Tags"
            )
            .unwrap_err()
        ),
        "Custom field 'Tags' items array must contain strings"
    );
    assert_eq!(
        server_message(parse_multiple_list_value(&text("x"), "Tags").unwrap_err()),
        "Custom field 'Tags' expects an array or object with 'items' array"
    );
}

fn field(id: u32, name: &str, settings: CustomFieldSettings) -> CustomFieldType {
    CustomFieldType { id, name: name.to_string(), settings }
}

#[test]
fn converts_text_and_rejects_other_values() {
    let f = field(1, "Note", CustomFieldSettings::Text);
    match convert_value_to_input(&f, &text("hello"), "Note", false).unwrap() {
        CustomFieldInput::Text(s) => assert_eq!(s, "hello"),
        other => panic!("unexpected {other:?}"),
    }
    assert_eq!(
        server_message(convert_value_to_input(&f, &JsonValue::Null, "Note", false).unwrap_err()),
        "Custom field 'Note' expects a string value"
    );
    let area = field(2, "Body", CustomFieldSettings::TextArea);
    assert!(matches!(
        convert_value_to_input(&area, &text("x"), "Body", false).unwrap(),
        CustomFieldInput::TextArea(_)
    ));
}

#[test]
fn converts_numbers_and_dates() {
    let f = field(3, "Score", CustomFieldSettings::Numeric);
    let n = serde_json::Number::from(42);
    match convert_value_to_input(&f, &JsonValue::Number(n.clone()), "Score", false).unwrap() {
        CustomFieldInput::Numeric(m) => assert_eq!(m, n),
        other => panic!("unexpected {other:?}"),
    }
    assert_eq!(
        server_message(convert_value_to_input(&f, &text("42"), "Score", false).unwrap_err()),
        "Custom field 'Score' expects a numeric value"
    );
    let d = field(4, "Due", CustomFieldSettings::Date);
    match convert_value_to_input(&d, &text("2024-01-15"), "Due", true).unwrap() {
        CustomFieldInput::Date(s) => assert_eq!(s, "2024-01-15"),
        other => panic!("unexpected {other:?}"),
    }
    assert_eq!(
        server_message(convert_value_to_input(&d, &JsonValue::Bool(true), "Due", false).unwrap_err()),
        "Custom field 'Due' expects a date string in yyyy-MM-dd format"
    );
    // A string that does not read as a date is refused.
    assert_eq!(
        server_message(convert_value_to_input(&d, &text("not a date"), "Due", false).unwrap_err()),
        "Custom field 'Due' expects date in yyyy-MM-dd format"
    );
}

#[test]
fn resolves_list_options_to_ids() {
    let single = field(
        5,
        "Priority",
        CustomFieldSettings::SingleList(items(&[(10, "Low"), (11, "High")])),
    );
    match convert_value_to_input(&single, &text("High"), "Priority", false).unwrap() {
        CustomFieldInput::SingleList { id, other_value } => {
            assert_eq!(id, 11);
            assert_eq!(other_value, None);
        }
        other => panic!("unexpected {other:?}"),
    }
    assert_eq!(
        server_message(convert_value_to_input(&single, &text("Mid"), "Priority", false).unwrap_err()),
        "Custom field 'Priority': option 'Mid' not found. Available options: 'Low', 'High'"
    );

    let multiple = field(
        6,
        "Tags",
        CustomFieldSettings::MultipleList(items(&[(20, "Backend"), (21, "Frontend")])),
    );
    let value = object(vec![
        ("items", JsonValue::Array(vec![text("Frontend"), text("Backend")])),
        ("other", text("Ops")),
    ]);
    match convert_value_to_input(&multiple, &value, "Tags", false).unwrap() {
        CustomFieldInput::MultipleList { ids, other_value } => {
            assert_eq!(ids, vec![21, 20]);
            assert_eq!(other_value, Some("Ops".to_string()));
        }
        other => panic!("unexpected {other:?}"),
    }

    let checkbox = field(7, "Flags", CustomFieldSettings::Checkbox(items(&[(30, "A"), (31, "B")])));
    match convert_value_to_input(&checkbox, &JsonValue::Array(vec![text("B")]), "Flags", false).unwrap() {
        CustomFieldInput::CheckBox(ids) => assert_eq!(ids, vec![31]),
        other => panic!("unexpected {other:?}"),
    }
    assert_eq!(
        server_message(
            convert_value_to_input(&checkbox, &JsonValue::Array(vec![JsonValue::Null]), "Flags", false)
                .unwrap_err()
        ),
        "Custom field 'Flags' expects an array of strings"
    );
    assert_eq!(
        server_message(convert_value_to_input(&checkbox, &text("A"), "Flags", false).unwrap_err()),
        "Custom field 'Flags' expects an array of strings"
    );

    let radio = field(8, "Pick", CustomFieldSettings::Radio(items(&[(40, "Yes")])));
    match convert_value_to_input(&radio, &text("Yes"), "Pick", false).unwrap() {
        CustomFieldInput::Radio { id, other_value } => {
            assert_eq!(id, 40);
            assert_eq!(other_value, None);
        }
        other => panic!("unexpected {other:?}"),
    }
    assert_eq!(
        server_message(convert_value_to_input(&radio, &text("No"), "Pick", false).unwrap_err()),
        "Custom field 'Pick': option 'No' not found. Available options: 'Yes'"
    );
}

#[test]
fn resolves_fields_by_name_and_reports_unknown_ones() {
    let fields = vec![
        field(1, "Note", CustomFieldSettings::Text),
        field(3, "Score", CustomFieldSettings::Numeric),
    ];
    let given = vec![
        named("Score", JsonValue::Number(serde_json::Number::from(7))),
        named("Note", text("hi")),
    ];
    let resolved = resolve_custom_fields(&fields, &given).unwrap();
    assert_eq!(resolved.len(), 2);
    assert_eq!(resolved[0].0, 3);
    assert_eq!(resolved[1].0, 1);

    let unknown = vec![named("Missing", text("x"))];
    assert_eq!(
        server_message(resolve_custom_fields(&fields, &unknown).unwrap_err()),
        "Custom field 'Missing' not found in project"
    );
    // A value of the wrong type is reported with the field's name.
    let wrong = vec![named("Score", text("x"))];
    assert_eq!(
        server_message(resolve_custom_fields(&fields, &wrong).unwrap_err()),
        "Custom field 'Score' expects a numeric value"
    );
}

fn named(name: &str, value: JsonValue) -> NamedValue {
    NamedValue { name: name.to_string(), value, reads_as_date: false }
}

#[test]
fn resolving_a_date_follows_the_date_reading() {
    let fields = vec![field(4, "Due", CustomFieldSettings::Date)];
    let read = vec![NamedValue { name: "Due".into(), value: text("2024-06-24"), reads_as_date: true }];
    let resolved = resolve_custom_fields(&fields, &read).unwrap();
    assert!(matches!(&resolved[0], (4, CustomFieldInput::Date(s)) if s == "2024-06-24"));
    let unread = vec![NamedValue { name: "Due".into(), value: text("24/06/2024"), reads_as_date: false }];
    assert_eq!(
        server_message(resolve_custom_fields(&fields, &unread).unwrap_err()),
        "Custom field 'Due' expects date in yyyy-MM-dd format"
    );
}
