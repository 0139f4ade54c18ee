use backlog_mcp::ids::{
    issue_id_or_key, parse_each_id, parse_id_list, parse_id_list_lenient, parse_u32, split_items,
    IssueIdOrKey,
};

#[test]
fn reads_u32_as_str_parse_does() {
    assert_eq!(parse_u32("42"), Some(42));
    assert_eq!(parse_u32("+7"), Some(7));
    assert_eq!(parse_u32("4294967295"), Some(u32::MAX));
    assert_eq!(parse_u32("4294967296"), None);
    assert_eq!(parse_u32(""), None);
    assert_eq!(parse_u32("+"), None);
    assert_eq!(parse_u32("-1"), None);
    assert_eq!(parse_u32(" 1"), None);
    assert_eq!(parse_u32("1a"), None);
}

#[test]
fn strict_id_lists_trim_each_piece() {
    assert_eq!(parse_id_list("1, 2,3 "), Ok(vec![1, 2, 3]));
    assert_eq!(parse_id_list("5"), Ok(vec![5]));
    assert_eq!(parse_id_list("1, x ,3"), Err("x".to_string()));
    assert_eq!(parse_id_list("1,,3"), Err(String::new()));
    assert_eq!(parse_id_list(""), Err(String::new()));
}

#[test]
fn lenient_id_lists_skip_bad_pieces() {
    assert_eq!(parse_id_list_lenient("1, x, 3"), vec![1, 3]);
    assert_eq!(parse_id_list_lenient(""), Vec::<u32>::new());
    assert_eq!(parse_id_list_lenient(" 9 ,,"), vec![9]);
}

#[test]
fn items_are_split_and_trimmed() {
    assert_eq!(split_items("High, Low ,Mid"), vec!["High", "Low", "Mid"]);
    assert_eq!(split_items("a,,b"), vec!["a", "", "b"]);
    assert_eq!(split_items(""), vec![""]);
    assert_eq!(split_items("  one  "), vec!["one"]);
}

#[test]
fn issue_references() {
    assert_eq!(issue_id_or_key("123"), IssueIdOrKey::Id(123));
    assert_eq!(issue_id_or_key("PRJ-1"), IssueIdOrKey::Key("PRJ-1".to_string()));
    assert_eq!(issue_id_or_key("99999999999"), IssueIdOrKey::Key("99999999999".to_string()));
}

#[test]
fn every_text_must_be_an_id() {
    let good = vec!["1".to_string(), "20".to_string()];
    assert_eq!(parse_each_id(&good), Ok(vec![1, 20]));
    let bad = vec!["1".to_string(), " 2".to_string(), "x".to_string()];
    assert_eq!(parse_each_id(&bad), Err(1));
    assert_eq!(parse_each_id(&vec![]), Ok(vec![]));
}
