//! Turning custom-field values given by field name into the inputs the issue
//! endpoints take: each value is checked against the field's type and list
//! options are resolved to their ids.

use crate::error::Error;
use crate::json::{get_member, get_string_member, member, string_member, JsonValue};
use crate::text::str_equal;
use vstd::prelude::*;

verus! {

/// An option of a list-type custom field.
#[derive(Debug)]
pub struct ListItem {
    pub id: u32,
    pub name: String,
}

/// The type of a custom field, with the options of list types.
#[derive(Debug)]
pub enum CustomFieldSettings {
    Text,
    TextArea,
    Numeric,
    Date,
    SingleList(Vec<ListItem>),
    MultipleList(Vec<ListItem>),
    Checkbox(Vec<ListItem>),
    Radio(Vec<ListItem>),
}

/// A custom field defined in a project.
#[derive(Debug)]
pub struct CustomFieldType {
    pub id: u32,
    pub name: String,
    pub settings: CustomFieldSettings,
}

/// A value to set on a custom field. A date is carried as the text given,
/// once it is known to read as a yyyy-MM-dd calendar date.
#[derive(Debug)]
pub enum CustomFieldInput {
    Text(String),
    TextArea(String),
    Numeric(serde_json::Number),
    Date(String),
    SingleList { id: u32, other_value: Option<String> },
    MultipleList { ids: Vec<u32>, other_value: Option<String> },
    CheckBox(Vec<u32>),
    Radio { id: u32, other_value: Option<String> },
}

/// A custom-field input taken by its contents.
pub enum InputView {
    Text(Seq<char>),
    TextArea(Seq<char>),
    Numeric(serde_json::Number),
    Date(Seq<char>),
    SingleList { id: u32, other_value: Option<Seq<char>> },
    MultipleList { ids: Seq<u32>, other_value: Option<Seq<char>> },
    CheckBox(Seq<u32>),
    Radio { id: u32, other_value: Option<Seq<char>> },
}

/// The text of an optional string.
pub open spec fn opt_view(o: Option<String>) -> Option<Seq<char>> {
    match o {
        Some(s) => Some(s@),
        None => None,
    }
}

impl View for CustomFieldInput {
    type V = InputView;

    open spec fn view(&self) -> InputView {
        match self {
            CustomFieldInput::Text(s) => InputView::Text(s@),
            CustomFieldInput::TextArea(s) => InputView::TextArea(s@),
            CustomFieldInput::Numeric(n) => InputView::Numeric(*n),
            CustomFieldInput::Date(s) => InputView::Date(s@),
            CustomFieldInput::SingleList { id, other_value } => InputView::SingleList {
                id: *id,
                other_value: opt_view(*other_value),
            },
            CustomFieldInput::MultipleList { ids, other_value } => InputView::MultipleList {
                ids: ids@,
                other_value: opt_view(*other_value),
            },
            CustomFieldInput::CheckBox(ids) => InputView::CheckBox(ids@),
            CustomFieldInput::Radio { id, other_value } => InputView::Radio {
                id: *id,
                other_value: opt_view(*other_value),
            },
        }
    }
}

/// An error message about the field named `name`.
pub open spec fn field_msg(name: Seq<char>, tail: Seq<char>) -> Seq<char> {
    "Custom field '"@ + name + tail
}

/// The first option named `name`.
pub open spec fn find_item(items: Seq<ListItem>, name: Seq<char>) -> Option<ListItem>
    decreases items.len(),
{
    if items.len() == 0 {
        None
    } else if items[0].name@ == name {
        Some(items[0])
    } else {
        find_item(items.drop_first(), name)
    }
}

/// The option names, each in single quotes, separated by `", "`.
pub open spec fn quoted_names(items: Seq<ListItem>) -> Seq<char>
    decreases items.len(),
{
    if items.len() == 0 {
        Seq::empty()
    } else if items.len() == 1 {
        "'"@ + items[0].name@ + "'"@
    } else {
        quoted_names(items.drop_last()) + ", "@ + "'"@ + items.last().name@ + "'"@
    }
}

/// The message for an option that the field does not have.
pub open spec fn option_not_found(field: Seq<char>, option: Seq<char>, items: Seq<ListItem>) -> Seq<char> {
    field_msg(field, "': option '"@ + option + "' not found. Available options: "@ + quoted_names(items))
}

/// The texts of `values` when all of them are strings.
pub open spec fn all_strings(values: Seq<JsonValue>) -> Option<Seq<Seq<char>>>
    decreases values.len(),
{
    if values.len() == 0 {
        Some(Seq::empty())
    } else {
        match all_strings(values.drop_last()) {
            Some(texts) => match values.last() {
                JsonValue::String(s) => Some(texts.push(s@)),
                _ => None,
            },
            None => None,
        }
    }
}

/// The chosen option of a single-choice list: a string, or an object with a
/// string `name` and an optional string `other`.
pub open spec fn single_list_value(value: JsonValue, field: Seq<char>) -> Result<
    (Seq<char>, Option<Seq<char>>),
    Seq<char>,
> {
    match value {
        JsonValue::String(s) => Ok((s@, None)),
        JsonValue::Object(members) => match string_member(members@, "name"@) {
            Some(name) => Ok((name, string_member(members@, "other"@))),
            None => Err(field_msg(field, "' object must have a 'name' field"@)),
        },
        _ => Err(field_msg(field, "' expects a string or object with 'name' field"@)),
    }
}

/// The chosen options of a multiple-choice list: an array of strings, or an
/// object with an `items` array of strings and an optional string `other`.
pub open spec fn multiple_list_value(value: JsonValue, field: Seq<char>) -> Result<
    (Seq<Seq<char>>, Option<Seq<char>>),
    Seq<char>,
> {
    match value {
        JsonValue::Array(values) => match all_strings(values@) {
            Some(names) => Ok((names, None)),
            None => Err(field_msg(field, "' array must contain strings"@)),
        },
        JsonValue::Object(members) => match member(members@, "items"@) {
            Some(JsonValue::Array(values)) => match all_strings(values@) {
                Some(names) => Ok((names, string_member(members@, "other"@))),
                None => Err(field_msg(field, "' items array must contain strings"@)),
            },
            _ => Err(field_msg(field, "' object must have an 'items' array"@)),
        },
        _ => Err(field_msg(field, "' expects an array or object with 'items' array"@)),
    }
}

/// The ids of the options named in `names`, or the message for the first
/// name that is not an option.
pub open spec fn ids_of(items: Seq<ListItem>, names: Seq<Seq<char>>, field: Seq<char>) -> Result<
    Seq<u32>,
    Seq<char>,
>
    decreases names.len(),
{
    if names.len() == 0 {
        Ok(Seq::empty())
    } else {
        match ids_of(items, names.drop_last(), field) {
            Ok(ids) => match find_item(items, names.last()) {
                Some(item) => Ok(ids.push(item.id)),
                None => Err(option_not_found(field, names.last(), items)),
            },
            Err(e) => Err(e),
        }
    }
}

/// The ids of the options named by a checkbox value's elements: the first
/// element that is not a string, or names no option, gives the error.
pub open spec fn checkbox_ids(items: Seq<ListItem>, values: Seq<JsonValue>, field: Seq<char>) -> Result<
    Seq<u32>,
    Seq<char>,
>
    decreases values.len(),
{
    if values.len() == 0 {
        Ok(Seq::empty())
    } else {
        match checkbox_ids(items, values.drop_last(), field) {
            Ok(ids) => match values.last() {
                JsonValue::String(name) => match find_item(items, name@) {
                    Some(item) => Ok(ids.push(item.id)),
                    None => Err(option_not_found(field, name@, items)),
                },
                _ => Err(field_msg(field, "' expects an array of strings"@)),
            },
            Err(e) => Err(e),
        }
    }
}

/// The input a value gives for a field of the given type, or the message
/// that refuses it.
///
/// `reads_as_date` tells whether the value, a string, reads as a yyyy-MM-dd
/// calendar date; it is consulted for date fields only.
pub open spec fn converted(
    settings: CustomFieldSettings,
    value: JsonValue,
    field: Seq<char>,
    reads_as_date: bool,
) -> Result<
    InputView,
    Seq<char>,
> {
    match settings {
        CustomFieldSettings::Text => match value {
            JsonValue::String(s) => Ok(InputView::Text(s@)),
            _ => Err(field_msg(field, "' expects a string value"@)),
        },
        CustomFieldSettings::TextArea => match value {
            JsonValue::String(s) => Ok(InputView::TextArea(s@)),
            _ => Err(field_msg(field, "' expects a string value"@)),
        },
        CustomFieldSettings::Numeric => match value {
            JsonValue::Number(n) => Ok(InputView::Numeric(n)),
            _ => Err(field_msg(field, "' expects a numeric value"@)),
        },
        CustomFieldSettings::Date => match value {
            JsonValue::String(s) => if reads_as_date {
                Ok(InputView::Date(s@))
            } else {
                Err(field_msg(field, "' expects date in yyyy-MM-dd format"@))
            },
            _ => Err(field_msg(field, "' expects a date string in yyyy-MM-dd format"@)),
        },
        CustomFieldSettings::SingleList(items) => match single_list_value(value, field) {
            Ok((name, other)) => match find_item(items@, name) {
                Some(item) => Ok(InputView::SingleList { id: item.id, other_value: other }),
                None => Err(option_not_found(field, name, items@)),
            },
            Err(e) => Err(e),
        },
        CustomFieldSettings::MultipleList(items) => match multiple_list_value(value, field) {
            Ok((names, other)) => match ids_of(items@, names, field) {
                Ok(ids) => Ok(InputView::MultipleList { ids, other_value: other }),
                Err(e) => Err(e),
            },
            Err(e) => Err(e),
        },
        CustomFieldSettings::Checkbox(items) => match value {
            JsonValue::Array(values) => match checkbox_ids(items@, values@, field) {
                Ok(ids) => Ok(InputView::CheckBox(ids)),
                Err(e) => Err(e),
            },
            _ => Err(field_msg(field, "' expects an array of strings"@)),
        },
        CustomFieldSettings::Radio(items) => match value {
            JsonValue::String(name) => match find_item(items@, name@) {
                Some(item) => Ok(InputView::Radio { id: item.id, other_value: None }),
                None => Err(option_not_found(field, name@, items@)),
            },
            _ => Err(field_msg(field, "' expects a string value"@)),
        },
    }
}

/// `"Custom field '" + field + tail`.
fn field_message(field: &str, tail: &str) -> (r: String)
    ensures
        r@ == field_msg(field@, tail@),
{
    let mut s = String::from_str("Custom field '");
    s.append(field);
    s.append(tail);
    s
}

/// Finds the first option named `name`.
fn find_option<'a>(items: &'a Vec<ListItem>, name: &str) -> (r: Option<&'a ListItem>)
    ensures
        match find_item(items@, name@) {
            Some(item) => r == Some(&item),
            None => r is None,
        },
{
    let mut i: usize = 0;
    assert(items@.skip(0) =~= items@);
    while i < items.len()
        invariant
            i <= items.len(),
            find_item(items@, name@) == find_item(items@.skip(i as int), name@),
        decreases items.len() - i,
    {
        assert(items@.skip(i as int).drop_first() =~= items@.skip(i + 1));
        if str_equal(items[i].name.as_str(), name) {
            return Some(&items[i]);
        }
        i += 1;
    }
    None
}

/// The message for an option that the field does not have.
fn option_not_found_message(field: &str, option: &str, items: &Vec<ListItem>) -> (r: String)
    ensures
        r@ == option_not_found(field@, option@, items@),
{
    let mut joined = String::new();
    let mut i: usize = 0;
    while i < items.len()
        invariant
            i <= items.len(),
            joined@ == quoted_names(items@.take(i as int)),
        decreases items.len() - i,
    {
        assert(items@.take(i + 1).drop_last() =~= items@.take(i as int));
        if i > 0 {
            joined.append(", ");
        }
        joined.append("'");
        joined.append(items[i].name.as_str());
        joined.append("'");
        proof {
            let t = items@.take(i + 1);
            if i == 0 {
                assert(joined@ == "'"@ + t[0].name@ + "'"@);
            } else {
                assert(t.last() == items@[i as int]);
                assert(joined@ =~= quoted_names(t.drop_last()) + ", "@ + "'"@ + t.last().name@ + "'"@);
            }
        }
        i += 1;
    }
    assert(items@.take(items.len() as int) =~= items@);
    let mut tail = String::from_str("': option '");
    tail.append(option);
    tail.append("' not found. Available options: ");
    tail.append(joined.as_str());
    field_message(field, tail.as_str())
}


/// `e` is a server error with message `m`.
pub open spec fn is_server_error(e: Error, m: Seq<char>) -> bool {
    e matches Error::Server(s) && s@ == m
}

/// The texts of a list of strings.
pub open spec fn texts(v: Seq<String>) -> Seq<Seq<char>> {
    v.map_values(|s: String| s@)
}

/// Reads the chosen option of a single-choice list value.
pub fn parse_single_list_value(value: &JsonValue, field_name: &str) -> (r: Result<
    (String, Option<String>),
    Error,
>)
    ensures
        match single_list_value(*value, field_name@) {
            Ok((name, other)) => r is Ok && r->Ok_0.0@ == name && opt_view(r->Ok_0.1) == other,
            Err(m) => r is Err && is_server_error(r->Err_0, m),
        },
{
    match value {
        JsonValue::String(s) => Ok((s.clone(), None)),
        JsonValue::Object(members) => match get_string_member(members, "name") {
            Some(name) => Ok((name, get_string_member(members, "other"))),
            None => Err(Error::Server(field_message(field_name, "' object must have a 'name' field"))),
        },
        _ => Err(Error::Server(field_message(field_name, "' expects a string or object with 'name' field"))),
    }
}

/// The texts of `values` when all are strings.
fn strings_of(values: &Vec<JsonValue>) -> (r: Option<Vec<String>>)
    ensures
        match all_strings(values@) {
            Some(ts) => r is Some && texts(r->0@) == ts,
            None => r is None,
        },
{
    let mut out: Vec<String> = Vec::new();
    let mut i: usize = 0;
    while i < values.len()
        invariant
            i <= values.len(),
            all_strings(values@.take(i as int)) == Some(texts(out@)),
        decreases values.len() - i,
    {
        assert(values@.take(i + 1).drop_last() =~= values@.take(i as int));
        match &values[i] {
            JsonValue::String(s) => {
                out.push(s.clone());
                assert(texts(out@) =~= texts(out@.drop_last()).push(s@));
            },
            _ => {
                proof {
                    lemma_all_strings_prefix(values@, i as int);
                }
                return None;
            },
        }
        i += 1;
    }
    assert(values@.take(values.len() as int) =~= values@);
    Some(out)
}

/// When a prefix of `values` holds a non-string, `all_strings` fails.
proof fn lemma_all_strings_prefix(values: Seq<JsonValue>, i: int)
    requires
        0 <= i < values.len(),
        !(values[i] is String),
    ensures
        all_strings(values) is None,
    decreases values.len(),
{
    if i < values.len() - 1 {
        lemma_all_strings_prefix(values.drop_last(), i);
    }
}

/// Reads the chosen options of a multiple-choice list value.
pub fn parse_multiple_list_value(value: &JsonValue, field_name: &str) -> (r: Result<
    (Vec<String>, Option<String>),
    Error,
>)
    ensures
        match multiple_list_value(*value, field_name@) {
            Ok((names, other)) => r is Ok && texts(r->Ok_0.0@) == names && opt_view(r->Ok_0.1)
                == other,
            Err(m) => r is Err && is_server_error(r->Err_0, m),
        },
{
    match value {
        JsonValue::Array(values) => match strings_of(values) {
            Some(names) => Ok((names, None)),
            None => Err(Error::Server(field_message(field_name, "' array must contain strings"))),
        },
        JsonValue::Object(members) => match get_member(members, "items") {
            Some(JsonValue::Array(values)) => match strings_of(values) {
                Some(names) => Ok((names, get_string_member(members, "other"))),
                None => Err(Error::Server(field_message(field_name, "' items array must contain strings"))),
            },
            _ => Err(Error::Server(field_message(field_name, "' object must have an 'items' array"))),
        },
        _ => Err(Error::Server(field_message(field_name, "' expects an array or object with 'items' array"))),
    }
}

/// When looking up a prefix of `names` fails, looking up all of them fails
/// with the same message.
proof fn lemma_ids_of_prefix_err(items: Seq<ListItem>, names: Seq<Seq<char>>, field: Seq<char>, i: int)
    requires
        0 <= i <= names.len(),
        ids_of(items, names.take(i), field) is Err,
    ensures
        ids_of(items, names, field) == ids_of(items, names.take(i), field),
    decreases names.len() - i,
{
    if i < names.len() {
        assert(names.take(i + 1).drop_last() =~= names.take(i));
        lemma_ids_of_prefix_err(items, names, field, i + 1);
    } else {
        assert(names.take(i) =~= names);
    }
}

/// When a prefix of the checkbox values fails, all of them fail alike.
proof fn lemma_checkbox_prefix_err(items: Seq<ListItem>, values: Seq<JsonValue>, field: Seq<char>, i: int)
    requires
        0 <= i <= values.len(),
        checkbox_ids(items, values.take(i), field) is Err,
    ensures
        checkbox_ids(items, values, field) == checkbox_ids(items, values.take(i), field),
    decreases values.len() - i,
{
    if i < values.len() {
        assert(values.take(i + 1).drop_last() =~= values.take(i));
        lemma_checkbox_prefix_err(items, values, field, i + 1);
    } else {
        assert(values.take(i) =~= values);
    }
}

/// The ids of the named options.
fn option_ids(items: &Vec<ListItem>, names: &Vec<String>, field_name: &str) -> (r: Result<Vec<u32>, Error>)
    ensures
        match ids_of(items@, texts(names@), field_name@) {
            Ok(ids) => r is Ok && r->Ok_0@ == ids,
            Err(m) => r is Err && is_server_error(r->Err_0, m),
        },
{
    let ghost ns = texts(names@);
    let mut ids: Vec<u32> = Vec::new();
    let mut i: usize = 0;
    while i < names.len()
        invariant
            i <= names.len(),
            ns == texts(names@),
            ids_of(items@, ns.take(i as int), field_name@) == Ok::<Seq<u32>, Seq<char>>(ids@),
        decreases names.len() - i,
    {
        assert(ns.take(i + 1).drop_last() =~= ns.take(i as int));
        assert(ns.take(i + 1).last() == names@[i as int]@);
        match find_option(items, names[i].as_str()) {
            Some(item) => {
                ids.push(item.id);
            },
            None => {
                let msg = option_not_found_message(field_name, names[i].as_str(), items);
                proof {
                    lemma_ids_of_prefix_err(items@, ns, field_name@, i + 1);
                }
                return Err(Error::Server(msg));
            },
        }
        i += 1;
    }
    assert(ns.take(names.len() as int) =~= ns);
    Ok(ids)
}

/// The ids of the options a checkbox value names.
fn checkbox_option_ids(items: &Vec<ListItem>, values: &Vec<JsonValue>, field_name: &str) -> (r: Result<
    Vec<u32>,
    Error,
>)
    ensures
        match checkbox_ids(items@, values@, field_name@) {
            Ok(ids) => r is Ok && r->Ok_0@ == ids,
            Err(m) => r is Err && is_server_error(r->Err_0, m),
        },
{
    let mut ids: Vec<u32> = Vec::new();
    let mut i: usize = 0;
    while i < values.len()
        invariant
            i <= values.len(),
            checkbox_ids(items@, values@.take(i as int), field_name@) == Ok::<Seq<u32>, Seq<char>>(ids@),
        decreases values.len() - i,
    {
        assert(values@.take(i + 1).drop_last() =~= values@.take(i as int));
        assert(values@.take(i + 1).last() == values@[i as int]);
        match &values[i] {
            JsonValue::String(name) => match find_option(items, name.as_str()) {
                Some(item) => {
                    ids.push(item.id);
                },
                None => {
                    let msg = option_not_found_message(field_name, name.as_str(), items);
                    proof {
                        lemma_checkbox_prefix_err(items@, values@, field_name@, i + 1);
                    }
                    return Err(Error::Server(msg));
                },
            },
            _ => {
                let msg = field_message(field_name, "' expects an array of strings");
                proof {
                    lemma_checkbox_prefix_err(items@, values@, field_name@, i + 1);
                }
                return Err(Error::Server(msg));
            },
        }
        i += 1;
    }
    assert(values@.take(values.len() as int) =~= values@);
    Ok(ids)
}

/// Checks a value against the type of the custom field and builds the input
/// for it. `reads_as_date` is what reading the value's text as a yyyy-MM-dd
/// calendar date gave; a date field refuses a string that does not read.
pub fn convert_value_to_input(
    field: &CustomFieldType,
    value: &JsonValue,
    field_name: &str,
    reads_as_date: bool,
) -> (r: Result<CustomFieldInput, Error>)
    ensures
        match converted(field.settings, *value, field_name@, reads_as_date) {
            Ok(input) => r is Ok && r->Ok_0@ == input,
            Err(m) => r is Err && is_server_error(r->Err_0, m),
        },
{
    match &field.settings {
        CustomFieldSettings::Text => match value {
            JsonValue::String(s) => Ok(CustomFieldInput::Text(s.clone())),
            _ => Err(Error::Server(field_message(field_name, "' expects a string value"))),
        },
        CustomFieldSettings::TextArea => match value {
            JsonValue::String(s) => Ok(CustomFieldInput::TextArea(s.clone())),
            _ => Err(Error::Server(field_message(field_name, "' expects a string value"))),
        },
        CustomFieldSettings::Numeric => match value {
            JsonValue::Number(n) => Ok(CustomFieldInput::Numeric(copy_number(n))),
            _ => Err(Error::Server(field_message(field_name, "' expects a numeric value"))),
        },
        CustomFieldSettings::Date => match value {
            JsonValue::String(s) => if reads_as_date {
                Ok(CustomFieldInput::Date(s.clone()))
            } else {
                Err(Error::Server(field_message(field_name, "' expects date in yyyy-MM-dd format")))
            },
            _ => Err(Error::Server(field_message(field_name, "' expects a date string in yyyy-MM-dd format"))),
        },
        CustomFieldSettings::SingleList(items) => {
            let (item_name, other_value) = parse_single_list_value(value, field_name)?;
            match find_option(items, item_name.as_str()) {
                Some(item) => Ok(CustomFieldInput::SingleList { id: item.id, other_value }),
                None => Err(Error::Server(option_not_found_message(field_name, item_name.as_str(), items))),
            }
        },
        CustomFieldSettings::MultipleList(items) => {
            let (item_names, other_value) = parse_multiple_list_value(value, field_name)?;
            let ids = option_ids(items, &item_names, field_name)?;
            Ok(CustomFieldInput::MultipleList { ids, other_value })
        },
        CustomFieldSettings::Checkbox(items) => match value {
            JsonValue::Array(values) => {
                let ids = checkbox_option_ids(items, values, field_name)?;
                Ok(CustomFieldInput::CheckBox(ids))
            },
            _ => Err(Error::Server(field_message(field_name, "' expects an array of strings"))),
        },
        CustomFieldSettings::Radio(items) => match value {
            JsonValue::String(name) => match find_option(items, name.as_str()) {
                Some(item) => Ok(CustomFieldInput::Radio { id: item.id, other_value: None }),
                None => Err(Error::Server(option_not_found_message(field_name, name.as_str(), items))),
            },
            _ => Err(Error::Server(field_message(field_name, "' expects a string value"))),
        },
    }
}

/// The definition a field name refers to: the last one with that name, as
/// when the definitions are collected into a map by name.
pub open spec fn field_named(defs: Seq<CustomFieldType>, name: Seq<char>) -> Option<CustomFieldType>
    decreases defs.len(),
{
    if defs.len() == 0 {
        None
    } else if defs.last().name@ == name {
        Some(defs.last())
    } else {
        field_named(defs.drop_last(), name)
    }
}

/// A custom-field value given by field name, with whether its text reads as
/// a yyyy-MM-dd calendar date (what the date reader gave; consulted for date
/// fields only).
#[derive(Debug)]
pub struct NamedValue {
    pub name: String,
    pub value: JsonValue,
    pub reads_as_date: bool,
}

/// The inputs for the named values, in the order given, each with the id of
/// its field; or the message for the first value that cannot be set.
pub open spec fn resolved(defs: Seq<CustomFieldType>, values: Seq<NamedValue>) -> Result<
    Seq<(u32, InputView)>,
    Seq<char>,
>
    decreases values.len(),
{
    if values.len() == 0 {
        Ok(Seq::empty())
    } else {
        match resolved(defs, values.drop_last()) {
            Ok(done) => {
                let v = values.last();
                match field_named(defs, v.name@) {
                    Some(def) => match converted(def.settings, v.value, v.name@, v.reads_as_date) {
                        Ok(input) => Ok(done.push((def.id, input))),
                        Err(m) => Err(m),
                    },
                    None => Err(field_msg(v.name@, "' not found in project"@)),
                }
            },
            Err(m) => Err(m),
        }
    }
}

/// The pairs of a resolved list, inputs taken by their contents.
pub open spec fn pairs_view(v: Seq<(u32, CustomFieldInput)>) -> Seq<(u32, InputView)> {
    v.map_values(|p: (u32, CustomFieldInput)| (p.0, p.1@))
}

/// What one named value gives on its own: its field's id with the input, or
/// the message that refuses it.
pub open spec fn value_result(defs: Seq<CustomFieldType>, v: NamedValue) -> Result<
    (u32, InputView),
    Seq<char>,
> {
    match field_named(defs, v.name@) {
        Some(def) => match converted(def.settings, v.value, v.name@, v.reads_as_date) {
            Ok(input) => Ok((def.id, input)),
            Err(m) => Err(m),
        },
        None => Err(field_msg(v.name@, "' not found in project"@)),
    }
}

/// Law: resolving named values is done value by value. It succeeds exactly
/// when every value names a field and suits it, and then gives, in the order
/// given, each value's field id with its input; otherwise it gives the
/// refusal of the first value that fails, and no partial result. No values
/// give no inputs.
pub proof fn law_resolution_is_per_value(defs: Seq<CustomFieldType>, values: Seq<NamedValue>)
    ensures
        values.len() == 0 ==> resolved(defs, values) == Ok::<Seq<(u32, InputView)>, Seq<char>>(Seq::empty()),
        (forall|i: int| 0 <= i < values.len() ==> #[trigger] value_result(defs, values[i]) is Ok)
            ==> resolved(defs, values) is Ok,
        resolved(defs, values) matches Ok(pairs) ==> pairs.len() == values.len() && forall|i: int|
            0 <= i < values.len() ==> #[trigger] value_result(defs, values[i]) == Ok::<
                (u32, InputView),
                Seq<char>,
            >(pairs[i]),
        resolved(defs, values) matches Err(m) ==> exists|i: int|
            0 <= i < values.len() && #[trigger] value_result(defs, values[i]) == Err::<
                (u32, InputView),
                Seq<char>,
            >(m) && forall|j: int| 0 <= j < i ==> #[trigger] value_result(defs, values[j]) is Ok,
    decreases values.len(),
{
    if values.len() > 0 {
        let rest = values.drop_last();
        law_resolution_is_per_value(defs, rest);
        let last = values.last();
        assert(values[values.len() - 1] == last);
        assert forall|i: int| 0 <= i < rest.len() implies values[i] == #[trigger] rest[i] by {}
        if forall|k: int| 0 <= k < values.len() ==> #[trigger] value_result(defs, values[k]) is Ok {
            assert forall|k: int| 0 <= k < rest.len() implies #[trigger] value_result(defs, rest[k]) is Ok by {
                assert(values[k] == rest[k]);
                assert(value_result(defs, values[k]) is Ok);
            }
            assert(value_result(defs, values[values.len() - 1]) is Ok);
        }
        match resolved(defs, rest) {
            Ok(done) => {
                assert(resolved(defs, values) == match value_result(defs, last) {
                    Ok(p) => Ok::<Seq<(u32, InputView)>, Seq<char>>(done.push(p)),
                    Err(m) => Err(m),
                });
                if resolved(defs, values) is Err {
                    assert(value_result(defs, values[values.len() - 1]) == Err::<(u32, InputView), Seq<char>>(resolved(defs, values)->Err_0));
                    assert forall|j: int| 0 <= j < values.len() - 1 implies #[trigger] value_result(defs, values[j]) is Ok by {
                        assert(values[j] == rest[j]);
                    }
                }
                if resolved(defs, values) is Ok {
                    let pairs = resolved(defs, values)->Ok_0;
                    assert forall|i: int| 0 <= i < values.len() implies #[trigger] value_result(defs, values[i]) == Ok::<
                        (u32, InputView),
                        Seq<char>,
                    >(pairs[i]) by {
                        if i < rest.len() {
                            assert(values[i] == rest[i]);
                            assert(value_result(defs, rest[i]) == Ok::<(u32, InputView), Seq<char>>(done[i]));
                        }
                    }
                }
            },
            Err(m) => {
                let i = choose|i: int| 0 <= i < rest.len() && #[trigger] value_result(defs, rest[i]) == Err::<
                    (u32, InputView),
                    Seq<char>,
                >(m) && forall|j: int| 0 <= j < i ==> #[trigger] value_result(defs, rest[j]) is Ok;
                assert(values[i] == rest[i]);
                assert forall|j: int| 0 <= j < i implies #[trigger] value_result(defs, values[j]) is Ok by {
                    assert(values[j] == rest[j]);
                    assert(value_result(defs, rest[j]) is Ok);
                }
                if forall|k: int| 0 <= k < values.len() ==> #[trigger] value_result(defs, values[k]) is Ok {
                    assert(value_result(defs, values[i]) is Ok);
                }
            },
        }
    }
}

/// When resolving a prefix fails, resolving all of them fails alike.
proof fn lemma_resolved_prefix_err(defs: Seq<CustomFieldType>, values: Seq<NamedValue>, i: int)
    requires
        0 <= i <= values.len(),
        resolved(defs, values.take(i)) is Err,
    ensures
        resolved(defs, values) == resolved(defs, values.take(i)),
    decreases values.len() - i,
{
    if i < values.len() {
        assert(values.take(i + 1).drop_last() =~= values.take(i));
        lemma_resolved_prefix_err(defs, values, i + 1);
    } else {
        assert(values.take(i) =~= values);
    }
}

/// Finds the definition a field name refers to.
fn find_field<'a>(defs: &'a Vec<CustomFieldType>, name: &str) -> (r: Option<&'a CustomFieldType>)
    ensures
        match field_named(defs@, name@) {
            Some(def) => r == Some(&def),
            None => r is None,
        },
{
    let mut found: Option<&CustomFieldType> = None;
    let mut i: usize = 0;
    while i < defs.len()
        invariant
            i <= defs.len(),
            match field_named(defs@.take(i as int), name@) {
                Some(def) => found == Some(&def),
                None => found is None,
            },
        decreases defs.len() - i,
    {
        assert(defs@.take(i + 1).drop_last() =~= defs@.take(i as int));
        if str_equal(defs[i].name.as_str(), name) {
            found = Some(&defs[i]);
        }
        i += 1;
    }
    assert(defs@.take(defs.len() as int) =~= defs@);
    found
}

/// Resolves custom-field values given by field name against the project's
/// field definitions: every name must be a field of the project and every
/// value must suit its field.
pub fn resolve_custom_fields(custom_fields: &Vec<CustomFieldType>, fields_by_name: &Vec<NamedValue>) -> (r: Result<
    Vec<(u32, CustomFieldInput)>,
    Error,
>)
    ensures
        match resolved(custom_fields@, fields_by_name@) {
            Ok(pairs) => r is Ok && pairs_view(r->Ok_0@) == pairs,
            Err(m) => r is Err && is_server_error(r->Err_0, m),
        },
{
    let mut result: Vec<(u32, CustomFieldInput)> = Vec::new();
    let mut i: usize = 0;
    assert(pairs_view(result@) =~= Seq::<(u32, InputView)>::empty());
    while i < fields_by_name.len()
        invariant
            i <= fields_by_name.len(),
            resolved(custom_fields@, fields_by_name@.take(i as int)) == Ok::<Seq<(u32, InputView)>, Seq<char>>(pairs_view(result@)),
        decreases fields_by_name.len() - i,
    {
        assert(fields_by_name@.take(i + 1).drop_last() =~= fields_by_name@.take(i as int));
        assert(fields_by_name@.take(i + 1).last() == fields_by_name@[i as int]);
        let field_name = &fields_by_name[i].name;
        let value = &fields_by_name[i].value;
        let reads_as_date = fields_by_name[i].reads_as_date;
        match find_field(custom_fields, field_name.as_str()) {
            Some(field_def) => {
                match convert_value_to_input(field_def, value, field_name.as_str(), reads_as_date) {
                    Ok(input) => {
                        let ghost before = result@;
                        result.push((field_def.id, input));
                        assert(pairs_view(result@) =~= pairs_view(before).push((field_def.id, input@)));
                    },
                    Err(e) => {
                        proof {
                            lemma_resolved_prefix_err(custom_fields@, fields_by_name@, i + 1);
                        }
                        return Err(e);
                    },
                }
            },
            None => {
                let msg = field_message(field_name.as_str(), "' not found in project");
                proof {
                    lemma_resolved_prefix_err(custom_fields@, fields_by_name@, i + 1);
                }
                return Err(Error::Server(msg));
            },
        }
        i += 1;
    }
    assert(fields_by_name@.take(fields_by_name.len() as int) =~= fields_by_name@);
    Ok(result)
}

/// `Number::clone`: the same number.
#[verifier::external_body]
fn copy_number(n: &serde_json::Number) -> (r: serde_json::Number)
    ensures
        r == *n,
{
    n.clone()
}

/// Law: a value accepted for a single-choice list keeps its free text: the
/// input's `other_value` is the string `other` member of an object value
/// (none when the member is missing or not a string, or when the value is a
/// plain string), and its id is the id of the option the value names.
pub proof fn law_single_list_keeps_other(
    items: Vec<ListItem>,
    value: JsonValue,
    field: Seq<char>,
    reads_as_date: bool,
)
    requires
        converted(CustomFieldSettings::SingleList(items), value, field, reads_as_date) is Ok,
    ensures
        converted(CustomFieldSettings::SingleList(items), value, field, reads_as_date) matches Ok(
            InputView::SingleList { id, other_value },
        ) && other_value == match value {
            JsonValue::Object(members) => match member(members@, "other"@) {
                Some(JsonValue::String(s)) => Some(s@),
                _ => None,
            },
            _ => None,
        } && match value {
            JsonValue::String(s) => exists|i: int|
                0 <= i < items@.len() && items@[i].name@ == s@ && items@[i].id == id,
            JsonValue::Object(members) => exists|i: int|
                0 <= i < items@.len() && (member(members@, "name"@) matches Some(JsonValue::String(n))
                    && items@[i].name@ == n@) && items@[i].id == id,
            _ => false,
        },
{
    let name = match value {
        JsonValue::String(s) => s@,
        JsonValue::Object(members) => string_member(members@, "name"@)->0,
        _ => Seq::empty(),
    };
    lemma_find_item_found(items@, name);
}

/// The option that `find_item` finds is one of the options, with the name
/// looked for.
proof fn lemma_find_item_found(items: Seq<ListItem>, name: Seq<char>)
    ensures
        find_item(items, name) matches Some(item) ==> exists|i: int|
            0 <= i < items.len() && #[trigger] items[i] == item && item.name@ == name,
    decreases items.len(),
{
    if items.len() > 0 && items[0].name@ != name {
        lemma_find_item_found(items.drop_first(), name);
        if find_item(items, name) is Some {
            let item = find_item(items, name)->0;
            let i = choose|i: int| 0 <= i < items.drop_first().len() && #[trigger] items.drop_first()[i] == item && item.name@ == name;
            assert(items[i + 1] == item);
        }
    } else if items.len() > 0 {
        assert(items[0] == find_item(items, name)->0);
    }
}

} // verus!
