//! Reading the custom-field options of the command-line client: which kind
//! of field a type name asks for, the options of list fields, and the issue
//! types a field applies to.

use vstd::prelude::*;
use vstd::string::*;
use crate::custom_field_converter::CustomFieldSettings;
use crate::ids::{comma_pieces, parse_id_list_lenient, readable_ids, split_items, trimmed};
use crate::text::str_equal;

verus! {

/// The kind of custom field to create; list kinds carry their options.
#[derive(Debug)]
pub enum FieldKind {
    Text,
    TextArea,
    Numeric,
    Date,
    SingleList(Vec<String>),
    MultipleList(Vec<String>),
    Checkbox,
    Radio,
}

/// Why a custom field cannot be created from the options given.
#[derive(Debug, PartialEq, Eq)]
pub enum FieldPlanError {
    /// A list field was asked for without `--items`; the type name is kept.
    ItemsRequired(String),
    /// The type name is none of the known ones; it is kept.
    InvalidType(String),
}

/// Whether `items` are the options a comma-separated text lists, each trimmed.
pub open spec fn items_listed(items: Seq<String>, text: Seq<char>) -> bool {
    &&& items.len() == comma_pieces(text).len()
    &&& forall|k: int| 0 <= k < items.len() ==> #[trigger] items[k]@ == trimmed(comma_pieces(text)[k])
}

/// Whether `name` is one of the type names the client knows.
pub open spec fn known_field_type(name: Seq<char>) -> bool {
    ||| name == "text"@
    ||| name == "textarea"@
    ||| name == "numeric"@
    ||| name == "date"@
    ||| name == "single-list"@
    ||| name == "multiple-list"@
    ||| name == "checkbox"@
    ||| name == "radio"@
}

/// The kind of field a type name asks for, with the options of list fields
/// read from `items`.
pub fn plan_field_kind(field_type: &str, items: &Option<String>) -> (r: Result<FieldKind, FieldPlanError>)
    ensures
        field_type@ == "text"@ ==> r matches Ok(FieldKind::Text),
        field_type@ == "textarea"@ ==> r matches Ok(FieldKind::TextArea),
        field_type@ == "numeric"@ ==> r matches Ok(FieldKind::Numeric),
        field_type@ == "date"@ ==> r matches Ok(FieldKind::Date),
        field_type@ == "checkbox"@ ==> r matches Ok(FieldKind::Checkbox),
        field_type@ == "radio"@ ==> r matches Ok(FieldKind::Radio),
        field_type@ == "single-list"@ ==> match items {
            Some(t) => (r matches Ok(FieldKind::SingleList(v)) && items_listed(v@, t@)),
            None => (r matches Err(FieldPlanError::ItemsRequired(n)) && n@ == field_type@),
        },
        field_type@ == "multiple-list"@ ==> match items {
            Some(t) => (r matches Ok(FieldKind::MultipleList(v)) && items_listed(v@, t@)),
            None => (r matches Err(FieldPlanError::ItemsRequired(n)) && n@ == field_type@),
        },
        !known_field_type(field_type@) ==> (r matches Err(FieldPlanError::InvalidType(n))
            && n@ == field_type@),
{
    proof {
        reveal_strlit("text");
        reveal_strlit("textarea");
        reveal_strlit("numeric");
        reveal_strlit("date");
        reveal_strlit("single-list");
        reveal_strlit("multiple-list");
        reveal_strlit("checkbox");
        reveal_strlit("radio");
        assert("text"@.len() == 4 && "textarea"@.len() == 8 && "numeric"@.len() == 7);
        assert("date"@.len() == 4 && "single-list"@.len() == 11 && "multiple-list"@.len() == 13);
        assert("checkbox"@.len() == 8 && "radio"@.len() == 5);
        assert("text"@[0] != "date"@[0] && "textarea"@[0] != "checkbox"@[0]);
    }
    if str_equal(field_type, "text") {
        Ok(FieldKind::Text)
    } else if str_equal(field_type, "textarea") {
        Ok(FieldKind::TextArea)
    } else if str_equal(field_type, "numeric") {
        Ok(FieldKind::Numeric)
    } else if str_equal(field_type, "date") {
        Ok(FieldKind::Date)
    } else if str_equal(field_type, "single-list") {
        match items {
            Some(t) => Ok(FieldKind::SingleList(split_items(t.as_str()))),
            None => Err(FieldPlanError::ItemsRequired(field_type.to_owned())),
        }
    } else if str_equal(field_type, "multiple-list") {
        match items {
            Some(t) => Ok(FieldKind::MultipleList(split_items(t.as_str()))),
            None => Err(FieldPlanError::ItemsRequired(field_type.to_owned())),
        }
    } else if str_equal(field_type, "checkbox") {
        Ok(FieldKind::Checkbox)
    } else if str_equal(field_type, "radio") {
        Ok(FieldKind::Radio)
    } else {
        Err(FieldPlanError::InvalidType(field_type.to_owned()))
    }
}

/// The issue types a field is to apply to: the ids of a comma-separated
/// list, pieces that are not ids skipped. `None` when nothing was given or
/// no piece was an id, so that the setting is left out.
pub fn applicable_issue_types(types: &Option<String>) -> (r: Option<Vec<u32>>)
    ensures
        match types {
            None => r is None,
            Some(t) => if readable_ids(comma_pieces(t@)).len() == 0 {
                r is None
            } else {
                (r matches Some(ids) && ids@ == readable_ids(comma_pieces(t@)))
            },
        },
{
    match types {
        None => None,
        Some(t) => {
            let ids = parse_id_list_lenient(t.as_str());
            if ids.len() == 0 {
                None
            } else {
                Some(ids)
            }
        },
    }
}

/// The name under which a field's type is shown.
pub open spec fn settings_label_text(s: CustomFieldSettings) -> Seq<char> {
    match s {
        CustomFieldSettings::Text => "Text"@,
        CustomFieldSettings::TextArea => "TextArea"@,
        CustomFieldSettings::Numeric => "Numeric"@,
        CustomFieldSettings::Date => "Date"@,
        CustomFieldSettings::SingleList(_) => "SingleList"@,
        CustomFieldSettings::MultipleList(_) => "MultipleList"@,
        CustomFieldSettings::Checkbox(_) => "Checkbox"@,
        CustomFieldSettings::Radio(_) => "Radio"@,
    }
}

/// The name under which a field's type is shown.
pub fn settings_label(s: &CustomFieldSettings) -> (r: &'static str)
    ensures
        r@ == settings_label_text(*s),
{
    match s {
        CustomFieldSettings::Text => "Text",
        CustomFieldSettings::TextArea => "TextArea",
        CustomFieldSettings::Numeric => "Numeric",
        CustomFieldSettings::Date => "Date",
        CustomFieldSettings::SingleList(_) => "SingleList",
        CustomFieldSettings::MultipleList(_) => "MultipleList",
        CustomFieldSettings::Checkbox(_) => "Checkbox",
        CustomFieldSettings::Radio(_) => "Radio",
    }
}

/// Whether any date setting was given, so that the date settings are sent.
pub fn date_settings_given(
    min_date: &Option<String>,
    max_date: &Option<String>,
    initial_value_type: Option<i32>,
    initial_date: &Option<String>,
    initial_shift: Option<i32>,
) -> (r: bool)
    ensures
        r == (min_date is Some || max_date is Some || initial_value_type is Some
            || initial_date is Some || initial_shift is Some),
{
    min_date.is_some() || max_date.is_some() || initial_value_type.is_some()
        || initial_date.is_some() || initial_shift.is_some()
}

} // verus!
