//! Reading the options of the command-line document listing: the project it
//! lists, and the sort key and order it asks for.

use vstd::prelude::*;
use crate::ids::ProjectIdOrKey;
use crate::text::str_equal;

verus! {

/// What documents are sorted by.
#[derive(Debug, Clone, Copy, PartialEq, Eq)]
pub enum DocumentSortKey {
    Created,
    Updated,
}

/// The direction of the sort.
#[derive(Debug, Clone, Copy, PartialEq, Eq)]
pub enum DocumentOrder {
    Asc,
    Desc,
}

/// A document listing as the options ask for it.
#[derive(Debug, Clone, Copy, PartialEq, Eq)]
pub struct DocumentListQuery {
    pub project_id: u32,
    pub sort: Option<DocumentSortKey>,
    pub order: Option<DocumentOrder>,
}

/// Why the options do not make a listing; each keeps the text it refuses.
#[derive(Debug, PartialEq, Eq)]
pub enum DocumentQueryError {
    /// The project was given by key alone; the listing needs its number.
    KeyNotSupported(String),
    /// The sort key is neither `created` nor `updated`.
    InvalidSort(String),
    /// The order is neither `asc` nor `desc`.
    InvalidOrder(String),
}

/// The sort key a text names.
pub open spec fn sort_key_named(s: Seq<char>) -> Option<DocumentSortKey> {
    if s == "created"@ {
        Some(DocumentSortKey::Created)
    } else if s == "updated"@ {
        Some(DocumentSortKey::Updated)
    } else {
        None
    }
}

/// The order a text names.
pub open spec fn order_named(s: Seq<char>) -> Option<DocumentOrder> {
    if s == "asc"@ {
        Some(DocumentOrder::Asc)
    } else if s == "desc"@ {
        Some(DocumentOrder::Desc)
    } else {
        None
    }
}

/// The project number of a reference that carries one.
pub open spec fn project_number(p: ProjectIdOrKey) -> Option<u32> {
    match p {
        ProjectIdOrKey::Id(id) => Some(id),
        ProjectIdOrKey::Key(_) => None,
        ProjectIdOrKey::EitherIdOrKey(id, _) => Some(id),
    }
}

/// The sort key a text names.
fn read_sort_key(s: &str) -> (r: Option<DocumentSortKey>)
    ensures
        r == sort_key_named(s@),
{
    if str_equal(s, "created") {
        Some(DocumentSortKey::Created)
    } else if str_equal(s, "updated") {
        Some(DocumentSortKey::Updated)
    } else {
        None
    }
}

/// The order a text names.
fn read_order(s: &str) -> (r: Option<DocumentOrder>)
    ensures
        r == order_named(s@),
{
    if str_equal(s, "asc") {
        Some(DocumentOrder::Asc)
    } else if str_equal(s, "desc") {
        Some(DocumentOrder::Desc)
    } else {
        None
    }
}

/// The listing the options ask for. The project is checked first, then the
/// sort key, then the order; the first that is refused is reported.
pub fn document_list_query(
    project: &ProjectIdOrKey,
    sort: &Option<String>,
    order: &Option<String>,
) -> (r: Result<DocumentListQuery, DocumentQueryError>)
    ensures
        match project_number(*project) {
            None => (r matches Err(DocumentQueryError::KeyNotSupported(k))
                && project matches ProjectIdOrKey::Key(key) && k@ == key@),
            Some(id) => match sort {
                Some(s) if sort_key_named(s@) is None => (r matches Err(DocumentQueryError::InvalidSort(t))
                    && t@ == s@),
                _ => match order {
                    Some(o) if order_named(o@) is None => (r matches Err(DocumentQueryError::InvalidOrder(t))
                        && t@ == o@),
                    _ => r == Ok::<DocumentListQuery, DocumentQueryError>(DocumentListQuery {
                        project_id: id,
                        sort: match sort {
                            Some(s) => sort_key_named(s@),
                            None => None,
                        },
                        order: match order {
                            Some(o) => order_named(o@),
                            None => None,
                        },
                    }),
                },
            },
        },
{
    let project_id = match project {
        ProjectIdOrKey::Id(id) => *id,
        ProjectIdOrKey::Key(key) => {
            return Err(DocumentQueryError::KeyNotSupported(key.clone()));
        },
        ProjectIdOrKey::EitherIdOrKey(id, _) => *id,
    };
    let sort_key = match sort {
        Some(s) => match read_sort_key(s.as_str()) {
            Some(k) => Some(k),
            None => {
                return Err(DocumentQueryError::InvalidSort(s.clone()));
            },
        },
        None => None,
    };
    let order_value = match order {
        Some(o) => match read_order(o.as_str()) {
            Some(v) => Some(v),
            None => {
                return Err(DocumentQueryError::InvalidOrder(o.clone()));
            },
        },
        None => None,
    };
    Ok(DocumentListQuery { project_id, sort: sort_key, order: order_value })
}

/// Law: each accepted name gives what it names, and only the accepted names
/// give anything: `asc` and `desc` give ascending and descending order,
/// `created` and `updated` sort by creation and by update.
pub proof fn law_option_names(s: Seq<char>)
    ensures
        s == "asc"@ ==> order_named(s) == Some(DocumentOrder::Asc),
        s == "desc"@ ==> order_named(s) == Some(DocumentOrder::Desc),
        order_named(s) is Some ==> (s == "asc"@ || s == "desc"@),
        s == "created"@ ==> sort_key_named(s) == Some(DocumentSortKey::Created),
        s == "updated"@ ==> sort_key_named(s) == Some(DocumentSortKey::Updated),
        sort_key_named(s) is Some ==> (s == "created"@ || s == "updated"@),
{
    reveal_strlit("asc");
    reveal_strlit("desc");
    reveal_strlit("created");
    reveal_strlit("updated");
    assert("asc"@ != "desc"@) by {
        assert("asc"@.len() != "desc"@.len());
    }
    assert("created"@ != "updated"@) by {
        assert("created"@[0] != "updated"@[0]);
    }
}

} // verus!
