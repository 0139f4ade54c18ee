//! The checks the issue tools make on a request before they call the API.

use vstd::prelude::*;
use crate::error::Error;
use crate::ids::{comma_pieces, ids_from_pieces, parse_id_list, ProjectIdOrKey};
use crate::json::JsonValue;

verus! {

/// An update asks for a change when it sets the summary, the description or
/// custom fields.
pub open spec fn asks_for_change(
    summary: Option<String>,
    description: Option<String>,
    custom_fields: Option<Vec<(String, JsonValue)>>,
) -> bool {
    summary is Some || description is Some || custom_fields is Some
}

/// Refuses an update that changes nothing, before anything is fetched.
pub fn check_update_request(
    summary: &Option<String>,
    description: &Option<String>,
    custom_fields: &Option<Vec<(String, JsonValue)>>,
) -> (r: Result<(), Error>)
    ensures
        r is Ok <==> asks_for_change(*summary, *description, *custom_fields),
        r is Err ==> r matches Err(Error::NothingToUpdate),
{
    if summary.is_none() && description.is_none() && custom_fields.is_none() {
        Err(Error::NothingToUpdate)
    } else {
        Ok(())
    }
}

/// Where the project of a new issue comes from: its number is known, or it
/// has to be looked up by key.
#[derive(Debug, PartialEq, Eq)]
pub enum ProjectSource {
    Known(u32),
    LookUpKey(String),
}

/// Where the project of a new issue comes from: a reference that carries a
/// number gives it, one that carries only a key has to be looked up.
pub fn project_source(project: &ProjectIdOrKey) -> (r: ProjectSource)
    ensures
        match project {
            ProjectIdOrKey::Id(id) => r == ProjectSource::Known(*id),
            ProjectIdOrKey::Key(key) => (r matches ProjectSource::LookUpKey(k) && k@ == key@),
            ProjectIdOrKey::EitherIdOrKey(id, _) => r == ProjectSource::Known(*id),
        },
{
    match project {
        ProjectIdOrKey::Id(id) => ProjectSource::Known(*id),
        ProjectIdOrKey::Key(key) => ProjectSource::LookUpKey(key.clone()),
        ProjectIdOrKey::EitherIdOrKey(id, _) => ProjectSource::Known(*id),
    }
}

/// What the issue creation command sends, read from its options.
#[derive(Debug, PartialEq, Eq)]
pub struct IssueCreationPlan {
    pub project_id: u32,
    pub category_ids: Option<Vec<u32>>,
    pub milestone_ids: Option<Vec<u32>>,
}

/// Why the issue creation command refuses its options.
#[derive(Debug, PartialEq, Eq)]
pub enum IssueCreationError {
    /// The project was given by key alone; creation needs its number.
    KeyNotSupported,
}

/// The ids of an optional comma-separated list, when it is given and every
/// piece, trimmed, is an id; otherwise none, and the setting is left out.
pub open spec fn id_list_setting(text: Option<String>) -> Option<Seq<u32>> {
    match text {
        Some(t) => match ids_from_pieces(comma_pieces(t@)) {
            Ok(ids) => Some(ids),
            Err(_) => None,
        },
        None => None,
    }
}

/// The ids of a list as the creation command sends them.
fn id_list_option(text: &Option<String>) -> (r: Option<Vec<u32>>)
    ensures
        match id_list_setting(*text) {
            Some(ids) => (r matches Some(v) && v@ == ids),
            None => r is None,
        },
{
    match text {
        Some(t) => match parse_id_list(t.as_str()) {
            Ok(ids) => Some(ids),
            Err(_) => None,
        },
        None => None,
    }
}

/// Reads the options of the issue creation command: the project must be
/// given by number; a category or milestone list that does not read in
/// full is left out.
pub fn issue_creation_plan(
    project: &ProjectIdOrKey,
    category_ids: &Option<String>,
    milestone_ids: &Option<String>,
) -> (r: Result<IssueCreationPlan, IssueCreationError>)
    ensures
        (r is Err) <==> (project is Key),
        r is Err ==> r == Err::<IssueCreationPlan, IssueCreationError>(IssueCreationError::KeyNotSupported),
        r matches Ok(plan) ==> {
            &&& (project matches ProjectIdOrKey::Id(id) ==> plan.project_id == id)
            &&& (project matches ProjectIdOrKey::EitherIdOrKey(id, _) ==> plan.project_id == id)
            &&& match id_list_setting(*category_ids) {
                Some(ids) => (plan.category_ids matches Some(v) && v@ == ids),
                None => plan.category_ids is None,
            }
            &&& match id_list_setting(*milestone_ids) {
                Some(ids) => (plan.milestone_ids matches Some(v) && v@ == ids),
                None => plan.milestone_ids is None,
            }
        },
{
    let project_id = match project {
        ProjectIdOrKey::Id(id) => *id,
        ProjectIdOrKey::Key(_) => {
            return Err(IssueCreationError::KeyNotSupported);
        },
        ProjectIdOrKey::EitherIdOrKey(id, _) => *id,
    };
    Ok(IssueCreationPlan {
        project_id,
        category_ids: id_list_option(category_ids),
        milestone_ids: id_list_option(milestone_ids),
    })
}

} // verus!
