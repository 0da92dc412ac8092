//! Access decisions shared by the request handlers.
//!
//! The handlers fetch rows; these functions decide. Each decision is a
//! pure function of the values the store returned, so the authorization
//! rules of the whole surface live here, verified.

use vstd::prelude::*;

use crate::error::AppError;

verus! {

/// A membership query counts the rows tying the caller to the project
/// (as owner or collaborator); zero rows means the project is not visible
/// to the caller.
pub fn project_access_decision(rows: i64) -> (r: Result<(), AppError>)
    ensures
        rows == 0 ==> (r matches Err(e) && e is NotFound),
        rows != 0 ==> r is Ok,
{
    if rows == 0 {
        Err(AppError::NotFound("Project not found".to_owned()))
    } else {
        Ok(())
    }
}

/// Whether the caller owns the entity.
pub fn is_owner(owner_id: &String, user_id: &String) -> (r: bool)
    ensures
        r == (owner_id@ == user_id@),
{
    *owner_id == *user_id
}

/// A comment may be deleted by its author or by the project owner (the
/// ownership query counts matching projects).
pub fn can_delete_comment(author_id: &String, user_id: &String, owner_rows: i64) -> (r: bool)
    ensures
        r == (author_id@ == user_id@ || owner_rows > 0),
{
    *author_id == *user_id || owner_rows > 0
}

/// A collaborator may be removed by the project owner, or may remove
/// themselves.
pub fn can_remove_collaborator(owner_id: &String, user_id: &String, target_user_id: &String) -> (r:
    bool)
    ensures
        r == (owner_id@ == user_id@ || target_user_id@ == user_id@),
{
    *owner_id == *user_id || *target_user_id == *user_id
}

/// The two collaborator roles the project surface accepts.
pub fn validate_role(role: &String) -> (r: bool)
    ensures
        r == (role@ == "editor"@ || role@ == "viewer"@),
{
    let editor: String = "editor".to_owned();
    let viewer: String = "viewer".to_owned();
    *role == editor || *role == viewer
}

/// Whether a registration email is already taken, given the count of
/// existing users with it.
pub fn email_taken(rows: i64) -> (r: bool)
    ensures
        r == (rows > 0),
{
    rows > 0
}

/// What to do with a collaborator grant that may already exist: update
/// the role in place, or insert a fresh row.
#[derive(PartialEq, Eq, Structural, Clone, Copy, Debug)]
pub enum UpsertAction {
    UpdateRole,
    InsertRow,
}

/// An existing grant (positive row count) is updated; otherwise one is
/// inserted.
pub fn collaborator_upsert(rows: i64) -> (r: UpsertAction)
    ensures
        rows > 0 ==> r == UpsertAction::UpdateRole,
        rows <= 0 ==> r == UpsertAction::InsertRow,
{
    if rows > 0 {
        UpsertAction::UpdateRole
    } else {
        UpsertAction::InsertRow
    }
}

} // verus!
