//! Project endpoint types and their validation rules.

use vstd::prelude::*;

use crate::error::AppError;
use crate::text::{trim, trim_spec};

verus! {

/// Body of a project-creation request.
pub struct CreateProjectRequest {
    pub name: String,
}

/// The public shape of one project.
pub struct ProjectResponse {
    pub id: String,
    pub name: String,
    pub owner_id: String,
    pub created_at: String,
    pub updated_at: String,
}

/// All projects visible to the caller.
pub struct ProjectListResponse {
    pub projects: Vec<ProjectResponse>,
}

/// Body of a collaborator grant.
pub struct AddCollaboratorRequest {
    pub email: String,
    pub role: String,
}

/// The public shape of one collaborator grant.
pub struct CollaboratorResponse {
    pub user_id: String,
    pub user_name: String,
    pub user_email: String,
    pub role: String,
}

/// All collaborators of one project.
pub struct CollaboratorsListResponse {
    pub collaborators: Vec<CollaboratorResponse>,
}

/// Path parameters addressing one collaborator of one project.
pub struct CollaboratorPathParams {
    pub id: String,
    pub user_id: String,
}

/// A project name must not be blank: white-space alone is rejected.
pub fn validate_project_name(name: &str) -> (r: Result<(), AppError>)
    ensures
        r is Ok <==> trim_spec(name@).len() > 0,
        r matches Err(e) ==> e is Validation,
{
    let trimmed = trim(name);
    if trimmed.unicode_len() == 0 {
        Err(AppError::Validation("Project name is required".to_owned()))
    } else {
        Ok(())
    }
}

/// Granting a collaborator is rejected when the target account is the
/// caller's own.
pub fn validate_collaborator_target(target_user_id: &String, user_id: &String) -> (r: Result<
    (),
    AppError,
>)
    ensures
        r is Ok <==> target_user_id@ != user_id@,
        r matches Err(e) ==> e is Validation,
{
    if *target_user_id == *user_id {
        Err(AppError::Validation("Cannot add yourself as a collaborator".to_owned()))
    } else {
        Ok(())
    }
}

/// Only the owner may manage a project's collaborators or delete the
/// project.
pub fn owner_only(owner_id: &String, user_id: &String, action: &str) -> (r: Result<(), AppError>)
    ensures
        r is Ok <==> owner_id@ == user_id@,
        r matches Err(e) ==> e is Forbidden,
{
    if *owner_id == *user_id {
        Ok(())
    } else {
        let mut m: String = "Only the owner can ".to_owned();
        m.append(action);
        Err(AppError::Forbidden(m))
    }
}

} // verus!
