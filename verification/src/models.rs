//! Plain rows of the relational store that carry no external types.

use vstd::prelude::*;

verus! {

/// One collaborator grant: a user's role on a project.
pub struct ProjectCollaborator {
    pub project_id: String,
    pub user_id: String,
    pub role: String,
}

} // verus!
