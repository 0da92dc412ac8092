//! File endpoint types and their validation and update rules.

use vstd::prelude::*;

use crate::error::AppError;
use crate::text::{trim, trim_spec};

verus! {

/// Body of a file-creation request.
pub struct CreateFileRequest {
    pub name: String,
    pub path: String,
    pub is_folder: bool,
    pub content: Option<String>,
}

/// Body of a file rename or move.
pub struct UpdateFileRequest {
    pub name: Option<String>,
    pub path: Option<String>,
}

/// Body of a content update.
pub struct UpdateContentRequest {
    pub content: String,
}

/// The public shape of one file entry.
pub struct FileResponse {
    pub id: String,
    pub project_id: String,
    pub name: String,
    pub path: String,
    pub is_folder: bool,
}

/// All files of one project.
pub struct FileListResponse {
    pub files: Vec<FileResponse>,
}

/// The text of one file.
pub struct FileContentResponse {
    pub content: String,
}

/// Outcome of a multi-file upload: what was stored, and why the rest was
/// not.
pub struct UploadResponse {
    pub uploaded: Vec<FileResponse>,
    pub errors: Vec<String>,
}

/// A file name must not be blank: white-space alone is rejected.
pub fn validate_file_name(name: &str) -> (r: Result<(), AppError>)
    ensures
        r is Ok <==> trim_spec(name@).len() > 0,
        r matches Err(e) ==> e is Validation,
{
    let trimmed = trim(name);
    if trimmed.unicode_len() == 0 {
        Err(AppError::Validation("File name is required".to_owned()))
    } else {
        Ok(())
    }
}

/// A path already holding a file (positive row count) rejects creation.
pub fn path_conflict(rows: i64) -> (r: Result<(), AppError>)
    ensures
        r is Ok <==> rows <= 0,
        r matches Err(e) ==> e is Validation,
{
    if rows > 0 {
        Err(AppError::Validation("File already exists at this path".to_owned()))
    } else {
        Ok(())
    }
}

/// Apply an update request to a file's name and path: each field changes
/// exactly when the request carries a replacement.
pub fn merge_file_update(name: String, path: String, update: UpdateFileRequest) -> (r: (
    String,
    String,
))
    ensures
        update.name matches Some(n) ==> r.0@ == n@,
        update.name is None ==> r.0@ == name@,
        update.path matches Some(p) ==> r.1@ == p@,
        update.path is None ==> r.1@ == path@,
{
    let new_name = match update.name {
        Some(n) => n,
        None => name,
    };
    let new_path = match update.path {
        Some(p) => p,
        None => path,
    };
    (new_name, new_path)
}

/// Whether a file must also move on disk: exactly when the stored path
/// changed.
pub fn needs_rename(old_path: &String, new_path: &String) -> (r: bool)
    ensures
        r == (old_path@ != new_path@),
{
    !(*old_path == *new_path)
}

/// Content operations address files; a folder is rejected.
pub fn reject_folder_content(is_folder: bool) -> (r: Result<(), AppError>)
    ensures
        r is Ok <==> !is_folder,
        r matches Err(e) ==> e is BadRequest,
{
    if is_folder {
        Err(AppError::BadRequest("Cannot get content of a folder".to_owned()))
    } else {
        Ok(())
    }
}

} // verus!
