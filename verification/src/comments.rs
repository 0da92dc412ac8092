//! Comment endpoint types and their validation rules.

use vstd::prelude::*;

use crate::error::AppError;
use crate::text::{trim, trim_spec};

verus! {

/// Body of a comment-creation request.
pub struct CreateCommentRequest {
    pub project_id: String,
    pub file_path: String,
    pub content: String,
    pub line_start: i32,
    pub line_end: i32,
}

/// Query selecting the comments of one file.
pub struct FileCommentsQuery {
    pub file_path: String,
}

/// The public shape of one comment.
pub struct CommentResponse {
    pub id: String,
    pub project_id: String,
    pub file_path: String,
    pub author_id: String,
    pub author_name: String,
    pub content: String,
    pub line_start: i32,
    pub line_end: i32,
    pub resolved: bool,
    pub created_at: String,
}

/// A list of comments.
pub struct CommentsListResponse {
    pub comments: Vec<CommentResponse>,
}

/// A comment needs non-blank content and a line range that starts at one
/// or later and does not run backwards; the content rule is checked
/// first.
pub fn validate_comment(content: &str, line_start: i32, line_end: i32) -> (r: Result<
    (),
    AppError,
>)
    ensures
        r is Ok <==> trim_spec(content@).len() > 0 && line_start >= 1 && line_end >= line_start,
        r matches Err(e) ==> e is Validation,
{
    let trimmed = trim(content);
    if trimmed.unicode_len() == 0 {
        return Err(AppError::Validation("Comment content is required".to_owned()));
    }
    if line_start < 1 || line_end < line_start {
        return Err(AppError::Validation("Invalid line range".to_owned()));
    }
    Ok(())
}

} // verus!
