//! Project file layout on disk: where a project and a file inside it live.
//!
//! Paths are plain strings joined with `/`; the callers hand in relative
//! project identifiers and file paths. The functions that touch the disk
//! live with the runtime, outside this library.

use vstd::prelude::*;

verus! {

/// Locates project data under one base directory.
pub struct StorageService {
    pub base_path: String,
}

impl StorageService {
    pub fn new(base_path: String) -> (r: StorageService)
        ensures
            r.base_path@ == base_path@,
    {
        StorageService { base_path }
    }

    /// The directory of one project: the base path, a separator, and the
    /// project identifier.
    pub fn project_path(&self, project_id: &str) -> (r: String)
        ensures
            r@ == self.base_path@ + seq!['/'] + project_id@,
    {
        let mut s = self.base_path.clone();
        s.append("/");
        s.append(project_id);
        proof {
            reveal_strlit("/");
            assert("/"@ =~= seq!['/']);
            assert(s@ =~= self.base_path@ + seq!['/'] + project_id@);
        }
        s
    }

    /// The location of one file inside a project: the project directory,
    /// a separator, and the file's relative path.
    pub fn file_path(&self, project_id: &str, file_path: &str) -> (r: String)
        ensures
            r@ == self.base_path@ + seq!['/'] + project_id@ + seq!['/'] + file_path@,
    {
        let mut s = self.project_path(project_id);
        s.append("/");
        s.append(file_path);
        proof {
            reveal_strlit("/");
            assert("/"@ =~= seq!['/']);
            assert(s@ =~= self.base_path@ + seq!['/'] + project_id@ + seq!['/'] + file_path@);
        }
        s
    }
}

} // verus!
