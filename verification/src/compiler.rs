//! The compilation service's configuration and result shapes.

use vstd::prelude::*;

verus! {

/// Builds rendered artifacts for projects stored under one path.
pub struct CompilerService {
    pub storage_path: String,
}

/// One error a build reported.
pub struct CompileError {
    pub file: String,
    pub line: Option<i32>,
    pub message: String,
}

/// One warning a build reported.
pub struct CompileWarning {
    pub file: String,
    pub line: Option<i32>,
    pub message: String,
}

/// Outcome of one build.
pub struct CompileResult {
    pub success: bool,
    pub pdf_path: Option<String>,
    pub log: String,
    pub errors: Vec<CompileError>,
    pub warnings: Vec<CompileWarning>,
}

impl CompilerService {
    pub fn new(storage_path: String) -> (r: CompilerService)
        ensures
            r.storage_path@ == storage_path@,
    {
        CompilerService { storage_path }
    }
}

} // verus!
