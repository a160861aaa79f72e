//! Errors of the library.

use vstd::prelude::*;

verus! {

/// Why a scan or a pipeline run was refused.
#[derive(Debug, Clone)]
pub enum RepoIntelError {
    /// The root to scan does not exist.
    RootNotFound { path: String },
    /// The root to scan exists but is not a directory.
    RootNotDirectory { path: String },
}

} // verus!
