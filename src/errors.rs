use vstd::prelude::*;

use crate::paths::Location;

verus! {

/// Everything that can go wrong on the board.
#[derive(Debug, Clone)]
pub enum IssueError {
    /// The working directory is not a repository.
    NotARepository,
    /// A path does not lie directly under a stage directory.
    InvalidStage { path: Location },
    /// An issue of this name already lives at `path`.
    AlreadyExists { name: String, path: Location },
    /// The input names no issue.
    NoMatch { input: String },
    /// A status marker outside the vocabulary; `allowed` lists the vocabulary.
    InvalidStatus { found: String, allowed: Vec<String> },
    /// More than one status marker sits in one issue directory.
    MultipleStatusMarkers { found: Vec<String> },
    /// A name that must not be empty was empty.
    EmptyName,
    /// The path is not an issue directory.
    InvalidIssue { path: Location },
    /// The text is not a `YYYY-MM-DD` date.
    InvalidDate { input: String },
}

} // verus!
