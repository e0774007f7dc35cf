use vstd::prelude::*;

pub mod args;
pub mod errors;
pub mod helpers;
pub mod issues;
pub mod listing;
pub mod paths;
pub mod statuses;

pub use args::{Cli, CloseIssue, CreateIssue, EntityType, IssueCommand, ListIssues};
pub use errors::IssueError;
pub use helpers::{
    base_path, base_path_all, base_path_closed, check_if_dir_is_repo, get_closed_dir,
    get_file_name, get_valid_issue, get_valid_repo, is_not_empty, is_valid_iso_date, slug,
    slug_tag, sys_base_path,
};
pub use issues::{Issue, Issues, KanbanDirs};
pub use listing::{traverse_dirs, traverse_files, Entry};
pub use paths::Location;
pub use statuses::Status;

verus! {

} // verus!
