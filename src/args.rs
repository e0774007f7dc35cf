use vstd::prelude::*;

verus! {

/// Manage your project and issues
#[derive(Debug)]
pub struct Cli {
    pub entity_type: EntityType,
}

#[derive(Debug)]
pub enum EntityType {
    /// Create, list, close issues
    Issue(IssueCommand),
}

#[derive(Debug)]
pub enum IssueCommand {
    /// Creates a new issue
    Create(CreateIssue),
    /// Lists all issues
    List(ListIssues),
    /// Closes an issue
    Close(CloseIssue),
}

#[derive(Debug)]
pub struct ListIssues {}

#[derive(Debug)]
pub struct CreateIssue {
    /// Name of the issue
    pub name: String,
}

#[derive(Debug)]
pub struct CloseIssue {
    /// Name or path of the issue
    pub path: String,
}

} // verus!
