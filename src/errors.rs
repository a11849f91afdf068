use vstd::prelude::*;

verus! {

/// Failures of the record store that callers are expected to recover from.
#[derive(Debug, PartialEq, Eq)]
pub enum DoMeError {
    /// A task of that name already exists in the workspace.
    TaskAlreadyExists(String),
    /// A workspace of that name already exists.
    WorkspaceAlreadyExists(String),
    /// No task has this id.
    TaskNotFound(i32),
    /// No workspace has this id.
    WorkspaceNotFound(i32),
    /// Every id of the record kind has been handed out.
    IdsExhausted,
}

} // verus!
