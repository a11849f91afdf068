use vstd::prelude::*;

verus! {

/// A point in time, as whole seconds since the Unix epoch (UTC).
#[derive(Debug, Clone, Copy, PartialEq, Eq, Structural, PartialOrd, Ord, Hash, Default)]
pub struct Timestamp {
    pub seconds: i64,
}

/// A to-do item. `order` is its position among the tasks of its workspace.
#[derive(Default, Debug, PartialEq, Eq)]
pub struct Task {
    pub id: i32,
    pub name: String,
    pub description: String,
    pub priority: i32,
    pub completed: bool,
    pub create_date: Timestamp,
    pub order: usize,
    pub workspace_id: i32,
}

impl Clone for Task {
    fn clone(&self) -> (r: Self)
        ensures
            r == *self,
    {
        Task {
            id: self.id,
            name: self.name.clone(),
            description: self.description.clone(),
            priority: self.priority,
            completed: self.completed,
            create_date: self.create_date,
            order: self.order,
            workspace_id: self.workspace_id,
        }
    }
}

/// A named group of tasks. `order` is its position among all workspaces.
#[derive(Default, Debug, PartialEq, Eq)]
pub struct Workspace {
    pub id: i32,
    pub name: String,
    pub order: usize,
    pub create_date: Timestamp,
    pub update_date: Timestamp,
}

impl Clone for Workspace {
    fn clone(&self) -> (r: Self)
        ensures
            r == *self,
    {
        Workspace {
            id: self.id,
            name: self.name.clone(),
            order: self.order,
            create_date: self.create_date,
            update_date: self.update_date,
        }
    }
}

/// How tasks are ordered for display.
#[derive(Debug, Default, Clone, Copy, PartialEq, Eq, Structural, Hash)]
pub enum TaskSortType {
    #[default]
    Order,
    Priority,
    Completion,
    CreateDate,
    Name,
    Description,
}

/// A display ordering of tasks: a key and a direction.
#[derive(Debug, Default, Clone, Copy, PartialEq, Eq, Structural, Hash)]
pub struct TaskSorter {
    pub desc: bool,
    pub sort_type: TaskSortType,
}

/// How workspaces are ordered for display.
#[derive(Debug, Default, Clone, Copy, PartialEq, Eq, Structural, Hash)]
pub enum WorkspaceSortType {
    #[default]
    Order,
    CreateDate,
    UpdateDate,
    Name,
}

/// A display ordering of workspaces: a key and a direction.
#[derive(Debug, Default, Clone, Copy, PartialEq, Eq, Structural, Hash)]
pub struct WorkspaceSorter {
    pub desc: bool,
    pub sort_type: WorkspaceSortType,
}

impl WorkspaceSorter {
    pub fn new(sort_type: WorkspaceSortType, desc: bool) -> (r: Self)
        ensures
            r.sort_type == sort_type,
            r.desc == desc,
    {
        Self { sort_type, desc }
    }
}

impl TaskSorter {
    pub fn new(sort_type: TaskSortType, desc: bool) -> (r: Self)
        ensures
            r.sort_type == sort_type,
            r.desc == desc,
    {
        Self { sort_type, desc }
    }
}

/// A request to create a task. Unset fields take their defaults: an empty
/// description, the default priority, the end of the workspace.
#[derive(Default, Debug, Clone, PartialEq, Eq)]
pub struct AddTask {
    pub name: String,
    pub description: Option<String>,
    pub priority: Option<i32>,
    pub order: Option<usize>,
    pub workspace_id: i32,
}

/// A request to create a workspace, at the end unless a place is given.
#[derive(Default, Debug, Clone, PartialEq, Eq)]
pub struct AddWorkspace {
    pub name: String,
    pub order: Option<usize>,
}

/// A partial update of a task: unset fields are left as they are.
#[derive(Default, Debug, Clone, PartialEq, Eq)]
pub struct UpdateTask {
    pub id: i32,
    pub name: Option<String>,
    pub description: Option<String>,
    pub priority: Option<i32>,
    pub completed: Option<bool>,
    pub order: Option<usize>,
}

/// A partial update of a workspace: unset fields are left as they are.
#[derive(Default, Debug, Clone, PartialEq, Eq)]
pub struct UpdateWorkspace {
    pub id: i32,
    pub name: Option<String>,
    pub order: Option<usize>,
}

} // verus!
