//! Actions, their recipients, and the fixed table that routes one to the other.
use vstd::prelude::*;

use crate::keys::Key;
use crate::structs::{
    AddTask, AddWorkspace, Task, TaskSorter, UpdateTask, UpdateWorkspace, Workspace,
    WorkspaceSorter,
};

verus! {

/// The addressable recipients of actions, and the two virtual targets.
#[derive(Debug, Default, Clone, Copy, PartialEq, Eq, Structural, Hash)]
pub enum ComponentId {
    #[default]
    Workspaces,
    Tasks,
    SortMenu,
    FpsCounter,
    DatabaseGet,
    DatabaseSetTasks,
    DatabaseSetWorkspaces,
    /// Every recipient.
    All,
    /// The recipient that has the focus.
    Focused,
}

/// The input mode of the interface.
#[derive(Debug, Default, Clone, Copy, PartialEq, Eq, Structural, Hash)]
pub enum Mode {
    #[default]
    Navigation,
    Global,
    /// Text entry: every key goes to the focused recipient as it is.
    Insert,
}

/// One intent or event flowing through the dispatcher.
#[derive(Debug, PartialEq, Eq, Clone)]
pub enum Action {
    Tick,
    Render,
    Resize(u16, u16),
    Suspend,
    Resume,
    Quit,
    ClearScreen,
    Error(String),
    Help,
    GoUp,
    GoDown,
    GoToTop,
    GoToBottom,
    LeaveInsertMode,
    EnterInsertMode,
    AddItemBefore,
    AddItemAfter,
    DeleteItem,
    EditItem,
    MoveItemUp,
    MoveItemDown,
    MoveItemTop,
    MoveItemBottom,
    SendKeyEvent(Key),
    AddTask(AddTask),
    AddWorkspace(AddWorkspace),
    UpdateTask(UpdateTask),
    UpdateWorkspace(UpdateWorkspace),
    RemoveTask(i32),
    RemoveWorkspace(i32),
    RequestTasksData(i32),
    RequestWorkspacesData,
    NewTasksData(Vec<Task>, i32),
    NewWorkspacesData(Vec<Workspace>),
    SelectWorkspace(i32),
    UnselectWorkspace,
    HighlightWorkspace(String),
    HighlightTask(String),
    FocusOnTasks,
    FocusOnWorkspaces,
    ToggleCompletion,
    EditDescription,
    IncreasePriority,
    DecreasePriority,
    SortTasks(TaskSorter),
    SortWorkspaces(WorkspaceSorter),
    ToggleSortDirection,
    Select,
    ExitSortMenu(ComponentId),
    SetupSortMenu(ComponentId),
    Cancel,
    OpenSortMenu,
}

/// A recipient that exists, as opposed to `All` and `Focused`.
pub open spec fn is_concrete(c: ComponentId) -> bool {
    c != ComponentId::All && c != ComponentId::Focused
}

/// The routing table: which recipient each action goes to.
pub open spec fn route(a: Action) -> ComponentId {
    match a {
        Action::AddTask(_) | Action::UpdateTask(_) | Action::RemoveTask(_) => {
            ComponentId::DatabaseSetTasks
        },
        Action::AddWorkspace(_) | Action::UpdateWorkspace(_) | Action::RemoveWorkspace(_) => {
            ComponentId::DatabaseSetWorkspaces
        },
        Action::RequestTasksData(_) | Action::RequestWorkspacesData => ComponentId::DatabaseGet,
        Action::NewTasksData(..) | Action::HighlightTask(_) | Action::SortTasks(_) => {
            ComponentId::Tasks
        },
        Action::NewWorkspacesData(_) | Action::HighlightWorkspace(_) | Action::SortWorkspaces(
            _,
        ) => ComponentId::Workspaces,
        Action::ToggleSortDirection | Action::SetupSortMenu(_) => ComponentId::SortMenu,
        Action::GoUp | Action::GoDown | Action::GoToTop | Action::GoToBottom | Action::AddItemAfter
        | Action::AddItemBefore | Action::DeleteItem | Action::EditDescription
        | Action::ToggleCompletion | Action::IncreasePriority | Action::DecreasePriority
        | Action::EditItem | Action::MoveItemUp | Action::MoveItemDown | Action::MoveItemTop
        | Action::MoveItemBottom | Action::SendKeyEvent(_) | Action::Select | Action::Cancel => {
            ComponentId::Focused
        },
        Action::Tick | Action::Render | Action::Resize(..) | Action::Suspend | Action::Resume
        | Action::Quit | Action::ClearScreen | Action::Error(_) | Action::Help
        | Action::LeaveInsertMode | Action::EnterInsertMode | Action::SelectWorkspace(_)
        | Action::UnselectWorkspace | Action::FocusOnTasks | Action::FocusOnWorkspaces
        | Action::ExitSortMenu(_) | Action::OpenSortMenu => ComponentId::All,
    }
}

/// Routing is total: every action goes to exactly one of a concrete
/// recipient, every recipient, or the focused one.
pub proof fn lemma_route_total(a: Action)
    ensures
        is_concrete(route(a)) || route(a) == ComponentId::All || route(a) == ComponentId::Focused,
        !(is_concrete(route(a)) && route(a) == ComponentId::All),
        !(is_concrete(route(a)) && route(a) == ComponentId::Focused),
        route(a) != ComponentId::FpsCounter,
{
}

impl Action {
    /// The recipient of this action.
    pub fn get_target(&self) -> (r: ComponentId)
        ensures
            r == route(*self),
    {
        match self {
            Action::AddTask(_) | Action::UpdateTask(_) | Action::RemoveTask(_) => {
                ComponentId::DatabaseSetTasks
            },
            Action::AddWorkspace(_) | Action::UpdateWorkspace(_) | Action::RemoveWorkspace(_) => {
                ComponentId::DatabaseSetWorkspaces
            },
            Action::RequestTasksData(_) | Action::RequestWorkspacesData => ComponentId::DatabaseGet,
            Action::NewTasksData(..) | Action::HighlightTask(_) => ComponentId::Tasks,
            Action::NewWorkspacesData(_) | Action::HighlightWorkspace(_) => ComponentId::Workspaces,
            Action::GoUp
            | Action::GoDown
            | Action::GoToTop
            | Action::GoToBottom
            | Action::AddItemAfter
            | Action::AddItemBefore
            | Action::DeleteItem
            | Action::EditDescription
            | Action::ToggleCompletion
            | Action::IncreasePriority
            | Action::DecreasePriority
            | Action::EditItem
            | Action::MoveItemUp
            | Action::MoveItemDown
            | Action::MoveItemTop
            | Action::MoveItemBottom
            | Action::SendKeyEvent(..) => ComponentId::Focused,
            Action::SortTasks(_) => ComponentId::Tasks,
            Action::SortWorkspaces(_) => ComponentId::Workspaces,
            Action::ToggleSortDirection | Action::SetupSortMenu(_) => ComponentId::SortMenu,
            Action::Select | Action::Cancel => ComponentId::Focused,
            Action::Tick
            | Action::Render
            | Action::Resize(..)
            | Action::Suspend
            | Action::Resume
            | Action::Quit
            | Action::ClearScreen
            | Action::Error(_)
            | Action::Help
            | Action::LeaveInsertMode
            | Action::EnterInsertMode
            | Action::SelectWorkspace(_)
            | Action::UnselectWorkspace
            | Action::FocusOnTasks
            | Action::FocusOnWorkspaces
            | Action::ExitSortMenu(_)
            | Action::OpenSortMenu => ComponentId::All,
        }
    }
}

} // verus!
