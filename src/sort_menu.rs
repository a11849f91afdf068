//! The menu that picks a display ordering for the tasks or the workspaces.
use vstd::prelude::*;

use crate::action::{Action, ComponentId};
use crate::selection::{next_row, previous_row};
use crate::structs::{TaskSortType, TaskSorter, WorkspaceSortType, WorkspaceSorter};

verus! {

/// Number of orderings offered for tasks.
pub const TASK_OPTIONS: usize = 5;

/// Number of orderings offered for workspaces.
pub const WORKSPACE_OPTIONS: usize = 3;

/// The task ordering offered at row `i`: name, completion, creation date,
/// priority, description.
pub open spec fn task_option(i: int) -> TaskSortType {
    if i == 0 {
        TaskSortType::Name
    } else if i == 1 {
        TaskSortType::Completion
    } else if i == 2 {
        TaskSortType::CreateDate
    } else if i == 3 {
        TaskSortType::Priority
    } else {
        TaskSortType::Description
    }
}

/// The workspace ordering offered at row `i`: name, creation date, last update.
pub open spec fn workspace_option(i: int) -> WorkspaceSortType {
    if i == 0 {
        WorkspaceSortType::Name
    } else if i == 1 {
        WorkspaceSortType::CreateDate
    } else {
        WorkspaceSortType::UpdateDate
    }
}

fn task_option_at(i: usize) -> (r: TaskSortType)
    ensures
        r == task_option(i as int),
{
    if i == 0 {
        TaskSortType::Name
    } else if i == 1 {
        TaskSortType::Completion
    } else if i == 2 {
        TaskSortType::CreateDate
    } else if i == 3 {
        TaskSortType::Priority
    } else {
        TaskSortType::Description
    }
}

fn workspace_option_at(i: usize) -> (r: WorkspaceSortType)
    ensures
        r == workspace_option(i as int),
{
    if i == 0 {
        WorkspaceSortType::Name
    } else if i == 1 {
        WorkspaceSortType::CreateDate
    } else {
        WorkspaceSortType::UpdateDate
    }
}

/// The sort menu: which list it sorts, the options, the row picked and the
/// direction.
pub struct SortMenu {
    pub is_focused: bool,
    pub objective: ComponentId,
    pub options: usize,
    pub selected: Option<usize>,
    pub desc: bool,
}

/// What the sort menu does with one action: `pre` becomes `post` and `out`
/// is sent on.
pub open spec fn sort_menu_step(pre: SortMenu, action: Action, post: SortMenu, out: Seq<Action>) -> bool {
    &&& (action matches Action::Tick ==> out.len() == 0 && post == pre)
    &&& (action matches Action::GoDown ==> out.len() == 0 && post.selected == if pre.options > 0 {
                next_row(pre.selected, pre.options as int)
            } else {
                pre.selected
            })
    &&& (action matches Action::GoUp ==> out.len() == 0 && post.selected == if pre.options > 0 {
                previous_row(pre.selected, pre.options as int)
            } else {
                pre.selected
            })
    &&& (action matches Action::ToggleSortDirection ==> out.len() == 0 && post.desc
                == !pre.desc)
    &&& (action matches Action::Cancel ==> out == seq![Action::ExitSortMenu(pre.objective)])
    &&& (action matches Action::Select ==> match pre.selected {
                Some(i) => if pre.objective == ComponentId::Tasks {
                    out == seq![
                        Action::SortTasks(TaskSorter { desc: pre.desc, sort_type: task_option(i as int) }),
                        Action::ExitSortMenu(pre.objective),
                    ]
                } else if pre.objective == ComponentId::Workspaces {
                    out == seq![
                        Action::SortWorkspaces(WorkspaceSorter { desc: pre.desc, sort_type: workspace_option(i as int) }),
                        Action::ExitSortMenu(pre.objective),
                    ]
                } else {
                    out == seq![Action::ExitSortMenu(pre.objective)]
                },
                None => out == seq![Action::ExitSortMenu(pre.objective)],
            })
    &&& (action matches Action::SetupSortMenu(id) ==> out.len() == 0 && (id
                == ComponentId::Tasks ==> post.objective == id && post.options
                == TASK_OPTIONS && post.selected == Some(0usize)) && (id
                == ComponentId::Workspaces ==> post.objective == id && post.options
                == WORKSPACE_OPTIONS && post.selected == Some(0usize)))
}

impl SortMenu {
    /// The picked row lies among the options.
    pub open spec fn wf(&self) -> bool {
        self.selected matches Some(i) ==> i < self.options
    }

    pub fn new() -> (r: Self)
        ensures
            r.wf(),
            r.objective == ComponentId::Workspaces,
            r.options == 0,
            r.selected is None,
            !r.desc,
            !r.is_focused,
    {
        SortMenu {
            is_focused: false,
            objective: ComponentId::Workspaces,
            options: 0,
            selected: None,
            desc: false,
        }
    }

    /// Marks whether the menu has the focus; losing it clears the menu.
    pub fn focus(&mut self, focus: bool)
        requires
            old(self).wf(),
        ensures
            final(self).wf(),
            final(self).is_focused == focus,
            final(self).objective == old(self).objective,
            !focus ==> final(self).options == 0 && final(self).selected is None && !final(self).desc,
            focus ==> final(self).options == old(self).options && final(self).selected == old(self).selected && final(self).desc == old(self).desc,
    {
        self.is_focused = focus;
        if !focus {
            self.options = 0;
            self.selected = None;
            self.desc = false;
        }
    }

    /// Reacts to one action; returns the actions it sends on.
    pub fn update(&mut self, action: Action) -> (out: Vec<Action>)
        requires
            old(self).wf(),
        ensures
            final(self).wf(),
            sort_menu_step(*old(self), action, *final(self), out@),
    {
        let mut out: Vec<Action> = Vec::new();
        match action {
            Action::GoUp => {
                if self.options > 0 {
                    self.selected = match self.selected {
                        Some(i) => if i == 0 {
                            Some(self.options - 1)
                        } else {
                            Some(i - 1)
                        },
                        None => Some(0),
                    };
                }
            },
            Action::GoDown => {
                if self.options > 0 {
                    self.selected = match self.selected {
                        Some(i) => Some((i + 1) % self.options),
                        None => Some(0),
                    };
                }
            },
            Action::GoToTop => {
                if self.options > 0 {
                    self.selected = Some(0);
                }
            },
            Action::GoToBottom => {
                if self.options > 0 {
                    self.selected = Some(self.options - 1);
                }
            },
            Action::Select => {
                if let Some(i) = self.selected {
                    if self.objective == ComponentId::Tasks {
                        out.push(Action::SortTasks(TaskSorter::new(task_option_at(i), self.desc)));
                    } else if self.objective == ComponentId::Workspaces {
                        out.push(
                            Action::SortWorkspaces(
                                WorkspaceSorter::new(workspace_option_at(i), self.desc),
                            ),
                        );
                    }
                }
                out.push(Action::ExitSortMenu(self.objective));
                proof {
                    if out@.len() == 2 {
                        assert(out@ =~= seq![out@[0], out@[1]]);
                    } else {
                        assert(out@ =~= seq![out@[0]]);
                    }
                }
            },
            Action::Cancel => {
                out.push(Action::ExitSortMenu(self.objective));
            },
            Action::ToggleSortDirection => {
                self.desc = !self.desc;
            },
            Action::SetupSortMenu(id) => {
                if id == ComponentId::Tasks {
                    self.objective = id;
                    self.options = TASK_OPTIONS;
                    self.selected = Some(0);
                } else if id == ComponentId::Workspaces {
                    self.objective = id;
                    self.options = WORKSPACE_OPTIONS;
                    self.selected = Some(0);
                }
            },
            _ => {},
        }
        out
    }
}

} // verus!
