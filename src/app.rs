//! The dispatcher: owns the store, the recipients, the focus and the input
//! mode, and runs one action at a time to completion, returning the actions
//! it leads to.
use vstd::prelude::*;

use crate::action::{route, Action, ComponentId, Mode};
use crate::errors::DoMeError;
use crate::keys::{
    after_tick, kept_keys, resolve, Key, KeyOutcome, Keymap, SequenceState, SEQUENCE_TIMEOUT,
};
use crate::sort_menu::{sort_menu_step, SortMenu};
use crate::store::{
    task_name_used, task_renamed_into_conflict, workspace_name_used,
    workspace_renamed_into_conflict, DatabaseOperations,
};
use crate::structs::{Task, Timestamp};
use crate::tasks::{tasks_step, TasksComponent};
use crate::workspaces::{workspaces_step, WorkspacesComponent};

verus! {

/// The recipients that can hold the focus.
pub open spec fn focusable(c: ComponentId) -> bool {
    c == ComponentId::Workspaces || c == ComponentId::Tasks || c == ComponentId::SortMenu
}

/// The action reaches recipient `c`, directly, through the focus, or as one of all.
pub open spec fn reaches(a: Action, focused: ComponentId, c: ComponentId) -> bool {
    route(a) == c || route(a) == ComponentId::All || (route(a) == ComponentId::Focused && focused
        == c)
}

/// The action moves the focus to another recipient.
pub open spec fn moves_focus(a: Action) -> bool {
    a == Action::FocusOnTasks || a == Action::FocusOnWorkspaces || a == Action::OpenSortMenu
        || a is ExitSortMenu
}

/// A copy of an action that goes to every recipient.
fn copy_broadcast(a: &Action) -> (r: Action)
    requires
        route(*a) == ComponentId::All,
    ensures
        r == *a,
{
    match a {
        Action::Tick => Action::Tick,
        Action::Render => Action::Render,
        Action::Resize(w, h) => Action::Resize(*w, *h),
        Action::Suspend => Action::Suspend,
        Action::Resume => Action::Resume,
        Action::Quit => Action::Quit,
        Action::ClearScreen => Action::ClearScreen,
        Action::Error(s) => Action::Error(s.clone()),
        Action::Help => Action::Help,
        Action::LeaveInsertMode => Action::LeaveInsertMode,
        Action::EnterInsertMode => Action::EnterInsertMode,
        Action::SelectWorkspace(id) => Action::SelectWorkspace(*id),
        Action::UnselectWorkspace => Action::UnselectWorkspace,
        Action::FocusOnTasks => Action::FocusOnTasks,
        Action::FocusOnWorkspaces => Action::FocusOnWorkspaces,
        Action::ExitSortMenu(id) => Action::ExitSortMenu(*id),
        Action::OpenSortMenu => Action::OpenSortMenu,
        _ => Action::Tick,
    }
}

/// The dispatcher and everything it owns.
pub struct App {
    database: DatabaseOperations,
    workspaces: WorkspacesComponent,
    tasks: TasksComponent,
    sort_menu: SortMenu,
    focused: ComponentId,
    should_quit: bool,
    should_suspend: bool,
    mode: Mode,
    keys: SequenceState,
    global_keys: Keymap,
    navigation_keys: Keymap,
}

impl App {
    /// The store.
    pub closed spec fn db(&self) -> DatabaseOperations {
        self.database
    }

    /// The list of workspaces.
    pub closed spec fn workspaces_list(&self) -> WorkspacesComponent {
        self.workspaces
    }

    /// The list of tasks.
    pub closed spec fn tasks_list(&self) -> TasksComponent {
        self.tasks
    }

    /// The sort menu.
    pub closed spec fn menu(&self) -> SortMenu {
        self.sort_menu
    }

    /// The recipient that has the focus.
    pub closed spec fn focus_of(&self) -> ComponentId {
        self.focused
    }

    /// A quit was asked for.
    pub closed spec fn quitting(&self) -> bool {
        self.should_quit
    }

    /// A suspension was asked for and not yet resumed.
    pub closed spec fn suspending(&self) -> bool {
        self.should_suspend
    }

    /// The input mode.
    pub closed spec fn input_mode(&self) -> Mode {
        self.mode
    }

    /// The key-sequence matcher.
    pub closed spec fn sequence(&self) -> SequenceState {
        self.keys
    }

    /// The keymap that applies in every mode.
    pub closed spec fn global_map(&self) -> Keymap {
        self.global_keys
    }

    /// The keymap of navigation mode.
    pub closed spec fn navigation_map(&self) -> Keymap {
        self.navigation_keys
    }

    /// Everything owned is well formed and the focus is on a recipient that can hold it.
    pub closed spec fn wf(&self) -> bool {
        &&& self.database.wf()
        &&& self.workspaces.wf()
        &&& self.tasks.wf()
        &&& self.sort_menu.wf()
        &&& self.keys.wf()
        &&& self.global_keys.wf()
        &&& self.navigation_keys.wf()
        &&& focusable(self.focused)
    }

    /// A dispatcher over `database`, the workspaces focused, in navigation
    /// mode, with the two keymaps.
    pub fn new(database: DatabaseOperations, global_keys: Keymap, navigation_keys: Keymap) -> (r: Self)
        requires
            database.wf(),
            global_keys.wf(),
            navigation_keys.wf(),
        ensures
            r.wf(),
            r.db() == database,
            r.focus_of() == ComponentId::Workspaces,
            r.input_mode() == Mode::Navigation,
            !r.quitting(),
            !r.suspending(),
            r.sequence() == SequenceState::Idle,
    {
        let mut workspaces = WorkspacesComponent::new();
        workspaces.focus(true);
        App {
            database,
            workspaces,
            tasks: TasksComponent::new(),
            sort_menu: SortMenu::new(),
            focused: ComponentId::Workspaces,
            should_quit: false,
            should_suspend: false,
            mode: Mode::Navigation,
            keys: SequenceState::Idle,
            global_keys,
            navigation_keys,
        }
    }

    /// The actions the recipients ask for when they start.
    pub fn init(&self) -> (out: Vec<Action>)
        ensures
            out@ == seq![Action::RequestWorkspacesData],
    {
        self.workspaces.init()
    }

    /// Runs one key press through the matcher, in the current mode, against
    /// the global keymap and then the navigation keymap.
    pub fn handle_key_event(&mut self, key: Key) -> (r: KeyOutcome)
        requires
            old(self).wf(),
        ensures
            final(self).wf(),
            final(self).db() == old(self).db(),
            final(self).focus_of() == old(self).focus_of(),
            final(self).input_mode() == old(self).input_mode(),
            final(self).global_map() == old(self).global_map(),
            final(self).navigation_map() == old(self).navigation_map(),
            final(self).workspaces_list() == old(self).workspaces_list(),
            final(self).tasks_list() == old(self).tasks_list(),
            final(self).menu() == old(self).menu(),
            old(self).input_mode() == Mode::Insert ==> r == KeyOutcome::Deliver(key) && final(self).sequence()
                == old(self).sequence(),
            old(self).input_mode() != Mode::Insert ==> {
                let buf = old(self).sequence().buffered().push(key);
                &&& r == resolve(buf, old(self).global_map()@, old(self).navigation_map()@)
                &&& final(self).sequence().buffered() == kept_keys(buf, r)
                &&& r == KeyOutcome::Pending ==> final(self).sequence().ticks() == SEQUENCE_TIMEOUT
                &&& r != KeyOutcome::Pending ==> final(self).sequence() == SequenceState::Idle
            },
    {
        self.keys.on_key(key, self.mode, &self.global_keys, &self.navigation_keys)
    }

    /// The action a key outcome fires, if it fires one.
    pub fn bound_action(&self, outcome: KeyOutcome) -> (r: Option<&Action>)
        requires
            self.wf(),
        ensures
            match outcome {
                KeyOutcome::Global(i) => if i < self.global_map()@.len() {
                    r == Some(&self.global_map().action_at(i as int))
                } else {
                    r is None
                },
                KeyOutcome::Local(i) => if i < self.navigation_map()@.len() {
                    r == Some(&self.navigation_map().action_at(i as int))
                } else {
                    r is None
                },
                _ => r is None,
            },
    {
        match outcome {
            KeyOutcome::Global(i) => if i < self.global_keys.len() {
                Some(self.global_keys.action(i))
            } else {
                None
            },
            KeyOutcome::Local(i) => if i < self.navigation_keys.len() {
                Some(self.navigation_keys.action(i))
            } else {
                None
            },
            _ => None,
        }
    }

    /// Moves the focus to `c`.
    fn set_focus(&mut self, c: ComponentId)
        requires
            old(self).wf(),
            focusable(c),
        ensures
            final(self).wf(),
            final(self).focused == c,
            final(self).database == old(self).database,
            final(self).should_quit == old(self).should_quit,
            final(self).should_suspend == old(self).should_suspend,
            final(self).mode == old(self).mode,
            final(self).keys == old(self).keys,
            final(self).workspaces.items() == old(self).workspaces.items(),
            final(self).tasks.items() == old(self).tasks.items(),
    {
        self.workspaces.focus(c == ComponentId::Workspaces);
        self.tasks.focus(c == ComponentId::Tasks);
        self.sort_menu.focus(c == ComponentId::SortMenu);
        self.focused = c;
    }

    /// The dispatcher's own part of an action sent to every recipient.
    fn handle_global(&mut self, action: &Action) -> (out: Vec<Action>)
        requires
            old(self).wf(),
            route(*action) == ComponentId::All,
        ensures
            final(self).wf(),
            final(self).database == old(self).database,
            !moves_focus(*action) ==> final(self).tasks == old(self).tasks && final(self).workspaces
                == old(self).workspaces && final(self).sort_menu == old(self).sort_menu,
            *action == Action::Quit ==> final(self).should_quit,
            *action != Action::Quit ==> final(self).should_quit == old(self).should_quit,
            *action == Action::Suspend ==> final(self).should_suspend,
            *action == Action::Resume ==> !final(self).should_suspend,
            *action != Action::Suspend && *action != Action::Resume ==> final(self).should_suspend
                == old(self).should_suspend,
            *action == Action::EnterInsertMode ==> final(self).mode == Mode::Insert,
            *action == Action::LeaveInsertMode ==> final(self).mode == Mode::Navigation,
            *action != Action::EnterInsertMode && *action != Action::LeaveInsertMode ==> final(self).mode == old(self).mode,
            *action == Action::Tick ==> (final(self).keys.buffered(), final(self).keys.ticks())
                == after_tick(old(self).keys.buffered(), old(self).keys.ticks()),
            *action == Action::FocusOnTasks ==> final(self).focused == ComponentId::Tasks,
            *action == Action::FocusOnWorkspaces ==> final(self).focused == ComponentId::Workspaces,
            *action == Action::OpenSortMenu ==> final(self).focused == ComponentId::SortMenu && out@
                == seq![Action::SetupSortMenu(old(self).focused)],
            *action != Action::OpenSortMenu ==> out@.len() == 0,
            final(self).workspaces.items() == old(self).workspaces.items(),
            final(self).tasks.items() == old(self).tasks.items(),
    {
        let mut out: Vec<Action> = Vec::new();
        match action {
            Action::Tick => {
                self.keys.tick();
            },
            Action::Quit => {
                self.should_quit = true;
            },
            Action::Suspend => {
                self.should_suspend = true;
            },
            Action::Resume => {
                self.should_suspend = false;
            },
            Action::EnterInsertMode => {
                self.mode = Mode::Insert;
                self.keys.cancel();
            },
            Action::LeaveInsertMode => {
                self.mode = Mode::Navigation;
                self.keys.cancel();
            },
            Action::FocusOnTasks => {
                self.set_focus(ComponentId::Tasks);
            },
            Action::FocusOnWorkspaces => {
                self.set_focus(ComponentId::Workspaces);
            },
            Action::OpenSortMenu => {
                let previous = self.focused;
                self.set_focus(ComponentId::SortMenu);
                out.push(Action::SetupSortMenu(previous));
            },
            Action::ExitSortMenu(id) => {
                if *id == ComponentId::Tasks || *id == ComponentId::Workspaces {
                    self.set_focus(*id);
                }
            },
            _ => {},
        }
        out
    }

    /// The workspace of task `id`, if there is such a task.
    fn scope_of_task(&self, id: i32) -> (r: Option<i32>)
        requires
            self.database.wf(),
        ensures
            match r {
                Some(ws) => (exists|i: int|
                    0 <= i < self.database.tasks().len() && (#[trigger] self.database.tasks()[i]).id
                        == id) && forall|i: int|
                    0 <= i < self.database.tasks().len() && (#[trigger] self.database.tasks()[i]).id
                        == id ==> self.database.tasks()[i].workspace_id == ws,
                None => forall|i: int|
                    0 <= i < self.database.tasks().len() ==> (#[trigger] self.database.tasks()[i]).id
                        != id,
            },
    {
        match self.database.get_task(id) {
            Some(t) => {
                proof {
                    let k = choose|k: int| 0 <= k < self.database.tasks().len() && self.database.tasks()[k] == t;
                    assert forall|i: int|
                        0 <= i < self.database.tasks().len() && (#[trigger] self.database.tasks()[i]).id
                            == id implies self.database.tasks()[i].workspace_id == t.workspace_id by {
                        assert(crate::store::tasks_unique(self.database.tasks()));
                        if i != k {
                            assert(self.database.tasks()[i].id != self.database.tasks()[k].id);
                        }
                    }
                }
                Some(t.workspace_id)
            },
            None => None,
        }
    }

    /// Runs one action to completion: the dispatcher's own state first for
    /// actions sent to every recipient, then delivery by the routing table.
    /// Writes to the store are followed by a request for fresh data of the
    /// scope written; a name clash becomes a highlight of the name. Running
    /// out of ids is the one failure passed on.
    pub fn handle_action(&mut self, action: Action, now: Timestamp) -> (r: Result<Vec<Action>, DoMeError>)
        requires
            old(self).wf(),
        ensures
            final(self).wf(),
            r is Err ==> r == Err::<Vec<Action>, DoMeError>(DoMeError::IdsExhausted),
            action == Action::Quit ==> final(self).quitting(),
            action == Action::Suspend ==> final(self).suspending(),
            action == Action::Resume ==> !final(self).suspending(),
            action == Action::EnterInsertMode ==> final(self).input_mode() == Mode::Insert,
            action == Action::LeaveInsertMode ==> final(self).input_mode() == Mode::Navigation,
            route(action) != ComponentId::All ==> final(self).input_mode() == old(self).input_mode()
                && final(self).focus_of() == old(self).focus_of() && final(self).quitting() == old(self).quitting(),
            action == Action::Tick ==> (final(self).sequence().buffered(), final(self).sequence().ticks()) == after_tick(
                old(self).sequence().buffered(),
                old(self).sequence().ticks(),
            ),
            action == Action::FocusOnTasks ==> final(self).focus_of() == ComponentId::Tasks,
            action == Action::FocusOnWorkspaces ==> final(self).focus_of() == ComponentId::Workspaces,
            action == Action::OpenSortMenu ==> final(self).focus_of() == ComponentId::SortMenu,
            !reaches(action, old(self).focus_of(), ComponentId::Workspaces) ==> final(self).workspaces_list() == old(self).workspaces_list(),
            !reaches(action, old(self).focus_of(), ComponentId::Tasks) ==> final(self).tasks_list()
                == old(self).tasks_list(),
            !reaches(action, old(self).focus_of(), ComponentId::SortMenu) ==> final(self).menu()
                == old(self).menu(),
            route(action) != ComponentId::DatabaseSetTasks && route(action)
                != ComponentId::DatabaseSetWorkspaces ==> final(self).db() == old(self).db(),
            action matches Action::RequestWorkspacesData ==> (r matches Ok(out) && out@.len() == 1
                && (out@[0] matches Action::NewWorkspacesData(w) && w@ == old(self).db().workspaces())),
            action matches Action::RequestTasksData(ws) ==> (r matches Ok(out) && out@.len() == 1
                && (out@[0] matches Action::NewTasksData(t, ws2) && ws2 == ws && t@ == old(self).db().tasks().filter(|t: Task| t.workspace_id == ws))),
            action matches Action::AddWorkspace(info) ==> {
                &&& workspace_name_used(old(self).db().workspaces(), info.name@) ==> final(self).db()
                    == old(self).db() && (r matches Ok(out) && out@ == seq![
                    Action::HighlightWorkspace(info.name),
                    Action::RequestWorkspacesData,
                ])
                &&& !workspace_name_used(old(self).db().workspaces(), info.name@) && old(self).db().workspace_ids_left() ==> (r matches Ok(out) && out@ == seq![
                    Action::RequestWorkspacesData,
                ]) && final(self).db().workspaces().len() == old(self).db().workspaces().len() + 1
            },
            action matches Action::AddTask(info) ==> {
                &&& !old(self).db().has_workspace(info.workspace_id) ==> final(self).db() == old(self).db() && (r matches Ok(out) && out@.len() == 0)
                &&& old(self).db().has_workspace(info.workspace_id) && task_name_used(
                    old(self).db().tasks(),
                    info.workspace_id,
                    info.name@,
                ) ==> final(self).db() == old(self).db() && (r matches Ok(out) && out@ == seq![
                    Action::HighlightTask(info.name),
                    Action::RequestTasksData(info.workspace_id),
                ])
                &&& old(self).db().has_workspace(info.workspace_id) && !task_name_used(
                    old(self).db().tasks(),
                    info.workspace_id,
                    info.name@,
                ) && old(self).db().task_ids_left() ==> (r matches Ok(out) && out@ == seq![
                    Action::RequestTasksData(info.workspace_id),
                ]) && final(self).db().tasks().len() == old(self).db().tasks().len() + 1
            },
            action matches Action::UpdateWorkspace(info) ==> (r matches Ok(out) && out@.len() > 0
                && out@.last() == Action::RequestWorkspacesData),
            action matches Action::UpdateTask(info) ==> ((forall|i: int|
                0 <= i < old(self).db().tasks().len() ==> (#[trigger] old(self).db().tasks()[i]).id
                    != info.id) ==> (r matches Ok(out) && out@.len() == 0) && final(self).db() == old(self).db()) && (forall|i: int|
                0 <= i < old(self).db().tasks().len() && (#[trigger] old(self).db().tasks()[i]).id
                    == info.id ==> (r matches Ok(out) && out@.len() > 0 && out@.last()
                    == Action::RequestTasksData(old(self).db().tasks()[i].workspace_id))),
            action matches Action::RemoveWorkspace(id) ==> (r matches Ok(out) && out@ == seq![
                Action::RequestWorkspacesData,
            ]) && (forall|i: int|
                0 <= i < final(self).db().workspaces().len() ==> (#[trigger] final(self).db().workspaces()[i]).id != id),
            action matches Action::RemoveTask(id) ==> r is Ok && forall|i: int|
                0 <= i < final(self).db().tasks().len() ==> (#[trigger] final(self).db().tasks()[i]).id
                    != id,
            action matches Action::RemoveTask(id) ==> ((forall|i: int|
                0 <= i < old(self).db().tasks().len() ==> (#[trigger] old(self).db().tasks()[i]).id
                    != id) ==> (r matches Ok(out) && out@.len() == 0)),
            action matches Action::RemoveTask(id) ==> forall|i: int|
                0 <= i < old(self).db().tasks().len() && (#[trigger] old(self).db().tasks()[i]).id
                    == id ==> (r matches Ok(out) && out@ == seq![Action::RequestTasksData(old(self).db().tasks()[i].workspace_id)]),
            action matches Action::UpdateWorkspace(info) ==> forall|i: int|
                0 <= i < old(self).db().workspaces().len() && (#[trigger] old(self).db().workspaces()[i]).id
                    == info.id ==> match info.name {
                    Some(nm) => workspace_renamed_into_conflict(old(self).db().workspaces(), i, nm@) ==> (r matches Ok(out)
                        && out@ == seq![Action::HighlightWorkspace(nm), Action::RequestWorkspacesData]) && final(self).db() == old(self).db(),
                    None => true,
                },
            action matches Action::UpdateTask(info) ==> forall|i: int|
                0 <= i < old(self).db().tasks().len() && (#[trigger] old(self).db().tasks()[i]).id
                    == info.id ==> match info.name {
                    Some(nm) => task_renamed_into_conflict(old(self).db().tasks(), i, nm@) ==> (r matches Ok(out)
                        && out@ == seq![Action::HighlightTask(nm), Action::RequestTasksData(old(self).db().tasks()[i].workspace_id)]) && final(self).db() == old(self).db(),
                    None => true,
                },
            action == Action::Tick ==> (r matches Ok(out) && out@.len() == 0),
            route(action) != ComponentId::All && reaches(action, old(self).focus_of(), ComponentId::Tasks)
                ==> (r matches Ok(out) && tasks_step(old(self).tasks_list(), action, final(self).tasks_list(), out@)),
            route(action) != ComponentId::All && reaches(action, old(self).focus_of(), ComponentId::Workspaces)
                ==> (r matches Ok(out) && workspaces_step(old(self).workspaces_list(), action, final(self).workspaces_list(), out@)),
            route(action) != ComponentId::All && reaches(action, old(self).focus_of(), ComponentId::SortMenu)
                ==> (r matches Ok(out) && sort_menu_step(old(self).menu(), action, final(self).menu(), out@)),
            route(action) == ComponentId::All ==> r is Ok && (exists|o: Seq<Action>|
                tasks_step(old(self).tasks_list(), action, final(self).tasks_list(), o)) && (exists|o: Seq<Action>|
                workspaces_step(old(self).workspaces_list(), action, final(self).workspaces_list(), o)) && (exists|o: Seq<Action>|
                sort_menu_step(old(self).menu(), action, final(self).menu(), o)),
    {
        let target = action.get_target();
        let mut out: Vec<Action> = Vec::new();
        match target {
            ComponentId::All => {
                let ghost before = *self;
                out = self.handle_global(&action);
                let a1 = copy_broadcast(&action);
                let a2 = copy_broadcast(&action);
                let ghost mid = *self;
                let mut o1 = self.workspaces.update(a1);
                let mut o2 = self.tasks.update(a2);
                let mut o3 = self.sort_menu.update(action);
                let ghost g1 = o1@;
                let ghost g2 = o2@;
                let ghost g3 = o3@;
                proof {
                    assert(workspaces_step(mid.workspaces, a1, self.workspaces, o1@));
                    assert(tasks_step(mid.tasks, a2, self.tasks, o2@));
                    assert(sort_menu_step(mid.sort_menu, a1, self.sort_menu, o3@));
                    assert(tasks_step(before.tasks, a1, self.tasks, o2@));
                    assert(workspaces_step(before.workspaces, a1, self.workspaces, o1@));
                    assert(sort_menu_step(before.sort_menu, a1, self.sort_menu, o3@));
                }
                out.append(&mut o1);
                out.append(&mut o2);
                out.append(&mut o3);
                proof {
                    assert(old(self).tasks_list() == before.tasks);
                    assert(old(self).workspaces_list() == before.workspaces);
                    assert(old(self).menu() == before.sort_menu);
                    assert(tasks_step(old(self).tasks_list(), action, self.tasks_list(), g2));
                    assert(workspaces_step(old(self).workspaces_list(), action, self.workspaces_list(), g1));
                    assert(sort_menu_step(old(self).menu(), action, self.menu(), g3));
                }
            },
            ComponentId::Focused => {
                if self.focused == ComponentId::Workspaces {
                    out = self.workspaces.update(action);
                } else if self.focused == ComponentId::Tasks {
                    out = self.tasks.update(action);
                } else {
                    out = self.sort_menu.update(action);
                }
            },
            ComponentId::Workspaces => {
                out = self.workspaces.update(action);
            },
            ComponentId::Tasks => {
                out = self.tasks.update(action);
            },
            ComponentId::SortMenu => {
                out = self.sort_menu.update(action);
            },
            ComponentId::DatabaseGet => {
                match action {
                    Action::RequestTasksData(ws) => {
                        let tasks = self.database.get_tasks(ws);
                        out.push(Action::NewTasksData(tasks, ws));
                    },
                    Action::RequestWorkspacesData => {
                        let workspaces = self.database.get_workspaces();
                        out.push(Action::NewWorkspacesData(workspaces));
                    },
                    _ => {},
                }
            },
            ComponentId::DatabaseSetTasks => {
                let scope = match &action {
                    Action::AddTask(info) => if self.database.get_workspace(info.workspace_id).is_some() {
                        Some(info.workspace_id)
                    } else {
                        None
                    },
                    Action::UpdateTask(info) => self.scope_of_task(info.id),
                    Action::RemoveTask(id) => self.scope_of_task(*id),
                    _ => None,
                };
                proof {
                    match action {
                        Action::RemoveTask(id) => {
                            assert(old(self).db() == self.database);
                            if forall|i: int|
                                0 <= i < old(self).db().tasks().len() ==> (#[trigger] old(self).db().tasks()[i]).id
                                    != id {
                                assert(scope is None);
                            }
                        },
                        _ => {},
                    }
                }
                let result = match action {
                    Action::AddTask(info) => self.database.handle_add_task(info, now),
                    Action::UpdateTask(info) => self.database.handle_update_task(info),
                    Action::RemoveTask(id) => {
                        self.database.handle_remove_task(id);
                        Ok(())
                    },
                    _ => Ok(()),
                };
                match result {
                    Ok(()) => {},
                    Err(DoMeError::TaskAlreadyExists(name)) => {
                        out.push(Action::HighlightTask(name));
                    },
                    Err(DoMeError::IdsExhausted) => {
                        return Err(DoMeError::IdsExhausted);
                    },
                    Err(_) => {},
                }
                if let Some(ws) = scope {
                    out.push(Action::RequestTasksData(ws));
                }
                proof {
                    if out@.len() == 1 {
                        assert(out@ =~= seq![out@[0]]);
                    } else if out@.len() == 2 {
                        assert(out@ =~= seq![out@[0], out@[1]]);
                    }
                }
            },
            ComponentId::DatabaseSetWorkspaces => {
                let result = match action {
                    Action::AddWorkspace(info) => self.database.handle_add_workspace(info, now),
                    Action::UpdateWorkspace(info) => self.database.handle_update_workspace(info, now),
                    Action::RemoveWorkspace(id) => {
                        self.database.handle_remove_workspace(id);
                        Ok(())
                    },
                    _ => Ok(()),
                };
                match result {
                    Ok(()) => {},
                    Err(DoMeError::WorkspaceAlreadyExists(name)) => {
                        out.push(Action::HighlightWorkspace(name));
                    },
                    Err(DoMeError::IdsExhausted) => {
                        return Err(DoMeError::IdsExhausted);
                    },
                    Err(_) => {},
                }
                out.push(Action::RequestWorkspacesData);
                proof {
                    if out@.len() == 1 {
                        assert(out@ =~= seq![out@[0]]);
                    } else if out@.len() == 2 {
                        assert(out@ =~= seq![out@[0], out@[1]]);
                    }
                }
            },
            _ => {},
        }
        Ok(out)
    }

    /// The store.
    pub fn database(&self) -> (r: &DatabaseOperations)
        ensures
            *r == self.db(),
    {
        &self.database
    }

    /// The list of workspaces.
    pub fn workspaces(&self) -> (r: &WorkspacesComponent)
        ensures
            *r == self.workspaces_list(),
    {
        &self.workspaces
    }

    /// The list of tasks.
    pub fn tasks(&self) -> (r: &TasksComponent)
        ensures
            *r == self.tasks_list(),
    {
        &self.tasks
    }

    /// The sort menu.
    pub fn sort_menu(&self) -> (r: &SortMenu)
        ensures
            *r == self.menu(),
    {
        &self.sort_menu
    }

    /// The recipient that has the focus.
    pub fn focused(&self) -> (r: ComponentId)
        ensures
            r == self.focus_of(),
    {
        self.focused
    }

    /// The input mode.
    pub fn mode(&self) -> (r: Mode)
        ensures
            r == self.input_mode(),
    {
        self.mode
    }

    /// A quit was asked for.
    pub fn should_quit(&self) -> (r: bool)
        ensures
            r == self.quitting(),
    {
        self.should_quit
    }

    /// A suspension was asked for and not yet resumed.
    pub fn should_suspend(&self) -> (r: bool)
        ensures
            r == self.suspending(),
    {
        self.should_suspend
    }
}

} // verus!
