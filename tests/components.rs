use do_me::action::Action;
use do_me::dates::parse_datetime;
use do_me::keys::{Key, KeyCode};
use do_me::sort_menu::SortMenu;
use do_me::structs::{
    AddTask, Task, TaskSortType, TaskSorter, Timestamp, UpdateTask, Workspace, WorkspaceSortType,
    WorkspaceSorter,
};
use do_me::action::ComponentId;
use do_me::tasks::{EditMode, TasksComponent};
use do_me::workspaces::WorkspacesComponent;

fn task(id: i32, name: &str, order: usize) -> Task {
    Task { id, name: name.into(), order, workspace_id: 1, priority: 3, ..Default::default() }
}

fn press(c: KeyCode) -> Action {
    Action::SendKeyEvent(Key { code: c, modifiers: 0 })
}

fn five_tasks() -> Vec<Task> {
    vec![task(1, "e", 0), task(2, "d", 1), task(3, "c", 2), task(4, "b", 3), task(5, "a", 4)]
}

#[test]
fn inserted_item_stays_selected_after_resort() {
    let mut c = TasksComponent::new();
    c.update(Action::SortTasks(TaskSorter::new(TaskSortType::Name, false)));
    c.update(Action::NewTasksData(five_tasks(), 1));
    c.update(Action::GoToTop);
    c.update(Action::GoDown);
    c.update(Action::GoDown);
    assert_eq!(c.selected(), Some(2));
    let out = c.update(Action::AddItemBefore);
    assert_eq!(out, vec![Action::EnterInsertMode]);
    assert_eq!(c.edit_mode(), EditMode::Insert(2));
    for ch in " new ".chars() {
        c.update(press(KeyCode::Char(ch)));
    }
    let out = c.update(press(KeyCode::Enter));
    assert_eq!(
        out,
        vec![
            Action::AddTask(AddTask {
                name: "new".into(),
                description: None,
                priority: None,
                order: Some(2),
                workspace_id: 1,
            }),
            Action::LeaveInsertMode,
        ]
    );
    // the store placed it at order 2; sorted by name it lands last
    let mut reloaded = five_tasks();
    for t in reloaded.iter_mut() {
        if t.order >= 2 {
            t.order += 1;
        }
    }
    reloaded.push(task(6, "new", 2));
    c.update(Action::NewTasksData(reloaded, 1));
    let shown = c.items_shown();
    let sel = c.selected().unwrap();
    assert_eq!(shown[sel].name, "new");
    assert_eq!(sel, 5);
}

#[test]
fn reload_restores_remembered_row() {
    let mut c = TasksComponent::new();
    c.update(Action::NewTasksData(five_tasks(), 1));
    assert_eq!(c.selected(), Some(0));
    c.update(Action::GoToBottom);
    assert_eq!(c.selected(), Some(4));
    c.update(Action::NewTasksData(vec![Task { workspace_id: 2, ..task(9, "x", 0) }], 2));
    assert_eq!(c.selected(), Some(0));
    c.update(Action::NewTasksData(five_tasks(), 1));
    assert_eq!(c.selected(), Some(4));
    c.update(Action::NewTasksData(vec![task(1, "e", 0), task(2, "d", 1)], 1));
    assert_eq!(c.selected(), Some(1));
    c.update(Action::NewTasksData(vec![], 1));
    assert_eq!(c.selected(), None);
}

#[test]
fn navigation_wraps() {
    let mut c = TasksComponent::new();
    c.update(Action::NewTasksData(five_tasks(), 1));
    c.update(Action::GoUp);
    assert_eq!(c.selected(), Some(4));
    c.update(Action::GoDown);
    assert_eq!(c.selected(), Some(0));
}

#[test]
fn task_requests_carry_the_selected_task() {
    let mut c = TasksComponent::new();
    c.update(Action::NewTasksData(five_tasks(), 1));
    c.update(Action::GoDown);
    assert_eq!(c.update(Action::DeleteItem), vec![Action::RemoveTask(2)]);
    assert_eq!(
        c.update(Action::IncreasePriority),
        vec![Action::UpdateTask(UpdateTask { id: 2, priority: Some(4), ..Default::default() })]
    );
    assert_eq!(
        c.update(Action::DecreasePriority),
        vec![Action::UpdateTask(UpdateTask { id: 2, priority: Some(2), ..Default::default() })]
    );
    assert_eq!(
        c.update(Action::ToggleCompletion),
        vec![Action::UpdateTask(UpdateTask { id: 2, completed: Some(true), ..Default::default() })]
    );
    assert_eq!(
        c.update(Action::MoveItemUp),
        vec![Action::UpdateTask(UpdateTask { id: 2, order: Some(0), ..Default::default() })]
    );
    assert_eq!(c.selected(), Some(0));
    assert_eq!(c.update(Action::MoveItemUp), vec![]);
    assert_eq!(
        c.update(Action::MoveItemBottom),
        vec![Action::UpdateTask(UpdateTask { id: 1, order: Some(4), ..Default::default() })]
    );
    assert_eq!(c.selected(), Some(4));
}

#[test]
fn editing_a_name_sends_the_trimmed_text() {
    let mut c = TasksComponent::new();
    c.update(Action::NewTasksData(five_tasks(), 1));
    assert_eq!(c.update(Action::EditItem), vec![Action::EnterInsertMode]);
    assert_eq!(c.input(), "e");
    c.update(press(KeyCode::Backspace));
    c.update(press(KeyCode::Char('x')));
    c.update(press(KeyCode::Left));
    c.update(press(KeyCode::Char('y')));
    assert_eq!(c.input(), "yx");
    assert_eq!(c.cursor(), 1);
    c.update(press(KeyCode::Char(' ')));
    assert_eq!(
        c.update(press(KeyCode::Enter)),
        vec![
            Action::UpdateTask(UpdateTask { id: 1, name: Some("y x".into()), ..Default::default() }),
            Action::LeaveInsertMode,
        ]
    );
    assert_eq!(c.edit_mode(), EditMode::Normal);
    c.update(Action::EditDescription);
    c.update(press(KeyCode::Char('z')));
    assert_eq!(c.update(press(KeyCode::Esc)), vec![Action::LeaveInsertMode]);
    assert_eq!(c.input(), "");
}

#[test]
fn adding_needs_a_workspace() {
    let mut c = TasksComponent::new();
    assert_eq!(c.update(Action::AddItemAfter), vec![]);
    assert_eq!(c.update(Action::SelectWorkspace(3)), vec![Action::RequestTasksData(3)]);
    c.update(Action::NewTasksData(vec![], 3));
    assert_eq!(c.update(Action::AddItemAfter), vec![Action::EnterInsertMode]);
    assert_eq!(c.edit_mode(), EditMode::Insert(0));
}

#[test]
fn highlight_lasts_ten_ticks() {
    let mut c = TasksComponent::new();
    c.update(Action::HighlightTask("dup".into()));
    for _ in 0..10 {
        assert_eq!(c.highlighted().map(|s| s.as_str()), Some("dup"));
        c.update(Action::Tick);
    }
    assert_eq!(c.highlighted(), None);
}

fn workspace(id: i32, name: &str, order: usize) -> Workspace {
    Workspace { id, name: name.into(), order, ..Default::default() }
}

#[test]
fn workspace_selection_is_announced() {
    let mut c = WorkspacesComponent::new();
    assert_eq!(c.init(), vec![Action::RequestWorkspacesData]);
    let out = c.update(Action::NewWorkspacesData(vec![workspace(7, "b", 1), workspace(8, "a", 0)]));
    assert_eq!(out, vec![Action::SelectWorkspace(8)]);
    assert_eq!(c.update(Action::GoDown), vec![Action::SelectWorkspace(7)]);
    assert_eq!(c.update(Action::NewWorkspacesData(vec![])), vec![Action::UnselectWorkspace]);
    assert_eq!(c.selected(), None);
}

#[test]
fn workspace_sort_by_name_descending() {
    let mut c = WorkspacesComponent::new();
    c.update(Action::SortWorkspaces(WorkspaceSorter::new(WorkspaceSortType::Name, true)));
    c.update(Action::NewWorkspacesData(vec![
        workspace(1, "b", 0),
        workspace(2, "c", 1),
        workspace(3, "a", 2),
    ]));
    let names: Vec<&str> = c.items_shown().iter().map(|w| w.name.as_str()).collect();
    assert_eq!(names, vec!["c", "b", "a"]);
}

#[test]
fn sort_menu_sends_the_picked_sorter() {
    let mut m = SortMenu::new();
    m.focus(true);
    m.update(Action::SetupSortMenu(ComponentId::Tasks));
    m.update(Action::GoDown);
    m.update(Action::GoDown);
    m.update(Action::GoDown);
    m.update(Action::ToggleSortDirection);
    assert_eq!(
        m.update(Action::Select),
        vec![
            Action::SortTasks(TaskSorter::new(TaskSortType::Priority, true)),
            Action::ExitSortMenu(ComponentId::Tasks),
        ]
    );
    m.update(Action::SetupSortMenu(ComponentId::Workspaces));
    m.update(Action::GoUp);
    assert_eq!(
        m.update(Action::Select),
        vec![
            Action::SortWorkspaces(WorkspaceSorter::new(WorkspaceSortType::UpdateDate, true)),
            Action::ExitSortMenu(ComponentId::Workspaces),
        ]
    );
    assert_eq!(m.update(Action::Cancel), vec![Action::ExitSortMenu(ComponentId::Workspaces)]);
    m.focus(false);
    assert_eq!(m.options, 0);
    assert!(!m.desc);
}

#[test]
fn sorters_order_by_key_then_order() {
    let mut tasks = vec![
        Task { id: 1, name: "b".into(), priority: 2, order: 0, ..Default::default() },
        Task { id: 2, name: "a".into(), priority: 2, order: 1, ..Default::default() },
        Task { id: 3, name: "c".into(), priority: 1, order: 2, ..Default::default() },
    ];
    TaskSorter::new(TaskSortType::Priority, true).sort(&mut tasks);
    assert_eq!(tasks.iter().map(|t| t.id).collect::<Vec<_>>(), vec![1, 2, 3]);
    TaskSorter::new(TaskSortType::Name, false).sort(&mut tasks);
    assert_eq!(tasks.iter().map(|t| t.id).collect::<Vec<_>>(), vec![2, 1, 3]);
    assert_eq!(TaskSorter::new(TaskSortType::Name, false).compare(&tasks[0], &tasks[1]), -1);
    let mut ws = vec![
        Workspace { id: 1, create_date: Timestamp { seconds: 9 }, order: 1, ..Default::default() },
        Workspace { id: 2, create_date: Timestamp { seconds: 3 }, order: 0, ..Default::default() },
    ];
    WorkspaceSorter::new(WorkspaceSortType::CreateDate, false).sort(&mut ws);
    assert_eq!(ws[0].id, 2);
}

#[test]
fn dates_are_read_as_utc_seconds() {
    assert_eq!(parse_datetime("2015-05-15 00:00:00"), Some(Timestamp { seconds: 1431648000 }));
    assert_eq!(parse_datetime("1970-01-01 00:01:05"), Some(Timestamp { seconds: 65 }));
    assert_eq!(parse_datetime("yesterday"), None);
}

#[test]
fn reload_with_gaps_is_reported() {
    let mut c = TasksComponent::new();
    c.update(Action::NewTasksData(five_tasks(), 1));
    let out = c.update(Action::NewTasksData(vec![task(1, "e", 0), task(2, "d", 2)], 1));
    assert_eq!(out.len(), 1);
    assert!(matches!(out[0], Action::Error(_)));
    assert_eq!(c.items_shown().len(), 5);
    let out = c.update(Action::NewTasksData(vec![task(1, "e", 0), task(2, "d", 0)], 1));
    assert!(matches!(out[0], Action::Error(_)));
}

#[test]
fn workspace_row_is_kept_across_reloads() {
    let mut c = WorkspacesComponent::new();
    c.update(Action::NewWorkspacesData(vec![workspace(1, "a", 0), workspace(2, "b", 1), workspace(3, "c", 2)]));
    c.update(Action::GoToBottom);
    let out = c.update(Action::NewWorkspacesData(vec![workspace(1, "a", 0), workspace(2, "b", 1), workspace(3, "c", 2)]));
    assert_eq!(out, vec![Action::SelectWorkspace(3)]);
    // a new workspace inserted at row 1 is selected after the reload, whatever the sort
    c.update(Action::SortWorkspaces(WorkspaceSorter::new(WorkspaceSortType::Name, true)));
    c.update(Action::AddItemBefore);
    for ch in "bb".chars() {
        c.update(press(KeyCode::Char(ch)));
    }
    c.update(press(KeyCode::Enter));
    let out = c.update(Action::NewWorkspacesData(vec![
        workspace(1, "a", 0),
        workspace(4, "bb", 1),
        workspace(2, "b", 2),
        workspace(3, "c", 3),
    ]));
    assert_eq!(out, vec![Action::SelectWorkspace(4)]);
}
