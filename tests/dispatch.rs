use do_me::action::{Action, ComponentId, Mode};
use do_me::app::App;
use do_me::errors::DoMeError;
use do_me::keys::{Key, KeyCode, KeyOutcome, Keymap};
use do_me::store::DatabaseOperations;
use do_me::structs::{AddTask, AddWorkspace, Timestamp, UpdateTask};

fn now() -> Timestamp {
    Timestamp { seconds: 100 }
}

fn app() -> App {
    let mut global = Keymap::new();
    global.bind(vec![Key { code: KeyCode::Char('q'), modifiers: 0 }], Action::Quit);
    let mut local = Keymap::new();
    local.bind(vec![Key { code: KeyCode::Char('j'), modifiers: 0 }], Action::GoDown);
    App::new(DatabaseOperations::new(), global, local)
}

fn run(app: &mut App, first: Action) -> Vec<Action> {
    let mut queue = vec![first];
    let mut seen = vec![];
    while !queue.is_empty() {
        let a = queue.remove(0);
        seen.push(a.clone());
        let mut more = app.handle_action(a, now()).unwrap();
        queue.append(&mut more);
    }
    seen
}

#[test]
fn writes_are_followed_by_fresh_data() {
    let mut app = app();
    let out = app
        .handle_action(Action::AddWorkspace(AddWorkspace { name: "w".into(), order: None }), now())
        .unwrap();
    assert_eq!(out, vec![Action::RequestWorkspacesData]);
    let out = app
        .handle_action(Action::AddWorkspace(AddWorkspace { name: "w".into(), order: None }), now())
        .unwrap();
    assert_eq!(out, vec![Action::HighlightWorkspace("w".into()), Action::RequestWorkspacesData]);
    let ws = app.database().search_workspace_name("w").unwrap();
    let out = app
        .handle_action(Action::AddTask(AddTask { name: "t".into(), workspace_id: ws, ..Default::default() }), now())
        .unwrap();
    assert_eq!(out, vec![Action::RequestTasksData(ws)]);
    let out = app
        .handle_action(Action::AddTask(AddTask { name: "t".into(), workspace_id: ws, ..Default::default() }), now())
        .unwrap();
    assert_eq!(out, vec![Action::HighlightTask("t".into()), Action::RequestTasksData(ws)]);
    let out = app
        .handle_action(Action::UpdateTask(UpdateTask { id: 999, ..Default::default() }), now())
        .unwrap();
    assert_eq!(out, vec![]);
    let out = app.handle_action(Action::RequestTasksData(ws), now()).unwrap();
    assert_eq!(out.len(), 1);
    match &out[0] {
        Action::NewTasksData(tasks, w) => {
            assert_eq!(*w, ws);
            assert_eq!(tasks.len(), 1);
            assert_eq!(tasks[0].name, "t");
            assert_eq!(tasks[0].create_date, now());
        }
        other => panic!("unexpected {:?}", other),
    }
}

#[test]
fn full_cycle_loads_workspaces_and_tasks() {
    let mut app = app();
    run(&mut app, Action::AddWorkspace(AddWorkspace { name: "home".into(), order: None }));
    let seen = run(&mut app, Action::RequestWorkspacesData);
    let ws = app.database().search_workspace_name("home").unwrap();
    assert!(seen.contains(&Action::SelectWorkspace(ws)));
    assert!(seen.contains(&Action::RequestTasksData(ws)));
    assert_eq!(app.tasks().selected_workspace(), Some(ws));
    assert_eq!(app.workspaces().selected(), Some(0));
}

#[test]
fn lifecycle_actions_change_dispatcher_state() {
    let mut app = app();
    assert_eq!(app.focused(), ComponentId::Workspaces);
    app.handle_action(Action::EnterInsertMode, now()).unwrap();
    assert_eq!(app.mode(), Mode::Insert);
    let q = Key { code: KeyCode::Char('q'), modifiers: 0 };
    assert_eq!(app.handle_key_event(q), KeyOutcome::Deliver(q));
    app.handle_action(Action::LeaveInsertMode, now()).unwrap();
    assert_eq!(app.mode(), Mode::Navigation);
    let outcome = app.handle_key_event(q);
    assert_eq!(outcome, KeyOutcome::Global(0));
    assert_eq!(app.bound_action(outcome), Some(&Action::Quit));
    app.handle_action(Action::Suspend, now()).unwrap();
    assert!(app.should_suspend());
    app.handle_action(Action::Resume, now()).unwrap();
    assert!(!app.should_suspend());
    let out = app.handle_action(Action::OpenSortMenu, now()).unwrap();
    assert_eq!(out, vec![Action::SetupSortMenu(ComponentId::Workspaces)]);
    assert_eq!(app.focused(), ComponentId::SortMenu);
    app.handle_action(Action::FocusOnTasks, now()).unwrap();
    assert_eq!(app.focused(), ComponentId::Tasks);
    app.handle_action(Action::Quit, now()).unwrap();
    assert!(app.should_quit());
    assert_eq!(app.init(), vec![Action::RequestWorkspacesData]);
}

#[test]
fn removing_a_task_refetches_its_workspace() {
    let mut app = app();
    app.handle_action(Action::AddWorkspace(AddWorkspace { name: "w".into(), order: None }), now())
        .unwrap();
    let ws = app.database().search_workspace_name("w").unwrap();
    app.handle_action(Action::AddTask(AddTask { name: "t".into(), workspace_id: ws, ..Default::default() }), now())
        .unwrap();
    let id = app.database().search_task_name("t", ws).unwrap();
    let out = app.handle_action(Action::RemoveTask(id), now()).unwrap();
    assert_eq!(out, vec![Action::RequestTasksData(ws)]);
    assert_eq!(app.database().get_task(id), None);
    let out = app.handle_action(Action::RemoveWorkspace(ws), now()).unwrap();
    assert_eq!(out, vec![Action::RequestWorkspacesData]);
    let _ = DoMeError::IdsExhausted;
}
