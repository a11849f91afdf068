use do_me::action::Action;
use do_me::errors::DoMeError;
use do_me::store::DatabaseOperations;
use do_me::structs::{
    AddTask, AddWorkspace, Task, TaskSorter, Timestamp, UpdateTask, UpdateWorkspace, Workspace,
    WorkspaceSorter,
};
use rand::rngs::StdRng;
use rand::{Rng, SeedableRng};

const SEEDS: [u64; 5] = [432, 1323, 9923, 1425, 8239];

fn now() -> Timestamp {
    Timestamp::default()
}

fn process_workspaces(workspaces: &mut Vec<Workspace>) -> Vec<(usize, String)> {
    let sorter = WorkspaceSorter::default();
    sorter.sort(workspaces);
    workspaces
        .iter()
        .map(|workspace| (workspace.order, workspace.name.clone()))
        .collect()
}

fn process_tasks(tasks: &mut Vec<Task>) -> Vec<(usize, String)> {
    let sorter = TaskSorter::default();
    sorter.sort(tasks);
    tasks.iter().map(|task| (task.order, task.name.clone())).collect()
}

fn expected(names: &[String]) -> Vec<(usize, String)> {
    names
        .iter()
        .enumerate()
        .map(|(i, name)| (i, name.clone()))
        .collect()
}

#[test]
fn test_order_tasks() {
    for seed in SEEDS.iter() {
        let mut db = DatabaseOperations::new();
        let mut target_tasks: Vec<String> = vec![];
        let mut rng = StdRng::seed_from_u64(*seed);

        db.handle_add_workspace(
            AddWorkspace {
                name: "the workspace".into(),
                ..Default::default()
            },
            now(),
        )
        .unwrap();
        let workspace_id = db.search_workspace_name("the workspace").unwrap();

        let tasks = process_tasks(&mut db.get_tasks(workspace_id));
        assert_eq!(tasks, vec![]);

        // adding 20 random tasks
        for _ in 0..20 {
            let task_name = rng.gen::<u32>().to_string();
            target_tasks.push(task_name.clone());
            db.handle_add_task(
                AddTask {
                    name: task_name.clone(),
                    workspace_id,
                    ..Default::default()
                },
                now(),
            )
            .unwrap();

            let tasks = process_tasks(&mut db.get_tasks(workspace_id));
            assert_eq!(tasks, expected(&target_tasks));
        }

        // inserting in the middle of the list
        for _ in 0..10 {
            let task_name = rng.gen::<u32>().to_string();
            let order = rng.gen_range(0..target_tasks.len());
            target_tasks.insert(order, task_name.clone());
            db.handle_add_task(
                AddTask {
                    name: task_name.clone(),
                    workspace_id,
                    order: Some(order),
                    ..Default::default()
                },
                now(),
            )
            .unwrap();

            let tasks = process_tasks(&mut db.get_tasks(workspace_id));
            assert_eq!(tasks, expected(&target_tasks));
        }

        // changing the order of the tasks
        for _ in 0..50 {
            let from = rng.gen_range(0..target_tasks.len());
            let to = rng.gen_range(0..target_tasks.len());
            let id = db
                .search_task_name(&target_tasks[from], workspace_id)
                .unwrap();
            db.handle_update_task(UpdateTask {
                id,
                order: Some(to),
                ..Default::default()
            })
            .unwrap();
            let temp = target_tasks[from].clone();
            target_tasks.remove(from);
            target_tasks.insert(to, temp);

            let tasks = process_tasks(&mut db.get_tasks(workspace_id));
            assert_eq!(tasks, expected(&target_tasks));
        }
    }
}

#[test]
fn test_remove_tasks() {
    for seed in SEEDS.iter() {
        let mut db = DatabaseOperations::new();
        let mut target_tasks: Vec<String> = vec![];
        let mut rng = StdRng::seed_from_u64(*seed);

        db.handle_add_workspace(
            AddWorkspace {
                name: "the workspace".into(),
                ..Default::default()
            },
            now(),
        )
        .unwrap();
        let workspace_id = db.search_workspace_name("the workspace").unwrap();

        let tasks = process_tasks(&mut db.get_tasks(workspace_id));
        assert_eq!(tasks, vec![]);

        // adding 20 random tasks
        for _ in 0..20 {
            let task_name = rng.gen::<u32>().to_string();
            target_tasks.push(task_name.clone());
            db.handle_add_task(
                AddTask {
                    name: task_name.clone(),
                    workspace_id,
                    ..Default::default()
                },
                now(),
            )
            .unwrap();

            let tasks = process_tasks(&mut db.get_tasks(workspace_id));
            assert_eq!(tasks, expected(&target_tasks));
        }

        // removing 10 tasks
        for _ in 0..10 {
            let to_remove = rng.gen_range(0..target_tasks.len());
            let id = db
                .search_task_name(&target_tasks[to_remove], workspace_id)
                .unwrap();
            db.handle_remove_task(id);
            target_tasks.remove(to_remove);

            let tasks = process_tasks(&mut db.get_tasks(workspace_id));
            assert_eq!(tasks, expected(&target_tasks));
        }

        // remove the workspace
        db.handle_remove_workspace(workspace_id);
        let tasks = process_tasks(&mut db.get_tasks(workspace_id));
        assert_eq!(tasks, vec![]);
    }
}

#[test]
fn test_remove_workspaces() {
    for seed in SEEDS.iter() {
        let mut db = DatabaseOperations::new();
        let mut target_workspaces: Vec<String> = vec![];
        let mut rng = StdRng::seed_from_u64(*seed);

        // adding 10 random workspaces
        for _ in 0..10 {
            let workspace_name = rng.gen::<u32>().to_string();
            target_workspaces.push(workspace_name.clone());
            db.handle_add_workspace(
                AddWorkspace {
                    name: workspace_name.clone(),
                    ..Default::default()
                },
                now(),
            )
            .unwrap();
        }

        let workspaces = process_workspaces(&mut db.get_workspaces());
        assert_eq!(workspaces, expected(&target_workspaces));

        // removing all workspaces
        for _ in 0..10 {
            let to_remove = rng.gen_range(0..target_workspaces.len());
            let id = db
                .search_workspace_name(&target_workspaces[to_remove])
                .unwrap();
            db.handle_remove_workspace(id);
            target_workspaces.remove(to_remove);

            let workspaces = process_workspaces(&mut db.get_workspaces());
            assert_eq!(workspaces, expected(&target_workspaces));
        }
    }
}

#[test]
fn test_order_workspaces() {
    for seed in SEEDS.iter() {
        let mut db = DatabaseOperations::new();
        let mut target_workspaces: Vec<String> = vec![];
        let mut rng = StdRng::seed_from_u64(*seed);

        // adding 10 random workspaces
        for _ in 0..10 {
            let workspace_name = rng.gen::<u32>().to_string();
            target_workspaces.push(workspace_name.clone());
            db.handle_add_workspace(
                AddWorkspace {
                    name: workspace_name.clone(),
                    ..Default::default()
                },
                now(),
            )
            .unwrap();
        }

        let workspaces = process_workspaces(&mut db.get_workspaces());
        assert_eq!(workspaces, expected(&target_workspaces));

        // inserting in the middle of the list
        for _ in 0..10 {
            let workspace_name = rng.gen::<u32>().to_string();
            let order = rng.gen_range(0..target_workspaces.len());
            target_workspaces.insert(order, workspace_name.clone());
            db.handle_add_workspace(
                AddWorkspace {
                    name: workspace_name.clone(),
                    order: Some(order),
                },
                now(),
            )
            .unwrap();

            let workspaces = process_workspaces(&mut db.get_workspaces());
            assert_eq!(workspaces, expected(&target_workspaces));
        }

        // changing the order of the workspaces
        for i in 0..50 {
            let from = rng.gen_range(0..target_workspaces.len());
            let to = rng.gen_range(0..target_workspaces.len());
            let id = db
                .search_workspace_name(&target_workspaces[from])
                .unwrap();
            db.handle_update_workspace(
                UpdateWorkspace {
                    id,
                    order: Some(to),
                    ..Default::default()
                },
                now(),
            )
            .unwrap();
            let temp = target_workspaces[from].clone();
            target_workspaces.remove(from);
            target_workspaces.insert(to, temp);

            let workspaces = process_workspaces(&mut db.get_workspaces());
            assert_eq!(
                workspaces,
                expected(&target_workspaces),
                "Failed at iteration: {} transfer {} to {}",
                i,
                from,
                to
            );
        }
    }
}

fn orders_of(db: &DatabaseOperations, ws: i32) -> Vec<usize> {
    let mut orders: Vec<usize> = db.get_tasks(ws).iter().map(|t| t.order).collect();
    orders.sort();
    orders
}

fn task_order(db: &DatabaseOperations, ws: i32, name: &str) -> usize {
    let id = db.search_task_name(name, ws).unwrap();
    db.get_task(id).unwrap().order
}

#[test]
fn end_to_end_add_move_remove() {
    let mut db = DatabaseOperations::new();
    db.handle_add_workspace(AddWorkspace { name: "home".into(), order: None }, now())
        .unwrap();
    let ws = db.search_workspace_name("home").unwrap();
    assert!(db.get_tasks(ws).is_empty());

    db.handle_add_task(
        AddTask { name: "Buy milk".into(), workspace_id: ws, ..Default::default() },
        now(),
    )
    .unwrap();
    assert_eq!(task_order(&db, ws, "Buy milk"), 0);

    db.handle_add_task(
        AddTask { name: "Walk dog".into(), workspace_id: ws, order: Some(0), ..Default::default() },
        now(),
    )
    .unwrap();
    assert_eq!(task_order(&db, ws, "Walk dog"), 0);
    assert_eq!(task_order(&db, ws, "Buy milk"), 1);

    let milk = db.search_task_name("Buy milk", ws).unwrap();
    db.handle_update_task(UpdateTask { id: milk, order: Some(0), ..Default::default() })
        .unwrap();
    assert_eq!(task_order(&db, ws, "Buy milk"), 0);
    assert_eq!(task_order(&db, ws, "Walk dog"), 1);

    let dog = db.search_task_name("Walk dog", ws).unwrap();
    db.handle_remove_task(dog);
    assert_eq!(task_order(&db, ws, "Buy milk"), 0);
    let tasks = db.get_tasks(ws);
    assert_eq!(tasks.len(), 1);
    assert_eq!(tasks[0].order, 0);
}

#[test]
fn orders_stay_dense_after_every_operation() {
    let mut rng = StdRng::seed_from_u64(77);
    let mut db = DatabaseOperations::new();
    db.handle_add_workspace(AddWorkspace { name: "a".into(), order: None }, now()).unwrap();
    db.handle_add_workspace(AddWorkspace { name: "b".into(), order: Some(0) }, now()).unwrap();
    let wa = db.search_workspace_name("a").unwrap();
    let wb = db.search_workspace_name("b").unwrap();
    let mut counter = 0;
    for step in 0..300 {
        let ws = if step % 3 == 0 { wb } else { wa };
        let n = db.get_tasks(ws).len();
        match rng.gen_range(0..3) {
            0 => {
                counter += 1;
                let order = if rng.gen_bool(0.5) { Some(rng.gen_range(0..n + 3)) } else { None };
                db.handle_add_task(
                    AddTask { name: format!("t{}", counter), workspace_id: ws, order, ..Default::default() },
                    now(),
                )
                .unwrap();
            }
            1 if n > 0 => {
                let victim = &db.get_tasks(ws)[rng.gen_range(0..n)];
                let to = rng.gen_range(0..n + 2);
                let id = victim.id;
                db.handle_update_task(UpdateTask { id, order: Some(to), ..Default::default() })
                    .unwrap();
            }
            _ if n > 0 => {
                let id = db.get_tasks(ws)[rng.gen_range(0..n)].id;
                db.handle_remove_task(id);
            }
            _ => {}
        }
        for scope in [wa, wb] {
            let n = db.get_tasks(scope).len();
            assert_eq!(orders_of(&db, scope), (0..n).collect::<Vec<usize>>());
        }
        let mut ws_orders: Vec<usize> = db.get_workspaces().iter().map(|w| w.order).collect();
        ws_orders.sort();
        assert_eq!(ws_orders, vec![0, 1]);
    }
}

#[test]
fn move_to_own_place_changes_nothing() {
    let mut db = DatabaseOperations::new();
    db.handle_add_workspace(AddWorkspace { name: "w".into(), order: None }, now()).unwrap();
    let ws = db.search_workspace_name("w").unwrap();
    for name in ["a", "b", "c", "d"] {
        db.handle_add_task(AddTask { name: name.into(), workspace_id: ws, ..Default::default() }, now())
            .unwrap();
    }
    let before = db.get_tasks(ws);
    let c = db.search_task_name("c", ws).unwrap();
    db.handle_update_task(UpdateTask { id: c, order: Some(2), ..Default::default() }).unwrap();
    assert_eq!(db.get_tasks(ws), before);
}

#[test]
fn orders_beyond_the_end_are_clamped() {
    let mut db = DatabaseOperations::new();
    db.handle_add_workspace(AddWorkspace { name: "w".into(), order: None }, now()).unwrap();
    let ws = db.search_workspace_name("w").unwrap();
    for name in ["a", "b", "c"] {
        db.handle_add_task(AddTask { name: name.into(), workspace_id: ws, ..Default::default() }, now())
            .unwrap();
    }
    db.handle_add_task(
        AddTask { name: "z".into(), workspace_id: ws, order: Some(99), ..Default::default() },
        now(),
    )
    .unwrap();
    assert_eq!(task_order(&db, ws, "z"), 3);
    let a = db.search_task_name("a", ws).unwrap();
    db.handle_update_task(UpdateTask { id: a, order: Some(usize::MAX), ..Default::default() })
        .unwrap();
    assert_eq!(task_order(&db, ws, "a"), 3);
    assert_eq!(task_order(&db, ws, "z"), 2);
    assert_eq!(task_order(&db, ws, "b"), 0);
}

#[test]
fn new_task_takes_defaults() {
    let mut db = DatabaseOperations::new();
    db.handle_add_workspace(AddWorkspace { name: "w".into(), order: None }, Timestamp { seconds: 5 })
        .unwrap();
    let ws = db.search_workspace_name("w").unwrap();
    db.handle_add_task(AddTask { name: "x".into(), workspace_id: ws, ..Default::default() }, Timestamp { seconds: 9 })
        .unwrap();
    let t = db.get_tasks(ws).pop().unwrap();
    assert_eq!(t.description, "");
    assert_eq!(t.priority, 3);
    assert!(!t.completed);
    assert_eq!(t.create_date, Timestamp { seconds: 9 });
    let w = db.get_workspace(ws).unwrap();
    assert_eq!(w.create_date, Timestamp { seconds: 5 });
    assert_eq!(w.update_date, Timestamp { seconds: 5 });
}

#[test]
fn partial_update_leaves_unset_fields() {
    let mut db = DatabaseOperations::new();
    db.handle_add_workspace(AddWorkspace { name: "w".into(), order: None }, now()).unwrap();
    let ws = db.search_workspace_name("w").unwrap();
    db.handle_add_task(
        AddTask { name: "x".into(), description: Some("d".into()), priority: Some(2), workspace_id: ws, order: None },
        now(),
    )
    .unwrap();
    let id = db.search_task_name("x", ws).unwrap();
    db.handle_update_task(UpdateTask { id, completed: Some(true), ..Default::default() }).unwrap();
    let t = db.get_task(id).unwrap();
    assert_eq!(t.name, "x");
    assert_eq!(t.description, "d");
    assert_eq!(t.priority, 2);
    assert!(t.completed);
    db.handle_update_workspace(UpdateWorkspace { id: ws, name: Some("v".into()), order: None }, Timestamp { seconds: 40 })
        .unwrap();
    let w = db.get_workspace(ws).unwrap();
    assert_eq!(w.name, "v");
    assert_eq!(w.update_date, Timestamp { seconds: 40 });
}

#[test]
fn duplicate_names_are_refused() {
    let mut db = DatabaseOperations::new();
    db.handle_add_workspace(AddWorkspace { name: "w".into(), order: None }, now()).unwrap();
    assert_eq!(
        db.handle_add_workspace(AddWorkspace { name: "w".into(), order: None }, now()),
        Err(DoMeError::WorkspaceAlreadyExists("w".into()))
    );
    db.handle_add_workspace(AddWorkspace { name: "v".into(), order: None }, now()).unwrap();
    let v = db.search_workspace_name("v").unwrap();
    assert_eq!(
        db.handle_update_workspace(UpdateWorkspace { id: v, name: Some("w".into()), order: None }, now()),
        Err(DoMeError::WorkspaceAlreadyExists("w".into()))
    );
    let ws = db.search_workspace_name("w").unwrap();
    db.handle_add_task(AddTask { name: "t".into(), workspace_id: ws, ..Default::default() }, now()).unwrap();
    db.handle_add_task(AddTask { name: "u".into(), workspace_id: ws, ..Default::default() }, now()).unwrap();
    assert_eq!(
        db.handle_add_task(AddTask { name: "t".into(), workspace_id: ws, ..Default::default() }, now()),
        Err(DoMeError::TaskAlreadyExists("t".into()))
    );
    let u = db.search_task_name("u", ws).unwrap();
    assert_eq!(
        db.handle_update_task(UpdateTask { id: u, name: Some("t".into()), ..Default::default() }),
        Err(DoMeError::TaskAlreadyExists("t".into()))
    );
    // the same name in another workspace is fine
    db.handle_add_task(AddTask { name: "t".into(), workspace_id: v, ..Default::default() }, now()).unwrap();
    // renaming a task to its own name is fine
    db.handle_update_task(UpdateTask { id: u, name: Some("u".into()), ..Default::default() }).unwrap();
}

#[test]
fn stale_ids_are_reported() {
    let mut db = DatabaseOperations::new();
    assert_eq!(
        db.handle_add_task(AddTask { name: "t".into(), workspace_id: 7, ..Default::default() }, now()),
        Err(DoMeError::WorkspaceNotFound(7))
    );
    assert_eq!(
        db.handle_update_task(UpdateTask { id: 3, ..Default::default() }),
        Err(DoMeError::TaskNotFound(3))
    );
    assert_eq!(
        db.handle_update_workspace(UpdateWorkspace { id: 4, ..Default::default() }, now()),
        Err(DoMeError::WorkspaceNotFound(4))
    );
    db.handle_remove_task(3);
    db.handle_remove_workspace(4);
    assert!(db.get_workspaces().is_empty());
    assert_eq!(db.get_task(3), None);
    assert_eq!(db.get_workspace(4), None);
}

#[test]
fn removing_a_workspace_keeps_other_tasks() {
    let mut db = DatabaseOperations::new();
    db.handle_add_workspace(AddWorkspace { name: "a".into(), order: None }, now()).unwrap();
    db.handle_add_workspace(AddWorkspace { name: "b".into(), order: None }, now()).unwrap();
    db.handle_add_workspace(AddWorkspace { name: "c".into(), order: None }, now()).unwrap();
    let a = db.search_workspace_name("a").unwrap();
    let b = db.search_workspace_name("b").unwrap();
    for name in ["1", "2"] {
        db.handle_add_task(AddTask { name: name.into(), workspace_id: a, ..Default::default() }, now()).unwrap();
        db.handle_add_task(AddTask { name: name.into(), workspace_id: b, ..Default::default() }, now()).unwrap();
    }
    db.handle_remove_workspace(a);
    assert!(db.get_tasks(a).is_empty());
    assert_eq!(db.get_tasks(b).len(), 2);
    assert_eq!(db.get_workspace(b).unwrap().order, 0);
    let c = db.search_workspace_name("c").unwrap();
    assert_eq!(db.get_workspace(c).unwrap().order, 1);
}

#[test]
fn restore_renumbers_and_keeps_ids() {
    // rows come in stored order, as the storage reads them
    let workspaces = vec![
        Workspace { id: 2, name: "first".into(), order: 3, ..Default::default() },
        Workspace { id: 4, name: "second".into(), order: 7, ..Default::default() },
        Workspace { id: 9, name: "first".into(), order: 8, ..Default::default() },
    ];
    let tasks = vec![
        Task { id: 12, name: "x".into(), order: 0, workspace_id: 99, ..Default::default() },
        Task { id: 11, name: "a".into(), order: 1, workspace_id: 2, ..Default::default() },
        Task { id: 10, name: "b".into(), order: 5, workspace_id: 2, ..Default::default() },
        Task { id: 10, name: "c".into(), order: 9, workspace_id: 4, ..Default::default() },
    ];
    let mut db = DatabaseOperations::restore(workspaces, tasks);
    let ws = db.get_workspaces();
    assert_eq!(ws.len(), 2);
    assert_eq!(db.get_workspace(2).unwrap().order, 0);
    assert_eq!(db.get_workspace(4).unwrap().order, 1);
    assert_eq!(db.get_workspace(9), None);
    assert_eq!(db.get_task(11).unwrap().order, 0);
    assert_eq!(db.get_task(10).unwrap().order, 1);
    assert_eq!(db.get_task(10).unwrap().name, "b");
    assert_eq!(db.get_task(12), None);
    assert!(db.get_tasks(4).is_empty());
    // new records get fresh ids
    db.handle_add_workspace(AddWorkspace { name: "third".into(), order: None }, now()).unwrap();
    let third = db.search_workspace_name("third").unwrap();
    assert!(third > 4);
}

#[test]
fn ids_run_out_at_the_largest_id() {
    let workspaces = vec![Workspace { id: i32::MAX - 1, name: "last".into(), order: 0, ..Default::default() }];
    let tasks = vec![Task { id: i32::MAX - 1, name: "t".into(), order: 0, workspace_id: i32::MAX - 1, ..Default::default() }];
    let mut db = DatabaseOperations::restore(workspaces, tasks);
    assert_eq!(
        db.handle_add_workspace(AddWorkspace { name: "more".into(), order: None }, now()),
        Err(DoMeError::IdsExhausted)
    );
    assert_eq!(
        db.handle_add_task(AddTask { name: "u".into(), workspace_id: i32::MAX - 1, ..Default::default() }, now()),
        Err(DoMeError::IdsExhausted)
    );
    assert_eq!(db.get_workspaces().len(), 1);
    assert_eq!(db.get_tasks(i32::MAX - 1).len(), 1);
}

#[test]
fn writes_dispatch_by_action() {
    let mut db = DatabaseOperations::new();
    db.handle_update_actions(Action::AddWorkspace(AddWorkspace { name: "w".into(), order: None }), now())
        .unwrap();
    let ws = db.search_workspace_name("w").unwrap();
    db.handle_update_actions(
        Action::AddTask(AddTask { name: "t".into(), workspace_id: ws, ..Default::default() }),
        now(),
    )
    .unwrap();
    let t = db.search_task_name("t", ws).unwrap();
    assert_eq!(
        db.handle_update_actions(Action::UpdateTask(UpdateTask { id: t + 100, ..Default::default() }), now()),
        Err(DoMeError::TaskNotFound(t + 100))
    );
    db.handle_update_actions(Action::Tick, now()).unwrap();
    db.handle_update_actions(Action::RemoveTask(t), now()).unwrap();
    assert_eq!(db.get_task(t), None);
    db.handle_update_actions(Action::RemoveWorkspace(ws), now()).unwrap();
    assert!(db.get_workspaces().is_empty());
}
