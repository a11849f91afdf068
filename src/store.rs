//! The record store: workspaces and their tasks, each kind kept densely
//! ordered within its scope (all workspaces form one scope; the tasks of one
//! workspace form another) across every add, move and remove.
use vstd::prelude::*;

use crate::action::Action;
use crate::errors::DoMeError;
use crate::order::{
    all_dense, count_in, insert_shift, lemma_count_bounded, lemma_count_single_scope,
    lemma_insert_dense, lemma_move_dense, lemma_remove_dense, move_shift, remove_shift, Slot,
};
use crate::structs::{AddTask, AddWorkspace, Task, Timestamp, UpdateTask, UpdateWorkspace, Workspace};

verus! {

/// Priority of a task added without one.
pub const DEFAULT_PRIORITY: i32 = 3;

/// The scope and order of each task.
pub open spec fn task_slots(s: Seq<Task>) -> Seq<Slot> {
    Seq::new(s.len(), |i: int| (s[i].workspace_id as int, s[i].order as int))
}

/// The order of each workspace; all workspaces share one scope.
pub open spec fn workspace_slots(s: Seq<Workspace>) -> Seq<Slot> {
    Seq::new(s.len(), |i: int| (0int, s[i].order as int))
}

/// Ids are unique, and so are names within a workspace.
pub open spec fn tasks_unique(s: Seq<Task>) -> bool {
    forall|i: int, j: int|
        0 <= i < s.len() && 0 <= j < s.len() && i != j ==> (#[trigger] s[i]).id != (
        #[trigger] s[j]).id && (s[i].workspace_id == s[j].workspace_id ==> s[i].name@
            != s[j].name@)
}

/// Ids and names are unique.
pub open spec fn workspaces_unique(s: Seq<Workspace>) -> bool {
    forall|i: int, j: int|
        0 <= i < s.len() && 0 <= j < s.len() && i != j ==> (#[trigger] s[i]).id != (
        #[trigger] s[j]).id && s[i].name@ != s[j].name@
}

/// Where a new record lands among `n`: the requested place, at most `n`;
/// the end when none is requested.
pub open spec fn insert_position(order: Option<usize>, n: int) -> int {
    match order {
        Some(o) => if o <= n {
            o as int
        } else {
            n
        },
        None => n,
    }
}

/// Where a record at `current` among `n` moves: the requested place, at most
/// `n - 1`; where it is when none is requested.
pub open spec fn move_position(order: Option<usize>, current: int, n: int) -> int {
    match order {
        Some(o) => if o < n {
            o as int
        } else {
            n - 1
        },
        None => current,
    }
}

/// `t` with its order replaced.
pub open spec fn task_with_order(t: Task, o: int) -> Task {
    Task { order: o as usize, ..t }
}

/// `w` with its order replaced.
pub open spec fn workspace_with_order(w: Workspace, o: int) -> Workspace {
    Workspace { order: o as usize, ..w }
}

/// Some task of workspace `ws` is called `name`.
pub open spec fn task_name_used(s: Seq<Task>, ws: i32, name: Seq<char>) -> bool {
    exists|i: int| 0 <= i < s.len() && (#[trigger] s[i]).workspace_id == ws && s[i].name@ == name
}

/// Some workspace is called `name`.
pub open spec fn workspace_name_used(s: Seq<Workspace>, name: Seq<char>) -> bool {
    exists|i: int| 0 <= i < s.len() && (#[trigger] s[i]).name@ == name
}

/// How the orders of one scope change.
enum Shift {
    Insert(usize),
    Remove(usize),
    Move(usize, usize),
}

spec fn shifted(shift: Shift, o: int) -> int {
    match shift {
        Shift::Insert(at) => insert_shift(o, at as int),
        Shift::Remove(gone) => remove_shift(o, gone as int),
        Shift::Move(from, to) => move_shift(o, from as int, to as int),
    }
}

/// The store of workspaces and tasks.
pub struct DatabaseOperations {
    tasks: Vec<Task>,
    workspaces: Vec<Workspace>,
    next_task_id: i32,
    next_workspace_id: i32,
}

impl DatabaseOperations {
    /// The stored tasks.
    pub closed spec fn tasks(&self) -> Seq<Task> {
        self.tasks@
    }

    /// The stored workspaces.
    pub closed spec fn workspaces(&self) -> Seq<Workspace> {
        self.workspaces@
    }

    /// A new task can still get an id.
    pub open spec fn task_ids_left(&self) -> bool {
        self.next_task_id_value() < i32::MAX
    }

    /// The id the next task will get.
    pub closed spec fn next_task_id_value(&self) -> int {
        self.next_task_id as int
    }

    /// A new workspace can still get an id.
    pub open spec fn workspace_ids_left(&self) -> bool {
        self.next_workspace_id_value() < i32::MAX
    }

    /// The id the next workspace will get.
    pub closed spec fn next_workspace_id_value(&self) -> int {
        self.next_workspace_id as int
    }

    /// Every id in use lies below the next one to be handed out.
    pub closed spec fn ids_fresh(&self) -> bool {
        &&& 1 <= self.next_task_id
        &&& 1 <= self.next_workspace_id
        &&& forall|i: int|
            0 <= i < self.tasks@.len() ==> 1 <= #[trigger] self.tasks@[i].id < self.next_task_id
        &&& forall|i: int|
            0 <= i < self.workspaces@.len() ==> 1 <= #[trigger] self.workspaces@[i].id
                < self.next_workspace_id
    }

    /// The store's invariant: every scope densely ordered, ids and names unique.
    pub open spec fn wf(&self) -> bool {
        &&& all_dense(task_slots(self.tasks()))
        &&& all_dense(workspace_slots(self.workspaces()))
        &&& tasks_unique(self.tasks())
        &&& workspaces_unique(self.workspaces())
        &&& self.ids_fresh()
    }

    /// Number of tasks in workspace `ws`.
    pub open spec fn task_count(&self, ws: i32) -> int {
        count_in(task_slots(self.tasks()), ws as int) as int
    }

    /// Some workspace has id `ws`.
    pub open spec fn has_workspace(&self, ws: i32) -> bool {
        exists|i: int| 0 <= i < self.workspaces().len() && (#[trigger] self.workspaces()[i]).id == ws
    }

    /// An empty store.
    pub fn new() -> (r: Self)
        ensures
            r.wf(),
            r.tasks().len() == 0,
            r.workspaces().len() == 0,
            r.next_task_id_value() == 1,
            r.next_workspace_id_value() == 1,
    {
        let r = DatabaseOperations {
            tasks: Vec::new(),
            workspaces: Vec::new(),
            next_task_id: 1,
            next_workspace_id: 1,
        };
        proof {
            assert forall|s: int| #[trigger] crate::order::dense_in(task_slots(r.tasks@), s) by {}
            assert forall|s: int| #[trigger] crate::order::dense_in(workspace_slots(r.workspaces@), s) by {}
        }
        r
    }

    fn find_task(&self, id: i32) -> (r: Option<usize>)
        ensures
            match r {
                Some(i) => i < self.tasks@.len() && self.tasks@[i as int].id == id,
                None => forall|i: int| 0 <= i < self.tasks@.len() ==> #[trigger] self.tasks@[i].id != id,
            },
    {
        let mut j: usize = 0;
        while j < self.tasks.len()
            invariant
                j <= self.tasks@.len(),
                forall|i: int| 0 <= i < j ==> #[trigger] self.tasks@[i].id != id,
            decreases self.tasks@.len() - j,
        {
            if self.tasks[j].id == id {
                return Some(j);
            }
            j += 1;
        }
        None
    }

    fn find_workspace(&self, id: i32) -> (r: Option<usize>)
        ensures
            match r {
                Some(i) => i < self.workspaces@.len() && self.workspaces@[i as int].id == id,
                None => forall|i: int|
                    0 <= i < self.workspaces@.len() ==> #[trigger] self.workspaces@[i].id != id,
            },
    {
        let mut j: usize = 0;
        while j < self.workspaces.len()
            invariant
                j <= self.workspaces@.len(),
                forall|i: int| 0 <= i < j ==> #[trigger] self.workspaces@[i].id != id,
            decreases self.workspaces@.len() - j,
        {
            if self.workspaces[j].id == id {
                return Some(j);
            }
            j += 1;
        }
        None
    }

    /// Index of the task of workspace `ws` called `name`, if any.
    fn task_named(&self, ws: i32, name: &String) -> (r: Option<usize>)
        ensures
            match r {
                Some(i) => i < self.tasks@.len() && self.tasks@[i as int].workspace_id == ws
                    && self.tasks@[i as int].name@ == name@,
                None => !task_name_used(self.tasks@, ws, name@),
            },
    {
        let mut j: usize = 0;
        while j < self.tasks.len()
            invariant
                j <= self.tasks@.len(),
                forall|i: int|
                    0 <= i < j ==> !((#[trigger] self.tasks@[i]).workspace_id == ws
                        && self.tasks@[i].name@ == name@),
            decreases self.tasks@.len() - j,
        {
            if self.tasks[j].workspace_id == ws && self.tasks[j].name == *name {
                return Some(j);
            }
            j += 1;
        }
        None
    }

    /// Index of the workspace called `name`, if any.
    fn workspace_named(&self, name: &String) -> (r: Option<usize>)
        ensures
            match r {
                Some(i) => i < self.workspaces@.len() && self.workspaces@[i as int].name@ == name@,
                None => !workspace_name_used(self.workspaces@, name@),
            },
    {
        let mut j: usize = 0;
        while j < self.workspaces.len()
            invariant
                j <= self.workspaces@.len(),
                forall|i: int| 0 <= i < j ==> (#[trigger] self.workspaces@[i]).name@ != name@,
            decreases self.workspaces@.len() - j,
        {
            if self.workspaces[j].name == *name {
                return Some(j);
            }
            j += 1;
        }
        None
    }

    /// Number of tasks in workspace `ws`.
    fn count_tasks(&self, ws: i32) -> (n: usize)
        ensures
            n == count_in(task_slots(self.tasks@), ws as int),
    {
        let ghost all = task_slots(self.tasks@);
        let mut n: usize = 0;
        let mut j: usize = 0;
        while j < self.tasks.len()
            invariant
                j <= self.tasks@.len(),
                all == task_slots(self.tasks@),
                n <= j,
                n == count_in(all.subrange(0, j as int), ws as int),
            decreases self.tasks@.len() - j,
        {
            assert(all.subrange(0, j + 1).drop_last() =~= all.subrange(0, j as int));
            if self.tasks[j].workspace_id == ws {
                n += 1;
            }
            j += 1;
        }
        assert(all.subrange(0, j as int) =~= all);
        n
    }

    /// Applies `shift` to the orders of the tasks of workspace `ws`, leaving
    /// out the task at index `skip`.
    fn shift_task_orders(&mut self, ws: i32, skip: usize, shift: Shift)
        requires
            forall|k: int|
                0 <= k < old(self).tasks@.len() && (#[trigger] old(self).tasks@[k]).workspace_id
                    == ws ==> old(self).tasks@[k].order < old(self).tasks@.len(),
            forall|k: int|
                0 <= k < old(self).tasks@.len() && k != skip && (#[trigger] old(self).tasks@[k]).workspace_id == ws ==> 0 <= shifted(shift, old(self).tasks@[k].order as int),
        ensures
            final(self).workspaces == old(self).workspaces,
            final(self).next_task_id == old(self).next_task_id,
            final(self).next_workspace_id == old(self).next_workspace_id,
            final(self).tasks@.len() == old(self).tasks@.len(),
            forall|k: int|
                0 <= k < old(self).tasks@.len() ==> #[trigger] final(self).tasks@[k] == if k != skip
                    && old(self).tasks@[k].workspace_id == ws {
                    task_with_order(old(self).tasks@[k], shifted(shift, old(self).tasks@[k].order as int))
                } else {
                    old(self).tasks@[k]
                },
    {
        let ghost start = self.tasks@;
        let mut j: usize = 0;
        while j < self.tasks.len()
            invariant
                j <= self.tasks@.len(),
                self.tasks@.len() == start.len(),
                self.workspaces == old(self).workspaces,
                self.next_task_id == old(self).next_task_id,
                self.next_workspace_id == old(self).next_workspace_id,
                start == old(self).tasks@,
                forall|k: int|
                    0 <= k < start.len() && (#[trigger] start[k]).workspace_id == ws ==> start[k].order
                        < start.len(),
                forall|k: int|
                    0 <= k < start.len() && k != skip && (#[trigger] start[k]).workspace_id == ws
                        ==> 0 <= shifted(shift, start[k].order as int),
                forall|k: int|
                    0 <= k < j ==> #[trigger] self.tasks@[k] == if k != skip && start[k].workspace_id
                        == ws {
                        task_with_order(start[k], shifted(shift, start[k].order as int))
                    } else {
                        start[k]
                    },
                forall|k: int| j <= k < start.len() ==> #[trigger] self.tasks@[k] == start[k],
            decreases start.len() - j,
        {
            if j != skip && self.tasks[j].workspace_id == ws {
                let o = self.tasks[j].order;
                let n = match shift {
                    Shift::Insert(at) => if o >= at {
                        o + 1
                    } else {
                        o
                    },
                    Shift::Remove(gone) => if o > gone {
                        o - 1
                    } else {
                        o
                    },
                    Shift::Move(from, to) => if from < to && from < o && o <= to {
                        o - 1
                    } else if to < from && to <= o && o < from {
                        o + 1
                    } else {
                        o
                    },
                };
                self.tasks[j].order = n;
            }
            j += 1;
        }
    }

    /// Applies `shift` to the orders of the workspaces, leaving out the one at
    /// index `skip`.
    fn shift_workspace_orders(&mut self, skip: usize, shift: Shift)
        requires
            forall|k: int|
                0 <= k < old(self).workspaces@.len() ==> (#[trigger] old(self).workspaces@[k]).order
                    < old(self).workspaces@.len(),
            forall|k: int|
                0 <= k < old(self).workspaces@.len() && k != skip ==> 0 <= shifted(
                    shift,
                    (#[trigger] old(self).workspaces@[k]).order as int,
                ),
        ensures
            final(self).tasks == old(self).tasks,
            final(self).next_task_id == old(self).next_task_id,
            final(self).next_workspace_id == old(self).next_workspace_id,
            final(self).workspaces@.len() == old(self).workspaces@.len(),
            forall|k: int|
                0 <= k < old(self).workspaces@.len() ==> #[trigger] final(self).workspaces@[k]
                    == if k != skip {
                    workspace_with_order(
                        old(self).workspaces@[k],
                        shifted(shift, old(self).workspaces@[k].order as int),
                    )
                } else {
                    old(self).workspaces@[k]
                },
    {
        let ghost start = self.workspaces@;
        let mut j: usize = 0;
        while j < self.workspaces.len()
            invariant
                j <= self.workspaces@.len(),
                self.workspaces@.len() == start.len(),
                self.tasks == old(self).tasks,
                self.next_task_id == old(self).next_task_id,
                self.next_workspace_id == old(self).next_workspace_id,
                start == old(self).workspaces@,
                forall|k: int| 0 <= k < start.len() ==> (#[trigger] start[k]).order < start.len(),
                forall|k: int|
                    0 <= k < start.len() && k != skip ==> 0 <= shifted(
                        shift,
                        (#[trigger] start[k]).order as int,
                    ),
                forall|k: int|
                    0 <= k < j ==> #[trigger] self.workspaces@[k] == if k != skip {
                        workspace_with_order(start[k], shifted(shift, start[k].order as int))
                    } else {
                        start[k]
                    },
                forall|k: int| j <= k < start.len() ==> #[trigger] self.workspaces@[k] == start[k],
            decreases start.len() - j,
        {
            if j != skip {
                let o = self.workspaces[j].order;
                let n = match shift {
                    Shift::Insert(at) => if o >= at {
                        o + 1
                    } else {
                        o
                    },
                    Shift::Remove(gone) => if o > gone {
                        o - 1
                    } else {
                        o
                    },
                    Shift::Move(from, to) => if from < to && from < o && o <= to {
                        o - 1
                    } else if to < from && to <= o && o < from {
                        o + 1
                    } else {
                        o
                    },
                };
                self.workspaces[j].order = n;
            }
            j += 1;
        }
    }
}

impl DatabaseOperations {
    /// Adds a task to workspace `info.workspace_id`: at the requested place,
    /// at most the workspace's task count, or at the end. The tasks of that
    /// workspace at that place or later move up by one.
    pub fn handle_add_task(&mut self, info: AddTask, now: Timestamp) -> (r: Result<(), DoMeError>)
        requires
            old(self).wf(),
        ensures
            final(self).wf(),
            add_task_step(*old(self), info, now, *final(self), r),
    {
        let ws = info.workspace_id;
        if self.find_workspace(ws).is_none() {
            return Err(DoMeError::WorkspaceNotFound(ws));
        }
        if self.task_named(ws, &info.name).is_some() {
            return Err(DoMeError::TaskAlreadyExists(info.name));
        }
        if self.next_task_id == i32::MAX {
            return Err(DoMeError::IdsExhausted);
        }
        let n = self.count_tasks(ws);
        let at = match info.order {
            Some(o) => if o <= n {
                o
            } else {
                n
            },
            None => n,
        };
        let ghost old_t = self.tasks@;
        let ghost old_slots = task_slots(self.tasks@);
        proof {
            lemma_count_bounded(old_slots, ws as int);
            assert(crate::order::dense_in(old_slots, ws as int));
            assert forall|k: int|
                0 <= k < old_t.len() && (#[trigger] old_t[k]).workspace_id == ws implies old_t[k].order
                < old_t.len() by {
                assert(old_slots[k] == (ws as int, old_t[k].order as int));
            }
        }
        let len = self.tasks.len();
        self.shift_task_orders(ws, len, Shift::Insert(at));
        let id = self.next_task_id;
        let description = match info.description {
            Some(d) => d,
            None => String::new(),
        };
        let priority = match info.priority {
            Some(p) => p,
            None => DEFAULT_PRIORITY,
        };
        self.tasks.push(
            Task {
                id,
                name: info.name,
                description,
                priority,
                completed: false,
                create_date: now,
                order: at,
                workspace_id: ws,
            },
        );
        self.next_task_id = id + 1;
        proof {
            let new_slots = task_slots(self.tasks@);
            assert forall|j: int| 0 <= j < old_slots.len() implies (#[trigger] new_slots[j]).0
                == old_slots[j].0 && new_slots[j].1 == if old_slots[j].0 == ws as int {
                insert_shift(old_slots[j].1, at as int)
            } else {
                old_slots[j].1
            } by {}
            assert(new_slots[old_slots.len() as int] == (ws as int, at as int));
            lemma_insert_dense(old_slots, new_slots, ws as int, at as int);
            assert forall|j: int| 0 <= j < old_t.len() implies (#[trigger] old_t[j]).id != id by {}
        }
        Ok(())
    }

    /// Changes the fields that `info` sets on the task `info.id`. A new order
    /// is clamped to the workspace's last place; the tasks between the old and
    /// the new place shift by one towards the place the task left.
    #[verifier::rlimit(90)]
    pub fn handle_update_task(&mut self, info: UpdateTask) -> (r: Result<(), DoMeError>)
        requires
            old(self).wf(),
        ensures
            final(self).wf(),
            update_task_step(*old(self), info, *final(self), r),
    {
        let i = match self.find_task(info.id) {
            Some(i) => i,
            None => {
                return Err(DoMeError::TaskNotFound(info.id));
            },
        };
        let ghost old_t = self.tasks@;
        let ghost old_slots = task_slots(self.tasks@);
        let ws = self.tasks[i].workspace_id;
        if let Some(nm) = &info.name {
            if let Some(k) = self.task_named(ws, nm) {
                if k != i {
                    return Err(DoMeError::TaskAlreadyExists(nm.clone()));
                }
            }
        }
        proof {
            assert(crate::order::dense_in(old_slots, ws as int));
            assert(old_slots[i as int] == (ws as int, old_t[i as int].order as int));
            lemma_count_bounded(old_slots, ws as int);
            assert forall|k: int|
                0 <= k < old_t.len() && (#[trigger] old_t[k]).workspace_id == ws implies old_t[k].order
                < old_t.len() by {
                assert(old_slots[k] == (ws as int, old_t[k].order as int));
            }
            assert(!task_renamed_into_conflict_opt(old_t, i as int, info.name));
        }
        let n = self.count_tasks(ws);
        let from = self.tasks[i].order;
        let to = match info.order {
            Some(o) => if o < n {
                o
            } else {
                n - 1
            },
            None => from,
        };
        self.shift_task_orders(ws, i, Shift::Move(from, to));
        if let Some(nm) = info.name {
            self.tasks[i].name = nm;
        }
        if let Some(d) = info.description {
            self.tasks[i].description = d;
        }
        if let Some(p) = info.priority {
            self.tasks[i].priority = p;
        }
        if let Some(c) = info.completed {
            self.tasks[i].completed = c;
        }
        self.tasks[i].order = to;
        proof {
            let new_slots = task_slots(self.tasks@);
            assert forall|j: int| 0 <= j < old_slots.len() && j != i implies (#[trigger] new_slots[j]).0
                == old_slots[j].0 && new_slots[j].1 == if old_slots[j].0 == old_slots[i as int].0 {
                move_shift(old_slots[j].1, old_slots[i as int].1, to as int)
            } else {
                old_slots[j].1
            } by {}
            lemma_move_dense(old_slots, new_slots, i as int, to as int);
        }
        Ok(())
    }

    /// Takes out the task at index `i`; the later tasks of its workspace move
    /// down by one.
    fn remove_task_at(&mut self, i: usize)
        requires
            old(self).wf(),
            i < old(self).tasks@.len(),
        ensures
            final(self).wf(),
            final(self).workspaces == old(self).workspaces,
            final(self).next_task_id == old(self).next_task_id,
            final(self).next_workspace_id == old(self).next_workspace_id,
            final(self).tasks@.len() + 1 == old(self).tasks@.len(),
            forall|j: int|
                0 <= j < final(self).tasks@.len() ==> #[trigger] final(self).tasks@[j] == {
                    let old_t = old(self).tasks@;
                    let src = if j < i {
                        j
                    } else {
                        j + 1
                    };
                    if old_t[src].workspace_id == old_t[i as int].workspace_id {
                        task_with_order(
                            old_t[src],
                            remove_shift(old_t[src].order as int, old_t[i as int].order as int),
                        )
                    } else {
                        old_t[src]
                    }
                },
    {
        let ghost old_t = self.tasks@;
        let ghost old_slots = task_slots(self.tasks@);
        let ws = self.tasks[i].workspace_id;
        let gone = self.tasks[i].order;
        proof {
            assert(crate::order::dense_in(old_slots, ws as int));
            lemma_count_bounded(old_slots, ws as int);
            assert forall|k: int|
                0 <= k < old_t.len() && (#[trigger] old_t[k]).workspace_id == ws implies old_t[k].order
                < old_t.len() by {
                assert(old_slots[k] == (ws as int, old_t[k].order as int));
            }
        }
        self.shift_task_orders(ws, i, Shift::Remove(gone));
        let ghost mid = self.tasks@;
        self.tasks.remove(i);
        proof {
            let new_slots = task_slots(self.tasks@);
            assert forall|j: int| 0 <= j < new_slots.len() implies ({
                let src = if j < i {
                    j
                } else {
                    j + 1
                };
                &&& (#[trigger] new_slots[j]).0 == old_slots[src].0
                &&& new_slots[j].1 == if old_slots[src].0 == old_slots[i as int].0 {
                    remove_shift(old_slots[src].1, old_slots[i as int].1)
                } else {
                    old_slots[src].1
                }
            }) by {
                let src = if j < i {
                    j
                } else {
                    j + 1
                };
                assert(self.tasks@[j] == mid[src]);
            }
            lemma_remove_dense(old_slots, new_slots, i as int);
            assert forall|j: int| 0 <= j < self.tasks@.len() implies #[trigger] self.tasks@[j] == {
                let src = if j < i {
                    j
                } else {
                    j + 1
                };
                if old_t[src].workspace_id == old_t[i as int].workspace_id {
                    task_with_order(
                        old_t[src],
                        remove_shift(old_t[src].order as int, old_t[i as int].order as int),
                    )
                } else {
                    old_t[src]
                }
            } by {
                let src = if j < i {
                    j
                } else {
                    j + 1
                };
                assert(self.tasks@[j] == mid[src]);
            }
        }
    }

    /// Removes the task `id`, if there is one; the later tasks of its
    /// workspace move down by one.
    pub fn handle_remove_task(&mut self, id: i32)
        requires
            old(self).wf(),
        ensures
            final(self).wf(),
            remove_task_step(*old(self), id, *final(self)),
    {
        if let Some(i) = self.find_task(id) {
            proof {
                assert(tasks_unique(self.tasks@));
            }
            self.remove_task_at(i);
        }
    }
}

/// Renaming the task at `i` to `name` would clash with another task of its
/// workspace.
pub open spec fn task_renamed_into_conflict(s: Seq<Task>, i: int, name: Seq<char>) -> bool {
    exists|j: int|
        0 <= j < s.len() && j != i && (#[trigger] s[j]).workspace_id == s[i].workspace_id && s[j].name@
            == name
}

pub open spec fn task_renamed_into_conflict_opt(s: Seq<Task>, i: int, name: Option<String>) -> bool {
    match name {
        Some(nm) => task_renamed_into_conflict(s, i, nm@),
        None => false,
    }
}

impl DatabaseOperations {
    proof fn lemma_workspace_count(&self)
        ensures
            count_in(workspace_slots(self.workspaces@), 0) == self.workspaces@.len(),
    {
        let sl = workspace_slots(self.workspaces@);
        assert forall|i: int| 0 <= i < sl.len() implies (#[trigger] sl[i]).0 == 0 by {}
        lemma_count_single_scope(sl, 0);
    }

    /// Adds a workspace at the requested place, at most the number of
    /// workspaces, or at the end. The workspaces at that place or later move
    /// up by one.
    pub fn handle_add_workspace(&mut self, info: AddWorkspace, now: Timestamp) -> (r: Result<
        (),
        DoMeError,
    >)
        requires
            old(self).wf(),
        ensures
            final(self).wf(),
            add_workspace_step(*old(self), info, now, *final(self), r),
    {
        if self.workspace_named(&info.name).is_some() {
            return Err(DoMeError::WorkspaceAlreadyExists(info.name));
        }
        if self.next_workspace_id == i32::MAX {
            return Err(DoMeError::IdsExhausted);
        }
        let n = self.workspaces.len();
        let at = match info.order {
            Some(o) => if o <= n {
                o
            } else {
                n
            },
            None => n,
        };
        let ghost old_w = self.workspaces@;
        let ghost old_slots = workspace_slots(self.workspaces@);
        proof {
            self.lemma_workspace_count();
            assert(crate::order::dense_in(old_slots, 0));
            assert forall|k: int| 0 <= k < old_w.len() implies (#[trigger] old_w[k]).order
                < old_w.len() by {
                assert(old_slots[k] == (0int, old_w[k].order as int));
            }
        }
        self.shift_workspace_orders(n, Shift::Insert(at));
        let id = self.next_workspace_id;
        self.workspaces.push(
            Workspace { id, name: info.name, order: at, create_date: now, update_date: now },
        );
        self.next_workspace_id = id + 1;
        proof {
            let new_slots = workspace_slots(self.workspaces@);
            assert forall|j: int| 0 <= j < old_slots.len() implies (#[trigger] new_slots[j]).0
                == old_slots[j].0 && new_slots[j].1 == if old_slots[j].0 == 0 {
                insert_shift(old_slots[j].1, at as int)
            } else {
                old_slots[j].1
            } by {}
            assert(new_slots[old_slots.len() as int] == (0int, at as int));
            lemma_insert_dense(old_slots, new_slots, 0, at as int);
            assert forall|j: int| 0 <= j < old_w.len() implies (#[trigger] old_w[j]).id != id by {}
        }
        Ok(())
    }

    /// Changes the fields that `info` sets on the workspace `info.id` and
    /// stamps it with `now`. A new order is clamped to the last place; the
    /// workspaces between the old and the new place shift by one towards the
    /// place the workspace left.
    pub fn handle_update_workspace(&mut self, info: UpdateWorkspace, now: Timestamp) -> (r: Result<
        (),
        DoMeError,
    >)
        requires
            old(self).wf(),
        ensures
            final(self).wf(),
            update_workspace_step(*old(self), info, now, *final(self), r),
    {
        let i = match self.find_workspace(info.id) {
            Some(i) => i,
            None => {
                return Err(DoMeError::WorkspaceNotFound(info.id));
            },
        };
        let ghost old_w = self.workspaces@;
        let ghost old_slots = workspace_slots(self.workspaces@);
        if let Some(nm) = &info.name {
            if let Some(k) = self.workspace_named(nm) {
                if k != i {
                    return Err(DoMeError::WorkspaceAlreadyExists(nm.clone()));
                }
            }
        }
        proof {
            self.lemma_workspace_count();
            assert(crate::order::dense_in(old_slots, 0));
            assert(old_slots[i as int] == (0int, old_w[i as int].order as int));
            assert forall|k: int| 0 <= k < old_w.len() implies (#[trigger] old_w[k]).order
                < old_w.len() by {
                assert(old_slots[k] == (0int, old_w[k].order as int));
            }
            assert(!workspace_renamed_into_conflict_opt(old_w, i as int, info.name));
        }
        let n = self.workspaces.len();
        let from = self.workspaces[i].order;
        let to = match info.order {
            Some(o) => if o < n {
                o
            } else {
                n - 1
            },
            None => from,
        };
        self.shift_workspace_orders(i, Shift::Move(from, to));
        if let Some(nm) = info.name {
            self.workspaces[i].name = nm;
        }
        self.workspaces[i].order = to;
        self.workspaces[i].update_date = now;
        proof {
            let new_slots = workspace_slots(self.workspaces@);
            assert forall|j: int| 0 <= j < old_slots.len() && j != i implies (
            #[trigger] new_slots[j]).0 == old_slots[j].0 && new_slots[j].1 == if old_slots[j].0
                == old_slots[i as int].0 {
                move_shift(old_slots[j].1, old_slots[i as int].1, to as int)
            } else {
                old_slots[j].1
            } by {}
            lemma_move_dense(old_slots, new_slots, i as int, to as int);
        }
        Ok(())
    }

    /// Removes the workspace `id`, if there is one, together with its tasks;
    /// the later workspaces move down by one.
    pub fn handle_remove_workspace(&mut self, id: i32)
        requires
            old(self).wf(),
        ensures
            final(self).wf(),
            remove_workspace_step(*old(self), id, *final(self)),
    {
        let i = match self.find_workspace(id) {
            Some(i) => i,
            None => {
                return ;
            },
        };
        let ghost old_w = self.workspaces@;
        let ghost old_t = self.tasks@;
        let ghost old_slots = workspace_slots(self.workspaces@);
        let gone = self.workspaces[i].order;
        proof {
            assert(workspaces_unique(old_w));
            self.lemma_workspace_count();
            assert(crate::order::dense_in(old_slots, 0));
            assert forall|k: int| 0 <= k < old_w.len() implies (#[trigger] old_w[k]).order
                < old_w.len() by {
                assert(old_slots[k] == (0int, old_w[k].order as int));
            }
        }
        self.shift_workspace_orders(i, Shift::Remove(gone));
        let ghost mid = self.workspaces@;
        self.workspaces.remove(i);
        proof {
            let new_slots = workspace_slots(self.workspaces@);
            assert forall|j: int| 0 <= j < new_slots.len() implies ({
                let src = if j < i {
                    j
                } else {
                    j + 1
                };
                &&& (#[trigger] new_slots[j]).0 == old_slots[src].0
                &&& new_slots[j].1 == if old_slots[src].0 == old_slots[i as int].0 {
                    remove_shift(old_slots[src].1, old_slots[i as int].1)
                } else {
                    old_slots[src].1
                }
            }) by {
                let src = if j < i {
                    j
                } else {
                    j + 1
                };
                assert(self.workspaces@[j] == mid[src]);
            }
            lemma_remove_dense(old_slots, new_slots, i as int);
            assert forall|j: int| 0 <= j < self.workspaces@.len() implies #[trigger] self.workspaces@[j]
                == {
                let src = if j < i {
                    j
                } else {
                    j + 1
                };
                workspace_with_order(
                    old_w[src],
                    remove_shift(old_w[src].order as int, old_w[i as int].order as int),
                )
            } by {
                let src = if j < i {
                    j
                } else {
                    j + 1
                };
                assert(self.workspaces@[j] == mid[src]);
            }
        }
        let ghost ws_after = self.workspaces@;
        let mut j: usize = 0;
        while j < self.tasks.len()
            invariant
                self.wf(),
                self.workspaces@ == ws_after,
                self.next_task_id == old(self).next_task_id,
                self.next_workspace_id == old(self).next_workspace_id,
                j <= self.tasks@.len(),
                forall|k: int| 0 <= k < j ==> (#[trigger] self.tasks@[k]).workspace_id != id,
                forall|k: int|
                    0 <= k < self.tasks@.len() && (#[trigger] self.tasks@[k]).workspace_id != id
                        ==> old_t.contains(self.tasks@[k]),
                forall|k: int|
                    0 <= k < old_t.len() && (#[trigger] old_t[k]).workspace_id != id
                        ==> self.tasks@.contains(old_t[k]),
            decreases self.tasks@.len() - j,
        {
            if self.tasks[j].workspace_id == id {
                let ghost prev = self.tasks@;
                self.remove_task_at(j);
                proof {
                    assert forall|k: int|
                        0 <= k < self.tasks@.len() && (#[trigger] self.tasks@[k]).workspace_id != id
                            implies old_t.contains(self.tasks@[k]) by {
                        let src = if k < j {
                            k
                        } else {
                            k + 1
                        };
                        assert(self.tasks@[k] == prev[src]);
                    }
                    assert forall|k: int|
                        0 <= k < old_t.len() && (#[trigger] old_t[k]).workspace_id != id
                            implies self.tasks@.contains(old_t[k]) by {
                        assert(prev.contains(old_t[k]));
                        let m = choose|m: int| 0 <= m < prev.len() && prev[m] == old_t[k];
                        assert(m != j);
                        let m2 = if m < j {
                            m
                        } else {
                            m - 1
                        };
                        assert(self.tasks@[m2] == prev[m]);
                    }
                    assert forall|k: int| 0 <= k < j implies (#[trigger] self.tasks@[k]).workspace_id
                        != id by {
                        assert(self.tasks@[k] == prev[k]);
                    }
                }
            } else {
                j += 1;
            }
        }
    }

    /// The tasks of workspace `workspace_id`, in storage order.
    pub fn get_tasks(&self, workspace_id: i32) -> (r: Vec<Task>)
        ensures
            r@ == self.tasks().filter(|t: Task| t.workspace_id == workspace_id),
    {
        let ghost pred = |t: Task| t.workspace_id == workspace_id;
        let mut r: Vec<Task> = Vec::new();
        let mut j: usize = 0;
        while j < self.tasks.len()
            invariant
                j <= self.tasks@.len(),
                pred == (|t: Task| t.workspace_id == workspace_id),
                r@ == self.tasks@.subrange(0, j as int).filter(pred),
            decreases self.tasks@.len() - j,
        {
            let ghost prefix = self.tasks@.subrange(0, j + 1);
            assert(prefix.drop_last() =~= self.tasks@.subrange(0, j as int));
            assert(prefix.last() == self.tasks@[j as int]);
            proof {
                reveal(Seq::filter);
            }
            assert(prefix.filter(pred) == if pred(prefix.last()) {
                prefix.drop_last().filter(pred).push(prefix.last())
            } else {
                prefix.drop_last().filter(pred)
            });
            if self.tasks[j].workspace_id == workspace_id {
                r.push(self.tasks[j].clone());
            }
            j += 1;
        }
        assert(self.tasks@.subrange(0, j as int) =~= self.tasks@);
        r
    }

    /// All workspaces, in storage order.
    pub fn get_workspaces(&self) -> (r: Vec<Workspace>)
        ensures
            r@ == self.workspaces(),
    {
        let mut r: Vec<Workspace> = Vec::new();
        let mut j: usize = 0;
        while j < self.workspaces.len()
            invariant
                j <= self.workspaces@.len(),
                r@ == self.workspaces@.subrange(0, j as int),
            decreases self.workspaces@.len() - j,
        {
            r.push(self.workspaces[j].clone());
            j += 1;
            assert(r@ =~= self.workspaces@.subrange(0, j as int));
        }
        assert(self.workspaces@.subrange(0, j as int) =~= self.workspaces@);
        r
    }

    /// The task `id`, if there is one.
    pub fn get_task(&self, id: i32) -> (r: Option<Task>)
        ensures
            match r {
                Some(t) => t.id == id && self.tasks().contains(t),
                None => forall|i: int| 0 <= i < self.tasks().len() ==> #[trigger] self.tasks()[i].id != id,
            },
    {
        match self.find_task(id) {
            Some(i) => Some(self.tasks[i].clone()),
            None => None,
        }
    }

    /// The workspace `id`, if there is one.
    pub fn get_workspace(&self, id: i32) -> (r: Option<Workspace>)
        ensures
            match r {
                Some(w) => w.id == id && self.workspaces().contains(w),
                None => forall|i: int|
                    0 <= i < self.workspaces().len() ==> #[trigger] self.workspaces()[i].id != id,
            },
    {
        match self.find_workspace(id) {
            Some(i) => Some(self.workspaces[i].clone()),
            None => None,
        }
    }

    /// The id of the task of workspace `workspace_id` called `name`, if any.
    pub fn search_task_name(&self, name: &str, workspace_id: i32) -> (r: Option<i32>)
        ensures
            r is Some <==> task_name_used(self.tasks(), workspace_id, name@),
            match r {
                Some(id) => exists|i: int|
                    0 <= i < self.tasks().len() && (#[trigger] self.tasks()[i]).id == id
                        && self.tasks()[i].workspace_id == workspace_id && self.tasks()[i].name@
                        == name@,
                None => true,
            },
    {
        let owned = name.to_owned();
        match self.task_named(workspace_id, &owned) {
            Some(i) => {
                assert(self.tasks()[i as int] == self.tasks@[i as int]);
                Some(self.tasks[i].id)
            },
            None => None,
        }
    }

    /// The id of the workspace called `name`, if any.
    pub fn search_workspace_name(&self, name: &str) -> (r: Option<i32>)
        ensures
            r is Some <==> workspace_name_used(self.workspaces(), name@),
            match r {
                Some(id) => exists|i: int|
                    0 <= i < self.workspaces().len() && (#[trigger] self.workspaces()[i]).id == id
                        && self.workspaces()[i].name@ == name@,
                None => true,
            },
    {
        let owned = name.to_owned();
        match self.workspace_named(&owned) {
            Some(i) => {
                assert(self.workspaces()[i as int] == self.workspaces@[i as int]);
                Some(self.workspaces[i].id)
            },
            None => None,
        }
    }
}

/// Renaming the workspace at `i` to `name` would clash with another one.
pub open spec fn workspace_renamed_into_conflict(s: Seq<Workspace>, i: int, name: Seq<char>) -> bool {
    exists|j: int| 0 <= j < s.len() && j != i && (#[trigger] s[j]).name@ == name
}

pub open spec fn workspace_renamed_into_conflict_opt(
    s: Seq<Workspace>,
    i: int,
    name: Option<String>,
) -> bool {
    match name {
        Some(nm) => workspace_renamed_into_conflict(s, i, nm@),
        None => false,
    }
}

/// The orders held by the tasks of workspace `ws`.
pub open spec fn task_orders(s: Seq<Task>, ws: i32) -> Set<int> {
    Set::new(
        |o: int|
            exists|i: int|
                0 <= i < s.len() && (#[trigger] s[i]).workspace_id == ws && s[i].order == o,
    )
}

/// The orders held by the workspaces.
pub open spec fn workspace_orders(s: Seq<Workspace>) -> Set<int> {
    Set::new(|o: int| exists|i: int| 0 <= i < s.len() && (#[trigger] s[i]).order == o)
}

/// In a well-formed store the tasks of each workspace hold exactly the orders
/// `0..n`, `n` their number, each once; so do the workspaces. Every operation
/// of the store keeps it well-formed, so this holds after each of them.
pub proof fn lemma_store_dense(db: &DatabaseOperations, ws: i32)
    requires
        db.wf(),
    ensures
        task_orders(db.tasks(), ws) == Set::new(|o: int| 0 <= o < db.task_count(ws)),
        forall|i: int, j: int|
            0 <= i < db.tasks().len() && 0 <= j < db.tasks().len() && i != j && (#[trigger] db.tasks()[i]).workspace_id
                == ws && (#[trigger] db.tasks()[j]).workspace_id == ws ==> db.tasks()[i].order
                != db.tasks()[j].order,
        workspace_orders(db.workspaces()) == Set::new(|o: int| 0 <= o < db.workspaces().len()),
        forall|i: int, j: int|
            0 <= i < db.workspaces().len() && 0 <= j < db.workspaces().len() && i != j ==> (
            #[trigger] db.workspaces()[i]).order != (#[trigger] db.workspaces()[j]).order,
{
    let t = db.tasks();
    let ts = task_slots(t);
    assert(crate::order::dense_in(ts, ws as int));
    crate::order::lemma_dense_orders(ts, ws as int);
    assert forall|o: int| #[trigger] task_orders(t, ws).contains(o) == crate::order::orders_in(
        ts,
        ws as int,
    ).contains(o) by {
        if task_orders(t, ws).contains(o) {
            let i = choose|i: int| 0 <= i < t.len() && (#[trigger] t[i]).workspace_id == ws && t[i].order == o;
            assert(ts[i] == (ws as int, o));
        }
        if crate::order::orders_in(ts, ws as int).contains(o) {
            let i = choose|i: int| 0 <= i < ts.len() && #[trigger] ts[i] == (ws as int, o);
            assert(t[i].workspace_id == ws && t[i].order == o);
        }
    }
    assert(task_orders(t, ws) =~= Set::new(|o: int| 0 <= o < db.task_count(ws)));
    assert forall|i: int, j: int|
        0 <= i < t.len() && 0 <= j < t.len() && i != j && (#[trigger] t[i]).workspace_id == ws && (
        #[trigger] t[j]).workspace_id == ws implies t[i].order != t[j].order by {
        assert(ts[i].0 == ws as int && ts[j].0 == ws as int);
    }
    let w = db.workspaces();
    let wsl = workspace_slots(w);
    db.lemma_workspace_count();
    assert(crate::order::dense_in(wsl, 0));
    crate::order::lemma_dense_orders(wsl, 0);
    assert forall|o: int| #[trigger] workspace_orders(w).contains(o) == crate::order::orders_in(
        wsl,
        0,
    ).contains(o) by {
        if workspace_orders(w).contains(o) {
            let i = choose|i: int| 0 <= i < w.len() && (#[trigger] w[i]).order == o;
            assert(wsl[i] == (0int, o));
        }
        if crate::order::orders_in(wsl, 0).contains(o) {
            let i = choose|i: int| 0 <= i < wsl.len() && #[trigger] wsl[i] == (0int, o);
            assert(w[i].order == o);
        }
    }
    assert(workspace_orders(w) =~= Set::new(|o: int| 0 <= o < w.len()));
    assert forall|i: int, j: int|
        0 <= i < w.len() && 0 <= j < w.len() && i != j implies (#[trigger] w[i]).order != (
        #[trigger] w[j]).order by {
        assert(wsl[i].0 == 0 && wsl[j].0 == 0);
    }
}

impl DatabaseOperations {
    /// Appends a workspace read back from storage as the last one, keeping
    /// its id and fields, unless its id is out of range or taken or its name
    /// is taken.
    fn append_loaded_workspace(&mut self, w: Workspace) -> (added: bool)
        requires
            old(self).wf(),
        ensures
            final(self).wf(),
            added ==> final(self).workspaces() == old(self).workspaces().push(
                workspace_with_order(w, old(self).workspaces().len() as int),
            ) && final(self).tasks() == old(self).tasks(),
            !added ==> *final(self) == *old(self),
            added <==> 1 <= w.id < i32::MAX && (forall|i: int|
                0 <= i < old(self).workspaces().len() ==> (#[trigger] old(self).workspaces()[i]).id
                    != w.id) && !workspace_name_used(old(self).workspaces(), w.name@),
    {
        if w.id < 1 || w.id == i32::MAX || self.find_workspace(w.id).is_some() || self.workspace_named(
            &w.name,
        ).is_some() {
            return false;
        }
        let n = self.workspaces.len();
        let ghost old_w = self.workspaces@;
        let ghost old_slots = workspace_slots(self.workspaces@);
        proof {
            self.lemma_workspace_count();
            assert(crate::order::dense_in(old_slots, 0));
            assert forall|k: int| 0 <= k < old_w.len() implies (#[trigger] old_w[k]).order
                < old_w.len() by {
                assert(old_slots[k] == (0int, old_w[k].order as int));
            }
        }
        let id = w.id;
        let mut w = w;
        w.order = n;
        self.workspaces.push(w);
        if id >= self.next_workspace_id {
            self.next_workspace_id = id + 1;
        }
        proof {
            let new_slots = workspace_slots(self.workspaces@);
            assert forall|j: int| 0 <= j < old_slots.len() implies (#[trigger] new_slots[j]).0
                == old_slots[j].0 && new_slots[j].1 == if old_slots[j].0 == 0 {
                insert_shift(old_slots[j].1, n as int)
            } else {
                old_slots[j].1
            } by {
                assert(old_slots[j] == (0int, old_w[j].order as int));
            }
            assert(new_slots[old_slots.len() as int] == (0int, n as int));
            lemma_insert_dense(old_slots, new_slots, 0, n as int);
        }
        true
    }

    /// Appends a task read back from storage as the last of its workspace,
    /// keeping its id and fields, unless its workspace is missing, its id is
    /// out of range or taken, or its name is taken in its workspace.
    fn append_loaded_task(&mut self, t: Task) -> (added: bool)
        requires
            old(self).wf(),
        ensures
            final(self).wf(),
            added ==> final(self).tasks() == old(self).tasks().push(
                task_with_order(t, old(self).task_count(t.workspace_id)),
            ) && final(self).workspaces() == old(self).workspaces(),
            !added ==> *final(self) == *old(self),
            added <==> 1 <= t.id < i32::MAX && old(self).has_workspace(t.workspace_id) && (forall|i: int|
                0 <= i < old(self).tasks().len() ==> (#[trigger] old(self).tasks()[i]).id != t.id)
                && !task_name_used(old(self).tasks(), t.workspace_id, t.name@),
    {
        let ws = t.workspace_id;
        if t.id < 1 || t.id == i32::MAX || self.find_workspace(ws).is_none() || self.find_task(
            t.id,
        ).is_some() || self.task_named(ws, &t.name).is_some() {
            return false;
        }
        let n = self.count_tasks(ws);
        let ghost old_t = self.tasks@;
        let ghost old_slots = task_slots(self.tasks@);
        proof {
            assert(crate::order::dense_in(old_slots, ws as int));
        }
        let id = t.id;
        let mut t = t;
        t.order = n;
        self.tasks.push(t);
        if id >= self.next_task_id {
            self.next_task_id = id + 1;
        }
        proof {
            let new_slots = task_slots(self.tasks@);
            assert forall|j: int| 0 <= j < old_slots.len() implies (#[trigger] new_slots[j]).0
                == old_slots[j].0 && new_slots[j].1 == if old_slots[j].0 == ws as int {
                insert_shift(old_slots[j].1, n as int)
            } else {
                old_slots[j].1
            } by {
                assert(old_slots[j] == (old_t[j].workspace_id as int, old_t[j].order as int));
            }
            assert(new_slots[old_slots.len() as int] == (ws as int, n as int));
            lemma_insert_dense(old_slots, new_slots, ws as int, n as int);
        }
        true
    }

    /// Rebuilds a store from records read back from storage, taken in the
    /// sequence given (stored order first). Each record keeps its id and
    /// fields and gets the next place of its scope, so the orders come out
    /// dense and the given sequence is kept within each scope. Records whose
    /// id is out of range or already taken, whose name is taken in its scope,
    /// and tasks of a missing workspace are left out.
    pub fn restore(workspaces: Vec<Workspace>, tasks: Vec<Task>) -> (r: Self)
        ensures
            r.wf(),
            forall|i: int| 0 <= i < r.workspaces().len() ==> workspace_from(#[trigger] r.workspaces()[i], workspaces@),
            forall|i: int| 0 <= i < r.tasks().len() ==> task_from(#[trigger] r.tasks()[i], tasks@),
            loadable_workspaces(workspaces@) ==> r.workspaces() == restored_workspaces(workspaces@),
            loadable_workspaces(workspaces@) && loadable_tasks(tasks@, workspaces@) ==> r.tasks()
                == restored_tasks(tasks@),
    {
        let mut db = DatabaseOperations::new();
        let mut k: usize = 0;
        while k < workspaces.len()
            invariant
                db.wf(),
                db.tasks().len() == 0,
                k <= workspaces@.len(),
                forall|i: int| 0 <= i < db.workspaces().len() ==> workspace_from(#[trigger] db.workspaces()[i], workspaces@),
                loadable_workspaces(workspaces@) ==> db.workspaces() == restored_workspaces(
                    workspaces@.subrange(0, k as int),
                ),
            decreases workspaces@.len() - k,
        {
            let w = workspaces[k].clone();
            let ghost before = db.workspaces();
            proof {
                if loadable_workspaces(workspaces@) {
                    assert forall|i: int| 0 <= i < before.len() implies (#[trigger] before[i]).id != w.id by {
                        assert(before[i] == workspace_with_order(workspaces@[i], i));
                    }
                    assert forall|i: int| 0 <= i < before.len() implies (#[trigger] before[i]).name@ != w.name@ by {
                        assert(before[i] == workspace_with_order(workspaces@[i], i));
                    }
                }
            }
            let added = db.append_loaded_workspace(w);
            proof {
                if added {
                    assert forall|i: int| 0 <= i < db.workspaces().len() implies workspace_from(
                        #[trigger] db.workspaces()[i],
                        workspaces@,
                    ) by {
                        if i < before.len() {
                            assert(db.workspaces()[i] == before[i]);
                        } else {
                            assert(db.workspaces()[i] == workspace_with_order(
                                workspaces@[k as int],
                                db.workspaces()[i].order as int,
                            ));
                        }
                    }
                }
                if loadable_workspaces(workspaces@) {
                    assert(db.workspaces() =~= restored_workspaces(workspaces@.subrange(0, k + 1)));
                }
            }
            k += 1;
        }
        proof {
            assert(workspaces@.subrange(0, k as int) =~= workspaces@);
        }
        let ghost all_w = db.workspaces();
        let mut k: usize = 0;
        while k < tasks.len()
            invariant
                db.wf(),
                k <= tasks@.len(),
                db.workspaces() == all_w,
                loadable_workspaces(workspaces@) ==> all_w == restored_workspaces(workspaces@),
                forall|i: int| 0 <= i < db.workspaces().len() ==> workspace_from(#[trigger] db.workspaces()[i], workspaces@),
                forall|i: int| 0 <= i < db.tasks().len() ==> task_from(#[trigger] db.tasks()[i], tasks@),
                loadable_workspaces(workspaces@) && loadable_tasks(tasks@, workspaces@) ==> db.tasks()
                    == restored_tasks(tasks@.subrange(0, k as int)),
            decreases tasks@.len() - k,
        {
            let t = tasks[k].clone();
            let ghost before = db.tasks();
            proof {
                if loadable_workspaces(workspaces@) && loadable_tasks(tasks@, workspaces@) {
                    let pre = tasks@.subrange(0, k as int);
                    assert forall|i: int| 0 <= i < before.len() implies (#[trigger] before[i]).id != t.id by {
                        assert(before[i] == restored_tasks(pre)[i]);
                        assert(pre[i] == tasks@[i]);
                    }
                    assert forall|i: int| 0 <= i < before.len() && (#[trigger] before[i]).workspace_id
                        == t.workspace_id implies before[i].name@ != t.name@ by {
                        assert(before[i] == restored_tasks(pre)[i]);
                        assert(pre[i] == tasks@[i]);
                    }
                    let j = choose|j: int| 0 <= j < workspaces@.len() && (#[trigger] workspaces@[j]).id == t.workspace_id;
                    assert(db.workspaces()[j] == workspace_with_order(workspaces@[j], j));
                    assert(db.has_workspace(t.workspace_id));
                    assert(crate::order::same_scopes(task_slots(before), task_slots(pre))) by {
                        assert forall|x: int| 0 <= x < task_slots(before).len() implies (
                        #[trigger] task_slots(before)[x]).0 == task_slots(pre)[x].0 by {
                            assert(before[x] == restored_tasks(pre)[x]);
                        }
                    }
                    crate::order::lemma_count_same_scopes(task_slots(before), task_slots(pre), t.workspace_id as int);
                }
            }
            let added = db.append_loaded_task(t);
            proof {
                if added {
                    assert forall|i: int| 0 <= i < db.tasks().len() implies task_from(
                        #[trigger] db.tasks()[i],
                        tasks@,
                    ) by {
                        if i < before.len() {
                            assert(db.tasks()[i] == before[i]);
                        } else {
                            assert(db.tasks()[i] == task_with_order(
                                tasks@[k as int],
                                db.tasks()[i].order as int,
                            ));
                        }
                    }
                }
                if loadable_workspaces(workspaces@) && loadable_tasks(tasks@, workspaces@) {
                    let pre = tasks@.subrange(0, k as int);
                    let pre1 = tasks@.subrange(0, k + 1);
                    assert(pre1.subrange(0, k as int) =~= pre);
                    assert forall|x: int| 0 <= x < k implies pre1.subrange(0, x) =~= pre.subrange(0, x) by {}
                    assert(db.tasks() =~= restored_tasks(pre1));
                }
            }
            k += 1;
        }
        proof {
            assert(tasks@.subrange(0, k as int) =~= tasks@);
        }
        db
    }
}


/// `w` is one of `src` with its order replaced.
pub open spec fn workspace_from(w: Workspace, src: Seq<Workspace>) -> bool {
    exists|j: int| 0 <= j < src.len() && w == workspace_with_order(#[trigger] src[j], w.order as int)
}

/// `t` is one of `src` with its order replaced.
pub open spec fn task_from(t: Task, src: Seq<Task>) -> bool {
    exists|j: int| 0 <= j < src.len() && t == task_with_order(#[trigger] src[j], t.order as int)
}

impl DatabaseOperations {
    /// Applies the write that `action` asks for; any other action leaves the
    /// store as it is.
    pub fn handle_update_actions(&mut self, action: Action, now: Timestamp) -> (r: Result<
        (),
        DoMeError,
    >)
        requires
            old(self).wf(),
        ensures
            final(self).wf(),
            action matches Action::AddWorkspace(info) ==> add_workspace_step(*old(self), info, now, *final(self), r),
            action matches Action::AddTask(info) ==> add_task_step(*old(self), info, now, *final(self), r),
            action matches Action::UpdateWorkspace(info) ==> update_workspace_step(*old(self), info, now, *final(self), r),
            action matches Action::UpdateTask(info) ==> update_task_step(*old(self), info, *final(self), r),
            action matches Action::RemoveWorkspace(id) ==> r is Ok && remove_workspace_step(*old(self), id, *final(self)),
            action matches Action::RemoveTask(id) ==> r is Ok && remove_task_step(*old(self), id, *final(self)),
            !(action is AddWorkspace || action is AddTask || action is UpdateWorkspace
                || action is UpdateTask || action is RemoveWorkspace || action is RemoveTask) ==> r
                is Ok && *final(self) == *old(self),
    {
        match action {
            Action::AddWorkspace(info) => self.handle_add_workspace(info, now),
            Action::AddTask(info) => self.handle_add_task(info, now),
            Action::UpdateWorkspace(info) => self.handle_update_workspace(info, now),
            Action::UpdateTask(info) => self.handle_update_task(info),
            Action::RemoveWorkspace(id) => {
                self.handle_remove_workspace(id);
                Ok(())
            },
            Action::RemoveTask(id) => {
                self.handle_remove_task(id);
                Ok(())
            },
            _ => Ok(()),
        }
    }
}

/// The workspaces can all be restored: ids in range, ids and names unique.
pub open spec fn loadable_workspaces(ws: Seq<Workspace>) -> bool {
    &&& forall|i: int| 0 <= i < ws.len() ==> 1 <= (#[trigger] ws[i]).id < i32::MAX
    &&& workspaces_unique(ws)
}

/// The tasks can all be restored: ids in range, ids unique, names unique
/// within a workspace, and each workspace among `ws`.
pub open spec fn loadable_tasks(tasks: Seq<Task>, ws: Seq<Workspace>) -> bool {
    &&& forall|i: int|
        0 <= i < tasks.len() ==> 1 <= (#[trigger] tasks[i]).id < i32::MAX && exists|j: int|
            0 <= j < ws.len() && (#[trigger] ws[j]).id == tasks[i].workspace_id
    &&& tasks_unique(tasks)
}

/// The workspaces, each at its place in the sequence.
pub open spec fn restored_workspaces(ws: Seq<Workspace>) -> Seq<Workspace> {
    Seq::new(ws.len(), |i: int| workspace_with_order(ws[i], i))
}

/// The tasks, each after the earlier tasks of its workspace.
pub open spec fn restored_tasks(tasks: Seq<Task>) -> Seq<Task> {
    Seq::new(
        tasks.len(),
        |i: int|
            task_with_order(
                tasks[i],
                count_in(task_slots(tasks.subrange(0, i)), tasks[i].workspace_id as int) as int,
            ),
    )
}

/// Adding a task turns `pre` into `post`.
pub open spec fn add_task_step(pre: DatabaseOperations, info: AddTask, now: Timestamp, post: DatabaseOperations, r: Result<(), DoMeError>) -> bool {
    &&& (post.next_workspace_id_value() == pre.next_workspace_id_value())
    &&& (r is Err ==> post == pre)
    &&& (!pre.has_workspace(info.workspace_id) ==> r == Err::<(), DoMeError>(
                DoMeError::WorkspaceNotFound(info.workspace_id),))
    &&& (pre.has_workspace(info.workspace_id) && task_name_used(
                pre.tasks(),
                info.workspace_id,
                info.name@,) ==> r == Err::<(), DoMeError>(DoMeError::TaskAlreadyExists(info.name)))
    &&& (pre.has_workspace(info.workspace_id) && !task_name_used(
                pre.tasks(),
                info.workspace_id,
                info.name@,) && !pre.task_ids_left() ==> r == Err::<(), DoMeError>(DoMeError::IdsExhausted))
    &&& (r is Ok <==> pre.has_workspace(info.workspace_id) && !task_name_used(
                pre.tasks(),
                info.workspace_id,
                info.name@,) && pre.task_ids_left())
    &&& (r is Ok ==> post.next_task_id_value() == pre.next_task_id_value() + 1
                && post.tasks()[pre.tasks().len() as int].id == pre.next_task_id_value())
    &&& (r is Ok ==> {
                let old_t = pre.tasks();
                let n = old_t.len() as int;
                let ws = info.workspace_id;
                let at = insert_position(info.order, pre.task_count(ws));
                let t = post.tasks()[n];
                &&& post.workspaces() == pre.workspaces()
                &&& post.tasks().len() == n + 1
                &&& forall|j: int|
                    0 <= j < n ==> #[trigger] post.tasks()[j] == if old_t[j].workspace_id == ws {
                        task_with_order(old_t[j], insert_shift(old_t[j].order as int, at))
                    } else {
                        old_t[j]
                    }
                &&& t.name == info.name
                &&& t.description@ == match info.description {
                    Some(d) => d@,
                    None => Seq::<char>::empty(),
                }
                &&& t.priority == match info.priority {
                    Some(p) => p,
                    None => DEFAULT_PRIORITY,
                }
                &&& !t.completed
                &&& t.create_date == now
                &&& t.order == at
                &&& t.workspace_id == ws
                &&& forall|j: int| 0 <= j < n ==> (#[trigger] old_t[j]).id != t.id})
}

/// Updating a task turns `pre` into `post`.
pub open spec fn update_task_step(pre: DatabaseOperations, info: UpdateTask, post: DatabaseOperations, r: Result<(), DoMeError>) -> bool {
    &&& (post.next_task_id_value() == pre.next_task_id_value())
    &&& (post.next_workspace_id_value() == pre.next_workspace_id_value())
    &&& (r is Err ==> post == pre)
    &&& ((forall|i: int|
                0 <= i < pre.tasks().len() ==> #[trigger] pre.tasks()[i].id != info.id)
                ==> r == Err::<(), DoMeError>(DoMeError::TaskNotFound(info.id)))
    &&& (forall|i: int|
                0 <= i < pre.tasks().len() && #[trigger] pre.tasks()[i].id == info.id
                    ==> {
                    let old_t = pre.tasks();
                    let t = old_t[i];
                    let ws = t.workspace_id;
                    let to = move_position(info.order, t.order as int, pre.task_count(ws));
                    (match info.name {
                        Some(nm) => task_renamed_into_conflict(old_t, i, nm@) ==> r
                            == Err::<(), DoMeError>(DoMeError::TaskAlreadyExists(nm)),
                        None => true
                    }) && (!task_renamed_into_conflict_opt(old_t, i, info.name) ==> {
                        &&& r is Ok
                        &&& post.workspaces() == pre.workspaces()
                        &&& post.tasks().len() == old_t.len()
                        &&& forall|j: int|
                            0 <= j < old_t.len() && j != i ==> #[trigger] post.tasks()[j]
                                == if old_t[j].workspace_id == ws {
                                task_with_order(
                                    old_t[j],
                                    move_shift(old_t[j].order as int, t.order as int, to),
                                )
                            } else {
                                old_t[j]
                            }
                        &&& post.tasks()[i] == (Task {
                            id: t.id,
                            name: match info.name {
                                Some(nm) => nm,
                                None => t.name,
                            },
                            description: match info.description {
                                Some(d) => d,
                                None => t.description,
                            },
                            priority: match info.priority {
                                Some(p) => p,
                                None => t.priority,
                            },
                            completed: match info.completed {
                                Some(c) => c,
                                None => t.completed,
                            },
                            create_date: t.create_date,
                            order: to as usize,
                            workspace_id: ws
                        })
                    })
                })
    // Moving a task to the place it holds leaves every other task as it was.
    &&& (r is Ok ==> forall|i: int|
                0 <= i < pre.tasks().len() && #[trigger] pre.tasks()[i].id == info.id
                    && info.order == Some(pre.tasks()[i].order) ==> forall|j: int|
                    0 <= j < pre.tasks().len() && j != i ==> #[trigger] post.tasks()[j]
                        == pre.tasks()[j])
}

/// Removing a task turns `pre` into `post`.
pub open spec fn remove_task_step(pre: DatabaseOperations, id: i32, post: DatabaseOperations) -> bool {
    &&& (post.next_task_id_value() == pre.next_task_id_value())
    &&& (post.next_workspace_id_value() == pre.next_workspace_id_value())
    &&& ((forall|i: int| 0 <= i < pre.tasks().len() ==> #[trigger] pre.tasks()[i].id != id)
                ==> post == pre)
    &&& (forall|i: int|
                0 <= i < pre.tasks().len() && #[trigger] pre.tasks()[i].id == id ==> {
                    let old_t = pre.tasks();
                    &&& post.workspaces() == pre.workspaces()
                    &&& post.tasks().len() + 1 == old_t.len()
                    &&& forall|j: int|
                        0 <= j < post.tasks().len() ==> #[trigger] post.tasks()[j] == {
                            let src = if j < i {
                                j
                            } else {
                                j + 1
                            };
                            if old_t[src].workspace_id == old_t[i].workspace_id {
                                task_with_order(
                                    old_t[src],
                                    remove_shift(old_t[src].order as int, old_t[i].order as int),
                                )
                            } else {
                                old_t[src]
                            }
                        }
                })
}

/// Adding a workspace turns `pre` into `post`.
pub open spec fn add_workspace_step(pre: DatabaseOperations, info: AddWorkspace, now: Timestamp, post: DatabaseOperations, r: Result<(), DoMeError>) -> bool {
    &&& (post.next_task_id_value() == pre.next_task_id_value())
    &&& (r is Err ==> post == pre)
    &&& (workspace_name_used(pre.workspaces(), info.name@) ==> r == Err::<(), DoMeError>(
                DoMeError::WorkspaceAlreadyExists(info.name),))
    &&& (!workspace_name_used(pre.workspaces(), info.name@) && !pre.workspace_ids_left()
                ==> r == Err::<(), DoMeError>(DoMeError::IdsExhausted))
    &&& (r is Ok <==> !workspace_name_used(pre.workspaces(), info.name@) && pre.workspace_ids_left())
    &&& (r is Ok ==> post.next_workspace_id_value() == pre.next_workspace_id_value() + 1
                && post.workspaces()[pre.workspaces().len() as int].id == pre.next_workspace_id_value())
    &&& (r is Ok ==> {
                let old_w = pre.workspaces();
                let n = old_w.len() as int;
                let at = insert_position(info.order, n);
                let w = post.workspaces()[n];
                &&& post.tasks() == pre.tasks()
                &&& post.workspaces().len() == n + 1
                &&& forall|j: int|
                    0 <= j < n ==> #[trigger] post.workspaces()[j] == workspace_with_order(
                        old_w[j],
                        insert_shift(old_w[j].order as int, at),
                    )
                &&& w.name == info.name
                &&& w.order == at
                &&& w.create_date == now
                &&& w.update_date == now
                &&& forall|j: int| 0 <= j < n ==> (#[trigger] old_w[j]).id != w.id})
}

/// Updating a workspace turns `pre` into `post`.
pub open spec fn update_workspace_step(pre: DatabaseOperations, info: UpdateWorkspace, now: Timestamp, post: DatabaseOperations, r: Result<(), DoMeError>) -> bool {
    &&& (post.next_task_id_value() == pre.next_task_id_value())
    &&& (post.next_workspace_id_value() == pre.next_workspace_id_value())
    &&& (r is Err ==> post == pre)
    &&& ((forall|i: int|
                0 <= i < pre.workspaces().len() ==> #[trigger] pre.workspaces()[i].id
                    != info.id) ==> r == Err::<(), DoMeError>(DoMeError::WorkspaceNotFound(info.id)))
    &&& (forall|i: int|
                0 <= i < pre.workspaces().len() && #[trigger] pre.workspaces()[i].id
                    == info.id ==> {
                    let old_w = pre.workspaces();
                    let w = old_w[i];
                    let to = move_position(info.order, w.order as int, old_w.len() as int);
                    (match info.name {
                        Some(nm) => workspace_renamed_into_conflict(old_w, i, nm@) ==> r
                            == Err::<(), DoMeError>(DoMeError::WorkspaceAlreadyExists(nm)),
                        None => true
                    }) && (!workspace_renamed_into_conflict_opt(old_w, i, info.name) ==> {
                        &&& r is Ok
                        &&& post.tasks() == pre.tasks()
                        &&& post.workspaces().len() == old_w.len()
                        &&& forall|j: int|
                            0 <= j < old_w.len() && j != i ==> #[trigger] post.workspaces()[j]
                                == workspace_with_order(
                                old_w[j],
                                move_shift(old_w[j].order as int, w.order as int, to),
                            )
                        &&& post.workspaces()[i] == (Workspace {
                            id: w.id,
                            name: match info.name {
                                Some(nm) => nm,
                                None => w.name,
                            },
                            order: to as usize,
                            create_date: w.create_date,
                            update_date: now
                        })
                    })
                })
    // Moving a workspace to the place it holds leaves every other one as it was.
    &&& (r is Ok ==> forall|i: int|
                0 <= i < pre.workspaces().len() && #[trigger] pre.workspaces()[i].id
                    == info.id && info.order == Some(pre.workspaces()[i].order) ==> forall|j: int|
                    0 <= j < pre.workspaces().len() && j != i ==> #[trigger] post.workspaces()[j] == pre.workspaces()[j])
}

/// Removing a workspace turns `pre` into `post`.
pub open spec fn remove_workspace_step(pre: DatabaseOperations, id: i32, post: DatabaseOperations) -> bool {
    &&& (post.next_task_id_value() == pre.next_task_id_value())
    &&& (post.next_workspace_id_value() == pre.next_workspace_id_value())
    &&& ((forall|i: int|
                0 <= i < pre.workspaces().len() ==> #[trigger] pre.workspaces()[i].id != id)
                ==> post == pre)
    &&& (forall|i: int|
                0 <= i < pre.workspaces().len() && #[trigger] pre.workspaces()[i].id == id
                    ==> {
                    let old_w = pre.workspaces();
                    &&& post.workspaces().len() + 1 == old_w.len()
                    &&& forall|j: int|
                        0 <= j < post.workspaces().len() ==> #[trigger] post.workspaces()[j] == {
                            let src = if j < i {
                                j
                            } else {
                                j + 1
                            };
                            workspace_with_order(
                                old_w[src],
                                remove_shift(old_w[src].order as int, old_w[i].order as int),
                            )
                        }
                    &&& forall|j: int|
                        0 <= j < post.tasks().len() ==> (#[trigger] post.tasks()[j]).workspace_id
                            != id && pre.tasks().contains(post.tasks()[j])
                    &&& forall|k: int|
                        0 <= k < pre.tasks().len() && (#[trigger] pre.tasks()[k]).workspace_id
                            != id ==> post.tasks().contains(pre.tasks()[k])
                })
}

} // verus!
