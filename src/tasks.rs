//! The list of tasks of the selected workspace: navigation, edits in place,
//! and the write requests they lead to.
use vstd::prelude::*;

use crate::action::Action;
use crate::input::TextInput;
use crate::keys::{Key, KeyCode};
use crate::order::{count_in, dense_in};
use crate::selection::{
    next_row, previous_row, reloaded_selection, remember, remembered_for, SelectionTracker,
};
use crate::store::task_slots;
use crate::sorting::task_cmp;
use crate::structs::{AddTask, Task, TaskSorter, UpdateTask};

verus! {

/// Ticks a name stays highlighted after a conflict.
pub const HIGHLIGHT_TICKS: u8 = 9;

/// Lowest task priority.
pub const MIN_PRIORITY: i32 = 1;

/// Highest task priority.
pub const MAX_PRIORITY: i32 = 4;

/// What the list is doing with the text entry.
#[derive(Debug, Default, Clone, Copy, PartialEq, Eq, Structural)]
pub enum EditMode {
    #[default]
    Normal,
    /// Typing the name of a new item for this row.
    Insert(usize),
    /// Typing a new name for the item of this row.
    Edit(usize),
    /// Typing a new description for the item of this row.
    EditDescription(usize),
}

/// An update of task `id` that changes nothing.
pub open spec fn no_change(id: i32) -> UpdateTask {
    UpdateTask { id, name: None, description: None, priority: None, completed: None, order: None }
}

/// An update of task `id` that moves it to `order`.
pub open spec fn move_to(id: i32, order: usize) -> Action {
    Action::UpdateTask(UpdateTask { order: Some(order), ..no_change(id) })
}

/// The priority one step up, at most the highest.
pub open spec fn raised(p: i32) -> i32 {
    if p >= MAX_PRIORITY {
        MAX_PRIORITY
    } else {
        (p + 1) as i32
    }
}

/// The priority one step down, at least the lowest.
pub open spec fn lowered(p: i32) -> i32 {
    if p <= MIN_PRIORITY {
        MIN_PRIORITY
    } else {
        (p - 1) as i32
    }
}

/// The list of tasks of one workspace.
pub struct TasksComponent {
    items: Vec<Task>,
    selection: SelectionTracker,
    selected_workspace: Option<i32>,
    input: TextInput,
    mode: EditMode,
    sorter: TaskSorter,
    is_focused: bool,
    highlight_ticks: Option<u8>,
    highlighted_name: String,
}

fn new_update(id: i32) -> (r: UpdateTask)
    ensures
        r == no_change(id),
{
    UpdateTask { id, name: None, description: None, priority: None, completed: None, order: None }
}

/// Row of the task called `name` in `items`, if any.
fn row_named(items: &Vec<Task>, name: &String) -> (r: Option<usize>)
    ensures
        match r {
            Some(i) => i < items@.len() && items@[i as int].name@ == name@,
            None => forall|i: int| 0 <= i < items@.len() ==> (#[trigger] items@[i]).name@ != name@,
        },
{
    let mut j: usize = 0;
    while j < items.len()
        invariant
            j <= items@.len(),
            forall|i: int| 0 <= i < j ==> (#[trigger] items@[i]).name@ != name@,
        decreases items@.len() - j,
    {
        if items[j].name == *name {
            return Some(j);
        }
        j += 1;
    }
    None
}

/// The rows' names.
pub open spec fn task_names(s: Seq<Task>) -> Seq<Seq<char>> {
    Seq::new(s.len(), |i: int| s[i].name@)
}

/// The delivered tasks all belong to `ws`, and their orders are `0..n` for
/// their number `n`, each once.
pub open spec fn delivered_dense(tasks: Seq<Task>, ws: i32) -> bool {
    &&& forall|i: int| 0 <= i < tasks.len() ==> (#[trigger] tasks[i]).workspace_id == ws
    &&& dense_in(task_slots(tasks), ws as int)
}

/// A move of the selection by navigation: the list and the pending hint stay,
/// and the new row is remembered for the workspace shown.
pub open spec fn tasks_navigated(pre: TasksComponent, post: TasksComponent, s: Option<usize>) -> bool {
    &&& post.items() == pre.items()
    &&& post.workspace() == pre.workspace()
    &&& post.mode() == pre.mode()
    &&& post.hint_at() == pre.hint_at()
    &&& post.hinted_name() == pre.hinted_name()
    &&& if pre.items().len() > 0 {
        post.selected_row() == s && post.remembered() == remember(pre.remembered(), pre.workspace(), s)
    } else {
        post.selected_row() == pre.selected_row() && post.remembered() == pre.remembered()
    }
}

/// What the list of tasks does with one action: `pre` becomes `post` and
/// `out` is sent on.
pub open spec fn tasks_step(pre: TasksComponent, action: Action, post: TasksComponent, out: Seq<Action>) -> bool {
    &&& (action matches Action::GoDown ==> out.len() == 0 && tasks_navigated(
        pre,
        post,
        next_row(pre.selected_row(), pre.items().len() as int),
    ))
    &&& (action matches Action::GoUp ==> out.len() == 0 && tasks_navigated(
        pre,
        post,
        previous_row(pre.selected_row(), pre.items().len() as int),
    ))
    &&& (action matches Action::GoToTop ==> out.len() == 0 && tasks_navigated(pre, post, Some(0usize)))
    &&& (action matches Action::GoToBottom ==> out.len() == 0 && tasks_navigated(
        pre,
        post,
        Some((pre.items().len() - 1) as usize),
    ))
    &&& (action matches Action::Tick ==> out.len() == 0 && post.items() == pre.items()
        && post.selected_row() == pre.selected_row() && post.remembered() == pre.remembered()
        && post.hint_at() == pre.hint_at() && post.workspace() == pre.workspace())
    &&& (action matches Action::NewTasksData(tasks, ws) ==> if delivered_dense(tasks@, ws) {
        &&& out.len() == 0
        &&& post.items().to_multiset() == tasks@.to_multiset()
        &&& forall|i: int, j: int|
            0 <= i < j < post.items().len() ==> task_cmp(
                post.sorter(),
                #[trigger] post.items()[i],
                #[trigger] post.items()[j],
            ) <= 0
        &&& post.workspace() == Some(ws)
        &&& post.selected_row() matches Some(k) ==> k < post.items().len()
        &&& reloaded_selection(
            task_names(post.items()),
            pre.hint_at(),
            pre.hinted_name(),
            remembered_for(pre.remembered(), ws),
            post.selected_row(),
        )
        &&& post.remembered() == remember(pre.remembered(), Some(ws), post.selected_row())
        &&& post.items().len() > 0 ==> post.hint_at() is None
    } else {
        out.len() == 1 && out[0] is Error && post == pre
    })
    &&& (action matches Action::DeleteItem ==> out == match pre.selected_task() {
                Some(t) => seq![Action::RemoveTask(t.id)],
                None => Seq::<Action>::empty(),
            })
    &&& (action matches Action::ToggleCompletion ==> out == match pre.selected_task() {
                Some(t) => seq![
                    Action::UpdateTask(UpdateTask { completed: Some(!t.completed), ..no_change(t.id) }),
                ],
                None => Seq::<Action>::empty(),
            })
    &&& (action matches Action::IncreasePriority ==> out == match pre.selected_task() {
                Some(t) => seq![
                    Action::UpdateTask(UpdateTask { priority: Some(raised(t.priority)), ..no_change(t.id) }),
                ],
                None => Seq::<Action>::empty(),
            })
    &&& (action matches Action::DecreasePriority ==> out == match pre.selected_task() {
                Some(t) => seq![
                    Action::UpdateTask(UpdateTask { priority: Some(lowered(t.priority)), ..no_change(t.id) }),
                ],
                None => Seq::<Action>::empty(),
            })
    &&& (action matches Action::MoveItemTop ==> out == match pre.selected_task() {
                Some(t) => seq![move_to(t.id, 0)],
                None => Seq::<Action>::empty(),
            })
    &&& (action matches Action::MoveItemBottom ==> out == match pre.selected_task() {
                Some(t) => seq![move_to(t.id, (pre.items().len() - 1) as usize)],
                None => Seq::<Action>::empty(),
            })
    &&& (action matches Action::MoveItemUp ==> out == match pre.selected_row() {
                Some(i) => if i > 0 {
                    seq![move_to(pre.items()[i as int].id, (i - 1) as usize)]
                } else {
                    Seq::<Action>::empty()
                },
                None => Seq::<Action>::empty(),
            })
    &&& (action matches Action::MoveItemDown ==> out == match pre.selected_row() {
                Some(i) => if i + 1 < pre.items().len() {
                    seq![move_to(pre.items()[i as int].id, (i + 1) as usize)]
                } else {
                    Seq::<Action>::empty()
                },
                None => Seq::<Action>::empty(),
            })
    &&& (action matches Action::AddItemAfter ==> if pre.workspace() is Some {
                out == seq![Action::EnterInsertMode] && post.mode() == EditMode::Insert(
                    match pre.selected_row() {
                        Some(i) => (i + 1) as usize,
                        None => pre.items().len() as usize,
                    },
                )
            } else {
                out.len() == 0 && post.mode() == pre.mode()
            })
    &&& (action matches Action::AddItemBefore ==> if pre.workspace() is Some {
                out == seq![Action::EnterInsertMode] && post.mode() == EditMode::Insert(
                    match pre.selected_row() {
                        Some(i) => i,
                        None => 0usize,
                    },
                )
            } else {
                out.len() == 0 && post.mode() == pre.mode()
            })
    &&& (action matches Action::EditItem ==> match pre.selected_row() {
                Some(i) => out == seq![Action::EnterInsertMode] && post.mode()
                    == EditMode::Edit(i) && post.input_text() == pre.items()[i as int].name@,
                None => out.len() == 0 && post.mode() == pre.mode(),
            })
    &&& (action matches Action::EditDescription ==> match pre.selected_row() {
                Some(i) => out == seq![Action::EnterInsertMode] && post.mode()
                    == EditMode::EditDescription(i) && post.input_text() == pre.items()[i as int].description@,
                None => out.len() == 0 && post.mode() == pre.mode(),
            })
    &&& (action matches Action::SelectWorkspace(ws) ==> out == seq![Action::RequestTasksData(ws)])
    &&& (action matches Action::UnselectWorkspace ==> out.len() == 0 && post.items().len()
                == 0 && post.workspace() is None && post.selected_row() is None)
    &&& (action matches Action::SortTasks(s) ==> out.len() == 0 && post.sorter() == s
                && post.items().to_multiset() == pre.items().to_multiset())
    &&& (action matches Action::SendKeyEvent(key) ==> (pre.mode() == EditMode::Normal
                ==> out.len() == 0 && post.items() == pre.items()))
}

/// Whether the delivered tasks all belong to `ws` with orders exactly `0..n`.
fn orders_dense(tasks: &Vec<Task>, ws: i32) -> (r: bool)
    ensures
        r == delivered_dense(tasks@, ws),
{
    let n = tasks.len();
    let ghost slots = task_slots(tasks@);
    proof {
        crate::order::lemma_count_bounded(slots, ws as int);
    }
    let mut i: usize = 0;
    while i < n
        invariant
            n == tasks@.len(),
            slots == task_slots(tasks@),
            i <= n,
            count_in(slots, ws as int) <= n,
            forall|k: int| 0 <= k < i ==> (#[trigger] tasks@[k]).workspace_id == ws && tasks@[k].order < n,
        decreases n - i,
    {
        if tasks[i].workspace_id != ws {
            return false;
        }
        if tasks[i].order >= n {
            proof {
                assert(slots[i as int].0 == ws as int);
            }
            return false;
        }
        i += 1;
    }
    proof {
        assert forall|k: int| 0 <= k < slots.len() implies (#[trigger] slots[k]).0 == ws as int by {
            assert(tasks@[k].workspace_id == ws);
        }
        crate::order::lemma_count_single_scope(slots, ws as int);
    }
    let mut a: usize = 0;
    while a < n
        invariant
            n == tasks@.len(),
            slots == task_slots(tasks@),
            count_in(slots, ws as int) == n,
            a <= n,
            forall|k: int| 0 <= k < n ==> (#[trigger] tasks@[k]).workspace_id == ws && tasks@[k].order < n,
            forall|x: int, y: int|
                0 <= x < a && 0 <= y < n && x != y ==> (#[trigger] tasks@[x]).order != (#[trigger] tasks@[y]).order,
        decreases n - a,
    {
        let mut b: usize = 0;
        while b < n
            invariant
                n == tasks@.len(),
                slots == task_slots(tasks@),
                count_in(slots, ws as int) == n,
                a < n,
                b <= n,
                forall|k: int| 0 <= k < n ==> (#[trigger] tasks@[k]).workspace_id == ws && tasks@[k].order < n,
                forall|x: int, y: int|
                    0 <= x < a && 0 <= y < n && x != y ==> (#[trigger] tasks@[x]).order != (#[trigger] tasks@[y]).order,
                forall|y: int| 0 <= y < b && y != a ==> tasks@[a as int].order != (#[trigger] tasks@[y]).order,
            decreases n - b,
        {
            if b != a && tasks[a].order == tasks[b].order {
                proof {
                    assert(slots[a as int].0 == ws as int && slots[b as int].0 == ws as int);
                    assert(slots[a as int].1 == slots[b as int].1);
                }
                return false;
            }
            b += 1;
        }
        a += 1;
    }
    let mut k: usize = 0;
    while k < n
        invariant
            n == tasks@.len(),
            slots == task_slots(tasks@),
            count_in(slots, ws as int) == n,
            k <= n,
            forall|x: int| 0 <= x < n ==> (#[trigger] tasks@[x]).workspace_id == ws && tasks@[x].order < n,
            forall|x: int, y: int|
                0 <= x < n && 0 <= y < n && x != y ==> (#[trigger] tasks@[x]).order != (#[trigger] tasks@[y]).order,
            forall|o: int| 0 <= o < k ==> #[trigger] crate::order::orders_in(slots, ws as int).contains(o),
        decreases n - k,
    {
        let mut j: usize = 0;
        let mut found = false;
        while j < n
            invariant
                n == tasks@.len(),
                slots == task_slots(tasks@),
                k < n,
                j <= n,
                found ==> crate::order::orders_in(slots, ws as int).contains(k as int),
                !found ==> forall|y: int| 0 <= y < j ==> (#[trigger] tasks@[y]).order != k,
                forall|x: int| 0 <= x < n ==> (#[trigger] tasks@[x]).workspace_id == ws && tasks@[x].order < n,
            decreases n - j,
        {
            if !found && tasks[j].order == k {
                proof {
                    assert(slots[j as int] == (ws as int, k as int));
                }
                found = true;
            }
            j += 1;
        }
        if !found {
            proof {
                if crate::order::orders_in(slots, ws as int).contains(k as int) {
                    let y = choose|y: int| 0 <= y < slots.len() && #[trigger] slots[y] == (ws as int, k as int);
                    assert(tasks@[y].order == k);
                }
            }
            return false;
        }
        k += 1;
    }
    proof {
        assert forall|x: int, y: int|
            0 <= x < slots.len() && 0 <= y < slots.len() && x != y && (#[trigger] slots[x]).0 == ws as int
                && (#[trigger] slots[y]).0 == ws as int implies slots[x].1 != slots[y].1 by {
            assert(tasks@[x].order != tasks@[y].order);
        }
        assert forall|x: int| 0 <= x < slots.len() && (#[trigger] slots[x]).0 == ws as int implies 0
            <= slots[x].1 < count_in(slots, ws as int) by {
            assert(tasks@[x].order < n);
        }
    }
    true
}

impl TasksComponent {
    /// The tasks shown, in display order.
    pub closed spec fn items(&self) -> Seq<Task> {
        self.items@
    }

    /// The selected row.
    pub closed spec fn selected_row(&self) -> Option<usize> {
        self.selection.selected_row()
    }

    /// The workspace whose tasks are shown.
    pub closed spec fn workspace(&self) -> Option<i32> {
        self.selected_workspace
    }

    /// The edit in progress.
    pub closed spec fn mode(&self) -> EditMode {
        self.mode
    }

    /// The display ordering.
    pub closed spec fn sorter(&self) -> TaskSorter {
        self.sorter
    }

    /// The text typed so far.
    pub closed spec fn input_text(&self) -> Seq<char> {
        self.input.text()
    }

    /// The name the pending selection hint looks for.
    pub closed spec fn hinted_name(&self) -> Option<Seq<char>> {
        self.selection.hint_name()
    }

    /// The position the pending selection hint asks for.
    pub closed spec fn hint_at(&self) -> Option<int> {
        self.selection.hint_position()
    }

    /// The row remembered for each workspace.
    pub closed spec fn remembered(&self) -> Map<i32, usize> {
        self.selection.remembered_rows()
    }

    /// The selection lies within the list and the cursor within the text.
    pub closed spec fn wf(&self) -> bool {
        &&& self.input.wf()
        &&& self.selection.selected_row() matches Some(i) ==> i < self.items@.len()
    }

    /// The selected task.
    pub open spec fn selected_task(&self) -> Option<Task> {
        match self.selected_row() {
            Some(i) => Some(self.items()[i as int]),
            None => None,
        }
    }

    pub fn new() -> (r: Self)
        ensures
            r.wf(),
            r.items().len() == 0,
            r.selected_row() is None,
            r.workspace() is None,
            r.mode() == EditMode::Normal,
    {
        TasksComponent {
            items: Vec::new(),
            selection: SelectionTracker::new(),
            selected_workspace: None,
            input: TextInput::new(),
            mode: EditMode::Normal,
            sorter: TaskSorter::new(crate::structs::TaskSortType::Order, false),
            is_focused: false,
            highlight_ticks: None,
            highlighted_name: String::new(),
        }
    }

    /// Marks whether the list has the focus.
    pub fn focus(&mut self, focus: bool)
        ensures
            final(self).items() == old(self).items(),
            final(self).selected_row() == old(self).selected_row(),
            final(self).mode() == old(self).mode(),
            final(self).workspace() == old(self).workspace(),
            final(self).sorter() == old(self).sorter(),
            final(self).input_text() == old(self).input_text(),
            final(self).hinted_name() == old(self).hinted_name(),
            final(self).hint_at() == old(self).hint_at(),
            final(self).remembered() == old(self).remembered(),
            final(self).wf() == old(self).wf(),
    {
        self.is_focused = focus;
    }

    /// Loads the tasks of workspace `ws`, sorted for display, and places the
    /// selection by the reload rules.
    fn load(&mut self, tasks: Vec<Task>, ws: i32)
        requires
            old(self).wf(),
        ensures
            final(self).wf(),
            final(self).items().to_multiset() == tasks@.to_multiset(),
            forall|i: int|
                0 <= i < final(self).items().len() - 1 ==> task_cmp(
                    final(self).sorter(),
                    #[trigger] final(self).items()[i],
                    final(self).items()[i + 1],
                ) <= 0,
            final(self).workspace() == Some(ws),
            final(self).sorter() == old(self).sorter(),
            final(self).mode() == old(self).mode(),
            final(self).input_text() == old(self).input_text(),
            final(self).items().len() == 0 ==> final(self).selected_row() is None,
            forall|i: int, j: int|
                0 <= i < j < final(self).items().len() ==> task_cmp(
                    final(self).sorter(),
                    #[trigger] final(self).items()[i],
                    #[trigger] final(self).items()[j],
                ) <= 0,
            reloaded_selection(
                task_names(final(self).items()),
                old(self).hint_at(),
                old(self).hinted_name(),
                remembered_for(old(self).remembered(), ws),
                final(self).selected_row(),
            ),
            final(self).remembered() == remember(old(self).remembered(), Some(ws), final(self).selected_row()),
            final(self).items().len() > 0 ==> final(self).hint_at() is None,
    {
        let ghost hint_name = self.selection.hint_name();
        let mut tasks = tasks;
        self.sorter.sort(&mut tasks);
        let found = match self.selection.hinted_name() {
            Some(n) => row_named(&tasks, n),
            None => None,
        };
        let len = tasks.len();
        self.items = tasks;
        self.selected_workspace = Some(ws);
        self.selection.reload(len, Some(ws), found);
        proof {
            let names = task_names(self.items@);
            if let Some(n) = hint_name {
                match found {
                    Some(k) => {
                        assert(names[k as int] == n);
                    },
                    None => {
                        assert forall|i: int| 0 <= i < names.len() implies names[i] != n by {
                            assert(self.items@[i].name@ != n);
                        }
                    },
                }
            }
        }
    }

    /// Sends `text` as the new task, name or description for the row being
    /// edited, and leaves the text entry. The row's item, found by name, is
    /// selected at the next reload.
    pub fn submit_text(&mut self, text: String) -> (out: Vec<Action>)
        requires
            old(self).wf(),
        ensures
            final(self).wf(),
            final(self).mode() == EditMode::Normal,
            final(self).input_text() == Seq::<char>::empty(),
            final(self).items() == old(self).items(),
            final(self).selected_row() == old(self).selected_row(),
            final(self).workspace() == old(self).workspace(),
            out@.len() > 0 && out@.last() == Action::LeaveInsertMode,
            match old(self).mode() {
                EditMode::Insert(t) => match old(self).workspace() {
                    Some(ws) => out@ == seq![
                        Action::AddTask(
                            AddTask { name: text, description: None, priority: None, order: Some(t), workspace_id: ws },
                        ),
                        Action::LeaveInsertMode,
                    ] && final(self).hinted_name() == Some(text@),
                    None => out@ == seq![Action::LeaveInsertMode],
                },
                EditMode::Edit(t) => if t < old(self).items().len() {
                    out@ == seq![
                        Action::UpdateTask(UpdateTask { name: Some(text), ..no_change(old(self).items()[t as int].id) }),
                        Action::LeaveInsertMode,
                    ] && final(self).hinted_name() == Some(text@)
                } else {
                    out@ == seq![Action::LeaveInsertMode]
                },
                EditMode::EditDescription(t) => if t < old(self).items().len() {
                    out@ == seq![
                        Action::UpdateTask(UpdateTask { description: Some(text), ..no_change(old(self).items()[t as int].id) }),
                        Action::LeaveInsertMode,
                    ] && final(self).hinted_name() == Some(old(self).items()[t as int].name@)
                } else {
                    out@ == seq![Action::LeaveInsertMode]
                },
                EditMode::Normal => out@ == seq![Action::LeaveInsertMode],
            },
    {
        let mut out: Vec<Action> = Vec::new();
        match self.mode {
            EditMode::Insert(target) => {
                if let Some(ws) = self.selected_workspace {
                    let hint_name = text.clone();
                    out.push(
                        Action::AddTask(
                            AddTask {
                                name: text,
                                description: None,
                                priority: None,
                                order: Some(target),
                                workspace_id: ws,
                            },
                        ),
                    );
                    self.selection.set_hint(target, Some(hint_name));
                }
            },
            EditMode::Edit(target) => {
                if target < self.items.len() {
                    let hint_name = text.clone();
                    let mut u = new_update(self.items[target].id);
                    u.name = Some(text);
                    out.push(Action::UpdateTask(u));
                    self.selection.set_hint(target, Some(hint_name));
                }
            },
            EditMode::EditDescription(target) => {
                if target < self.items.len() {
                    let mut u = new_update(self.items[target].id);
                    u.description = Some(text);
                    out.push(Action::UpdateTask(u));
                    let name = self.items[target].name.clone();
                    self.selection.set_hint(target, Some(name));
                }
            },
            EditMode::Normal => {},
        }
        out.push(Action::LeaveInsertMode);
        self.input.clear();
        self.mode = EditMode::Normal;
        out
    }

    /// Handles a key typed into the text entry.
    fn handle_insert_mode(&mut self, key: Key) -> (out: Vec<Action>)
        requires
            old(self).wf(),
        ensures
            final(self).wf(),
            final(self).items() == old(self).items(),
            final(self).workspace() == old(self).workspace(),
            match key.code {
                KeyCode::Char(c) => out@.len() == 0 && final(self).mode() == old(self).mode(),
                KeyCode::Backspace | KeyCode::Left | KeyCode::Right => out@.len() == 0 && final(self).mode() == old(self).mode(),
                KeyCode::Esc => out@ == seq![Action::LeaveInsertMode] && final(self).mode()
                    == EditMode::Normal && final(self).input_text() == Seq::<char>::empty(),
                KeyCode::Enter => final(self).mode() == EditMode::Normal && out@.len() > 0
                    && out@.last() == Action::LeaveInsertMode,
                _ => out@.len() == 0 && final(self).mode() == old(self).mode() && final(self).input_text() == old(self).input_text(),
            },
    {
        let mut out: Vec<Action> = Vec::new();
        match key.code {
            KeyCode::Char(c) => {
                self.input.insert(c);
            },
            KeyCode::Backspace => {
                self.input.backspace();
            },
            KeyCode::Enter => {
                let text = self.input.submitted();
                out = self.submit_text(text);
            },
            KeyCode::Esc => {
                out.push(Action::LeaveInsertMode);
                self.input.clear();
                self.mode = EditMode::Normal;
                self.selection.secure(self.items.len());
            },
            KeyCode::Left => {
                self.input.left();
            },
            KeyCode::Right => {
                self.input.right();
            },
            _ => {},
        }
        out
    }

    /// Reacts to one action; returns the actions it sends on.
    pub fn update(&mut self, action: Action) -> (out: Vec<Action>)
        requires
            old(self).wf(),
        ensures
            final(self).wf(),
            tasks_step(*old(self), action, *final(self), out@),
    {
        let mut out: Vec<Action> = Vec::new();
        let ws = self.selected_workspace;
        match action {
            Action::NewTasksData(tasks, workspace_id) => {
                if orders_dense(&tasks, workspace_id) {
                    self.load(tasks, workspace_id);
                } else {
                    out.push(Action::Error("the reloaded tasks are not densely ordered".to_owned()));
                }
            },
            Action::UnselectWorkspace => {
                self.items = Vec::new();
                self.selected_workspace = None;
                self.selection.select(None, None);
            },
            Action::SelectWorkspace(id) => {
                out.push(Action::RequestTasksData(id));
            },
            Action::GoUp => {
                self.selection.select_previous(self.items.len(), ws);
            },
            Action::GoDown => {
                self.selection.select_next(self.items.len(), ws);
            },
            Action::GoToTop => {
                self.selection.select_top(self.items.len(), ws);
            },
            Action::GoToBottom => {
                self.selection.select_bottom(self.items.len(), ws);
            },
            Action::IncreasePriority => {
                if let Some(i) = self.selection.selected() {
                    let p = self.items[i].priority;
                    let mut u = new_update(self.items[i].id);
                    u.priority = Some(
                        if p >= MAX_PRIORITY {
                            MAX_PRIORITY
                        } else {
                            p + 1
                        },
                    );
                    out.push(Action::UpdateTask(u));
                }
            },
            Action::DecreasePriority => {
                if let Some(i) = self.selection.selected() {
                    let p = self.items[i].priority;
                    let mut u = new_update(self.items[i].id);
                    u.priority = Some(
                        if p <= MIN_PRIORITY {
                            MIN_PRIORITY
                        } else {
                            p - 1
                        },
                    );
                    out.push(Action::UpdateTask(u));
                }
            },
            Action::SendKeyEvent(key) => {
                if self.mode != EditMode::Normal {
                    out = self.handle_insert_mode(key);
                }
            },
            Action::AddItemAfter => {
                if ws.is_some() {
                    let n = self.items.len();
                    self.mode = EditMode::Insert(
                        match self.selection.selected() {
                            Some(i) => i + 1,
                            None => n,
                        },
                    );
                    out.push(Action::EnterInsertMode);
                }
            },
            Action::AddItemBefore => {
                if ws.is_some() {
                    self.mode = EditMode::Insert(
                        match self.selection.selected() {
                            Some(i) => i,
                            None => 0,
                        },
                    );
                    out.push(Action::EnterInsertMode);
                }
            },
            Action::ToggleCompletion => {
                if let Some(i) = self.selection.selected() {
                    let mut u = new_update(self.items[i].id);
                    u.completed = Some(!self.items[i].completed);
                    out.push(Action::UpdateTask(u));
                }
            },
            Action::DeleteItem => {
                if let Some(i) = self.selection.selected() {
                    out.push(Action::RemoveTask(self.items[i].id));
                }
            },
            Action::EditDescription => {
                if let Some(i) = self.selection.selected() {
                    self.mode = EditMode::EditDescription(i);
                    self.input.set_text(&self.items[i].description);
                    out.push(Action::EnterInsertMode);
                }
            },
            Action::EditItem => {
                if let Some(i) = self.selection.selected() {
                    self.mode = EditMode::Edit(i);
                    self.input.set_text(&self.items[i].name);
                    out.push(Action::EnterInsertMode);
                }
            },
            Action::HighlightTask(name) => {
                self.highlight_ticks = Some(HIGHLIGHT_TICKS);
                self.highlighted_name = name;
            },
            Action::Tick => {
                match self.highlight_ticks {
                    Some(0) => {
                        self.highlight_ticks = None;
                        self.highlighted_name = String::new();
                    },
                    Some(n) => {
                        self.highlight_ticks = Some(n - 1);
                    },
                    None => {},
                }
            },
            Action::MoveItemTop => {
                if let Some(i) = self.selection.selected() {
                    let mut u = new_update(self.items[i].id);
                    u.order = Some(0);
                    out.push(Action::UpdateTask(u));
                    self.selection.select_top(self.items.len(), ws);
                }
            },
            Action::MoveItemUp => {
                if let Some(i) = self.selection.selected() {
                    if i > 0 {
                        let mut u = new_update(self.items[i].id);
                        u.order = Some(i - 1);
                        out.push(Action::UpdateTask(u));
                        self.selection.select_previous(self.items.len(), ws);
                    }
                }
            },
            Action::MoveItemDown => {
                if let Some(i) = self.selection.selected() {
                    let n = self.items.len();
                    if i + 1 < n {
                        let mut u = new_update(self.items[i].id);
                        u.order = Some(i + 1);
                        out.push(Action::UpdateTask(u));
                        self.selection.select_next(self.items.len(), ws);
                    }
                }
            },
            Action::MoveItemBottom => {
                if let Some(i) = self.selection.selected() {
                    let mut u = new_update(self.items[i].id);
                    u.order = Some(self.items.len() - 1);
                    out.push(Action::UpdateTask(u));
                    self.selection.select_bottom(self.items.len(), ws);
                }
            },
            Action::SortTasks(sorter) => {
                self.sorter = sorter;
                self.sorter.sort(&mut self.items);
            },
            _ => {},
        }
        out
    }

    /// The tasks shown, in display order.
    pub fn items_shown(&self) -> (r: &Vec<Task>)
        ensures
            r@ == self.items(),
    {
        &self.items
    }

    /// The selected row.
    pub fn selected(&self) -> (r: Option<usize>)
        ensures
            r == self.selected_row(),
    {
        self.selection.selected()
    }

    /// The workspace whose tasks are shown.
    pub fn selected_workspace(&self) -> (r: Option<i32>)
        ensures
            r == self.workspace(),
    {
        self.selected_workspace
    }

    /// The edit in progress.
    pub fn edit_mode(&self) -> (r: EditMode)
        ensures
            r == self.mode(),
    {
        self.mode
    }

    /// The text typed so far.
    pub fn input(&self) -> (r: String)
        ensures
            r@ == self.input_text(),
    {
        self.input.content()
    }

    /// Characters typed before the cursor.
    pub fn cursor(&self) -> usize {
        self.input.cursor()
    }

    /// Whether the list has the focus.
    pub fn is_focused(&self) -> bool {
        self.is_focused
    }

    /// The name highlighted after a conflict, while the highlight lasts.
    pub fn highlighted(&self) -> Option<&String> {
        match self.highlight_ticks {
            Some(_) => Some(&self.highlighted_name),
            None => None,
        }
    }
}

} // verus!
