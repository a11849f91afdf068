//! The list of workspaces: navigation, edits in place, and the write requests
//! and workspace selections they lead to.
use vstd::prelude::*;

use crate::action::Action;
use crate::input::TextInput;
use crate::keys::{Key, KeyCode};
use crate::selection::{
    next_row, previous_row, reloaded_selection, remember, remembered_for, SelectionTracker,
};
use crate::sorting::workspace_cmp;
use crate::structs::{AddWorkspace, UpdateWorkspace, Workspace, WorkspaceSortType, WorkspaceSorter};
use crate::tasks::{EditMode, HIGHLIGHT_TICKS};

verus! {

/// An update of workspace `id` that moves it to `order`.
pub open spec fn move_workspace_to(id: i32, order: usize) -> Action {
    Action::UpdateWorkspace(UpdateWorkspace { id, name: None, order: Some(order) })
}

/// The announcement of the workspace at row `s` of `items`, if any.
pub open spec fn announce(items: Seq<Workspace>, s: Option<usize>) -> Seq<Action> {
    match s {
        Some(i) => seq![Action::SelectWorkspace(items[i as int].id)],
        None => Seq::empty(),
    }
}

/// The list of workspaces.
pub struct WorkspacesComponent {
    items: Vec<Workspace>,
    selection: SelectionTracker,
    input: TextInput,
    mode: EditMode,
    sorter: WorkspaceSorter,
    is_focused: bool,
    highlight_ticks: Option<u8>,
    highlighted_name: String,
}

/// Row of the workspace called `name` in `items`, if any.
fn row_named(items: &Vec<Workspace>, name: &String) -> (r: Option<usize>)
    ensures
        match r {
            Some(i) => i < items@.len() && items@[i as int].name@ == name@,
            None => forall|i: int| 0 <= i < items@.len() ==> (#[trigger] items@[i]).name@ != name@,
        },
{
    let mut j: usize = 0;
    while j < items.len()
        invariant
            j <= items@.len(),
            forall|i: int| 0 <= i < j ==> (#[trigger] items@[i]).name@ != name@,
        decreases items@.len() - j,
    {
        if items[j].name == *name {
            return Some(j);
        }
        j += 1;
    }
    None
}

/// The scope under which the list remembers its row.
pub const WORKSPACE_SCOPE: i32 = 0;

/// The rows' names.
pub open spec fn workspace_names(s: Seq<Workspace>) -> Seq<Seq<char>> {
    Seq::new(s.len(), |i: int| s[i].name@)
}

/// A move of the selection by navigation: the list and the pending hint stay,
/// and the new row is remembered.
pub open spec fn workspaces_navigated(pre: WorkspacesComponent, post: WorkspacesComponent, s: Option<usize>) -> bool {
    &&& post.items() == pre.items()
    &&& post.mode() == pre.mode()
    &&& post.hint_at() == pre.hint_at()
    &&& post.hinted_name() == pre.hinted_name()
    &&& if pre.items().len() > 0 {
        post.selected_row() == s && post.remembered() == remember(pre.remembered(), Some(WORKSPACE_SCOPE), s)
    } else {
        post.selected_row() == pre.selected_row() && post.remembered() == pre.remembered()
    }
}

/// What the list of workspaces does with one action: `pre` becomes `post`
/// and `out` is sent on.
pub open spec fn workspaces_step(
    pre: WorkspacesComponent,
    action: Action,
    post: WorkspacesComponent,
    out: Seq<Action>,
) -> bool {
    &&& (action matches Action::GoDown ==> workspaces_navigated(pre, post, next_row(pre.selected_row(), pre.items().len() as int)) && out == if pre.items().len() > 0 {
        announce(post.items(), post.selected_row())
    } else {
        Seq::<Action>::empty()
    })
    &&& (action matches Action::GoUp ==> workspaces_navigated(pre, post, previous_row(pre.selected_row(), pre.items().len() as int)) && out == if pre.items().len() > 0 {
        announce(post.items(), post.selected_row())
    } else {
        Seq::<Action>::empty()
    })
    &&& (action matches Action::GoToTop ==> workspaces_navigated(pre, post, Some(0usize)) && out == if pre.items().len() > 0 {
        announce(post.items(), post.selected_row())
    } else {
        Seq::<Action>::empty()
    })
    &&& (action matches Action::GoToBottom ==> workspaces_navigated(pre, post, Some((pre.items().len() - 1) as usize)) && out == if pre.items().len() > 0 {
        announce(post.items(), post.selected_row())
    } else {
        Seq::<Action>::empty()
    })
    &&& (action matches Action::Tick ==> out.len() == 0 && post.items() == pre.items()
        && post.selected_row() == pre.selected_row() && post.remembered() == pre.remembered()
        && post.hint_at() == pre.hint_at())
    &&& (action matches Action::NewWorkspacesData(ws) ==> {
        &&& post.items().to_multiset() == ws@.to_multiset()
        &&& forall|i: int, j: int|
            0 <= i < j < post.items().len() ==> workspace_cmp(
                post.sorter(),
                #[trigger] post.items()[i],
                #[trigger] post.items()[j],
            ) <= 0
        &&& post.selected_row() matches Some(k) ==> k < post.items().len()
        &&& post.items().len() == 0 ==> post.selected_row() is None && out == seq![Action::UnselectWorkspace]
        &&& post.items().len() > 0 ==> post.selected_row() is Some && out == announce(
            post.items(),
            post.selected_row(),
        ) && post.hint_at() is None
        &&& reloaded_selection(
            workspace_names(post.items()),
            pre.hint_at(),
            pre.hinted_name(),
            remembered_for(pre.remembered(), WORKSPACE_SCOPE),
            post.selected_row(),
        )
        &&& post.remembered() == remember(pre.remembered(), Some(WORKSPACE_SCOPE), post.selected_row())
    })
    &&& (action matches Action::DeleteItem ==> out == match pre.selected_workspace() {
                Some(w) => seq![Action::RemoveWorkspace(w.id)],
                None => Seq::<Action>::empty(),
            })
    &&& (action matches Action::MoveItemTop ==> match pre.selected_workspace() {
                Some(w) => out.len() > 0 && out[0] == move_workspace_to(w.id, 0),
                None => out.len() == 0,
            })
    &&& (action matches Action::MoveItemBottom ==> match pre.selected_workspace() {
                Some(w) => out.len() > 0 && out[0] == move_workspace_to(
                    w.id,
                    (pre.items().len() - 1) as usize,
                ),
                None => out.len() == 0,
            })
    &&& (action matches Action::MoveItemUp ==> match pre.selected_row() {
                Some(i) => if i > 0 {
                    out.len() > 0 && out[0] == move_workspace_to(pre.items()[i as int].id, (i - 1) as usize)
                } else {
                    out.len() == 0
                },
                None => out.len() == 0,
            })
    &&& (action matches Action::MoveItemDown ==> match pre.selected_row() {
                Some(i) => if i + 1 < pre.items().len() {
                    out.len() > 0 && out[0] == move_workspace_to(pre.items()[i as int].id, (i + 1) as usize)
                } else {
                    out.len() == 0
                },
                None => out.len() == 0,
            })
    &&& (action matches Action::AddItemAfter ==> out == seq![Action::EnterInsertMode] && post.mode() == EditMode::Insert(
                match pre.selected_row() {
                    Some(i) => (i + 1) as usize,
                    None => pre.items().len() as usize,
                },
            ))
    &&& (action matches Action::AddItemBefore ==> out == seq![Action::EnterInsertMode] && post.mode() == EditMode::Insert(
                match pre.selected_row() {
                    Some(i) => i,
                    None => 0usize,
                },
            ))
    &&& (action matches Action::EditItem ==> match pre.selected_row() {
                Some(i) => out == seq![Action::EnterInsertMode] && post.mode()
                    == EditMode::Edit(i) && post.input_text() == pre.items()[i as int].name@,
                None => out.len() == 0 && post.mode() == pre.mode(),
            })
    &&& (action matches Action::SortWorkspaces(s) ==> out.len() == 0 && post.sorter() == s
                && post.items().to_multiset() == pre.items().to_multiset())
    &&& (action matches Action::SendKeyEvent(key) ==> (pre.mode() == EditMode::Normal
                ==> out.len() == 0 && post.items() == pre.items()))
}

impl WorkspacesComponent {
    /// The workspaces shown, in display order.
    pub closed spec fn items(&self) -> Seq<Workspace> {
        self.items@
    }

    /// The selected row.
    pub closed spec fn selected_row(&self) -> Option<usize> {
        self.selection.selected_row()
    }

    /// The edit in progress.
    pub closed spec fn mode(&self) -> EditMode {
        self.mode
    }

    /// The display ordering.
    pub closed spec fn sorter(&self) -> WorkspaceSorter {
        self.sorter
    }

    /// The text typed so far.
    pub closed spec fn input_text(&self) -> Seq<char> {
        self.input.text()
    }

    /// The name the pending selection hint looks for.
    pub closed spec fn hinted_name(&self) -> Option<Seq<char>> {
        self.selection.hint_name()
    }

    /// The position the pending selection hint asks for.
    pub closed spec fn hint_at(&self) -> Option<int> {
        self.selection.hint_position()
    }

    /// The remembered rows.
    pub closed spec fn remembered(&self) -> Map<i32, usize> {
        self.selection.remembered_rows()
    }

    /// The selection lies within the list and the cursor within the text.
    pub closed spec fn wf(&self) -> bool {
        &&& self.input.wf()
        &&& self.selection.selected_row() matches Some(i) ==> i < self.items@.len()
    }

    /// The selected workspace.
    pub open spec fn selected_workspace(&self) -> Option<Workspace> {
        match self.selected_row() {
            Some(i) => Some(self.items()[i as int]),
            None => None,
        }
    }

    pub fn new() -> (r: Self)
        ensures
            r.wf(),
            r.items().len() == 0,
            r.selected_row() is None,
            r.mode() == EditMode::Normal,
    {
        WorkspacesComponent {
            items: Vec::new(),
            selection: SelectionTracker::new(),
            input: TextInput::new(),
            mode: EditMode::Normal,
            sorter: WorkspaceSorter::new(WorkspaceSortType::Order, false),
            is_focused: false,
            highlight_ticks: None,
            highlighted_name: String::new(),
        }
    }

    /// Marks whether the list has the focus.
    pub fn focus(&mut self, focus: bool)
        ensures
            final(self).items() == old(self).items(),
            final(self).selected_row() == old(self).selected_row(),
            final(self).mode() == old(self).mode(),
            final(self).sorter() == old(self).sorter(),
            final(self).input_text() == old(self).input_text(),
            final(self).hinted_name() == old(self).hinted_name(),
            final(self).hint_at() == old(self).hint_at(),
            final(self).remembered() == old(self).remembered(),
            final(self).wf() == old(self).wf(),
    {
        self.is_focused = focus;
    }

    /// Announces the selected workspace, if any.
    fn send_workspace_id(&self) -> (out: Vec<Action>)
        requires
            self.wf(),
        ensures
            out@ == announce(self.items(), self.selected_row()),
    {
        let mut out: Vec<Action> = Vec::new();
        if let Some(i) = self.selection.selected() {
            out.push(Action::SelectWorkspace(self.items[i].id));
        }
        proof {
            if self.selected_row() is Some {
                assert(out@ =~= announce(self.items(), self.selected_row()));
            } else {
                assert(out@ =~= announce(self.items(), self.selected_row()));
            }
        }
        out
    }

    /// Loads the workspaces, sorted for display, places the selection by the
    /// reload rules, and announces the selected workspace; on an empty list
    /// it announces that no workspace is selected.
    fn load(&mut self, workspaces: Vec<Workspace>) -> (out: Vec<Action>)
        requires
            old(self).wf(),
        ensures
            final(self).wf(),
            final(self).items().to_multiset() == workspaces@.to_multiset(),
            forall|i: int|
                0 <= i < final(self).items().len() - 1 ==> workspace_cmp(
                    final(self).sorter(),
                    #[trigger] final(self).items()[i],
                    final(self).items()[i + 1],
                ) <= 0,
            final(self).sorter() == old(self).sorter(),
            final(self).mode() == old(self).mode(),
            final(self).items().len() == 0 ==> final(self).selected_row() is None && out@ == seq![
                Action::UnselectWorkspace,
            ],
            final(self).items().len() > 0 ==> final(self).selected_row() is Some && out@ == announce(
                final(self).items(),
                final(self).selected_row(),
            ),
            final(self).selected_row() matches Some(k) ==> k < final(self).items().len(),
            forall|i: int, j: int|
                0 <= i < j < final(self).items().len() ==> workspace_cmp(
                    final(self).sorter(),
                    #[trigger] final(self).items()[i],
                    #[trigger] final(self).items()[j],
                ) <= 0,
            reloaded_selection(
                workspace_names(final(self).items()),
                old(self).hint_at(),
                old(self).hinted_name(),
                remembered_for(old(self).remembered(), WORKSPACE_SCOPE),
                final(self).selected_row(),
            ),
            final(self).remembered() == remember(
                old(self).remembered(),
                Some(WORKSPACE_SCOPE),
                final(self).selected_row(),
            ),
            final(self).items().len() > 0 ==> final(self).hint_at() is None,
    {
        let ghost hint_name = self.selection.hint_name();
        let mut workspaces = workspaces;
        self.sorter.sort(&mut workspaces);
        let found = match self.selection.hinted_name() {
            Some(n) => row_named(&workspaces, n),
            None => None,
        };
        let len = workspaces.len();
        self.items = workspaces;
        self.selection.reload(len, Some(WORKSPACE_SCOPE), found);
        proof {
            let names = workspace_names(self.items@);
            if let Some(n) = hint_name {
                match found {
                    Some(k) => {
                        assert(names[k as int] == n);
                    },
                    None => {
                        assert forall|i: int| 0 <= i < names.len() implies names[i] != n by {
                            assert(self.items@[i].name@ != n);
                        }
                    },
                }
            }
        }
        if len == 0 {
            let mut out: Vec<Action> = Vec::new();
            out.push(Action::UnselectWorkspace);
            proof {
                assert(out@ =~= seq![Action::UnselectWorkspace]);
            }
            out
        } else {
            self.send_workspace_id()
        }
    }

    /// Sends `text` as the new workspace or name for the row being edited,
    /// and leaves the text entry. The row's workspace, found by name, is
    /// selected at the next reload.
    pub fn submit_text(&mut self, text: String) -> (out: Vec<Action>)
        requires
            old(self).wf(),
        ensures
            final(self).wf(),
            final(self).mode() == EditMode::Normal,
            final(self).input_text() == Seq::<char>::empty(),
            final(self).items() == old(self).items(),
            final(self).selected_row() == old(self).selected_row(),
            out@.len() > 0 && out@.last() == Action::LeaveInsertMode,
            match old(self).mode() {
                EditMode::Insert(t) => out@ == seq![
                    Action::AddWorkspace(AddWorkspace { name: text, order: Some(t) }),
                    Action::LeaveInsertMode,
                ] && final(self).hinted_name() == Some(text@),
                EditMode::Edit(t) => if t < old(self).items().len() {
                    out@ == seq![
                        Action::UpdateWorkspace(
                            UpdateWorkspace { id: old(self).items()[t as int].id, name: Some(text), order: None },
                        ),
                        Action::LeaveInsertMode,
                    ] && final(self).hinted_name() == Some(text@)
                } else {
                    out@ == seq![Action::LeaveInsertMode]
                },
                _ => out@ == seq![Action::LeaveInsertMode],
            },
    {
        let mut out: Vec<Action> = Vec::new();
        match self.mode {
            EditMode::Insert(target) => {
                let hint_name = text.clone();
                out.push(Action::AddWorkspace(AddWorkspace { name: text, order: Some(target) }));
                self.selection.set_hint(target, Some(hint_name));
            },
            EditMode::Edit(target) => {
                if target < self.items.len() {
                    let hint_name = text.clone();
                    out.push(
                        Action::UpdateWorkspace(
                            UpdateWorkspace { id: self.items[target].id, name: Some(text), order: None },
                        ),
                    );
                    self.selection.set_hint(target, Some(hint_name));
                }
            },
            _ => {},
        }
        out.push(Action::LeaveInsertMode);
        self.input.clear();
        self.mode = EditMode::Normal;
        out
    }

    /// Handles a key typed into the text entry.
    fn handle_insert_mode(&mut self, key: Key) -> (out: Vec<Action>)
        requires
            old(self).wf(),
        ensures
            final(self).wf(),
            final(self).items() == old(self).items(),
            match key.code {
                KeyCode::Esc => out@ == seq![Action::LeaveInsertMode] && final(self).mode()
                    == EditMode::Normal && final(self).input_text() == Seq::<char>::empty(),
                KeyCode::Enter => final(self).mode() == EditMode::Normal && out@.len() > 0
                    && out@.last() == Action::LeaveInsertMode,
                _ => out@.len() == 0 && final(self).mode() == old(self).mode(),
            },
    {
        let mut out: Vec<Action> = Vec::new();
        match key.code {
            KeyCode::Char(c) => {
                self.input.insert(c);
            },
            KeyCode::Backspace => {
                self.input.backspace();
            },
            KeyCode::Enter => {
                let text = self.input.submitted();
                out = self.submit_text(text);
            },
            KeyCode::Esc => {
                out.push(Action::LeaveInsertMode);
                self.input.clear();
                self.mode = EditMode::Normal;
            },
            KeyCode::Left => {
                self.input.left();
            },
            KeyCode::Right => {
                self.input.right();
            },
            _ => {},
        }
        out
    }

    /// Asks for the workspaces to be loaded.
    pub fn init(&self) -> (out: Vec<Action>)
        ensures
            out@ == seq![Action::RequestWorkspacesData],
    {
        let mut out: Vec<Action> = Vec::new();
        out.push(Action::RequestWorkspacesData);
        proof {
            assert(out@ =~= seq![Action::RequestWorkspacesData]);
        }
        out
    }

    /// Reacts to one action; returns the actions it sends on.
    pub fn update(&mut self, action: Action) -> (out: Vec<Action>)
        requires
            old(self).wf(),
        ensures
            final(self).wf(),
            workspaces_step(*old(self), action, *final(self), out@),
    {
        let mut out: Vec<Action> = Vec::new();
        match action {
            Action::NewWorkspacesData(workspaces) => {
                out = self.load(workspaces);
            },
            Action::GoUp => {
                self.selection.select_previous(self.items.len(), Some(WORKSPACE_SCOPE));
                out = self.send_workspace_id();
            },
            Action::GoDown => {
                self.selection.select_next(self.items.len(), Some(WORKSPACE_SCOPE));
                out = self.send_workspace_id();
            },
            Action::GoToTop => {
                self.selection.select_top(self.items.len(), Some(WORKSPACE_SCOPE));
                out = self.send_workspace_id();
            },
            Action::GoToBottom => {
                self.selection.select_bottom(self.items.len(), Some(WORKSPACE_SCOPE));
                out = self.send_workspace_id();
            },
            Action::SendKeyEvent(key) => {
                if self.mode != EditMode::Normal {
                    out = self.handle_insert_mode(key);
                }
            },
            Action::AddItemAfter => {
                let n = self.items.len();
                self.mode = EditMode::Insert(
                    match self.selection.selected() {
                        Some(i) => i + 1,
                        None => n,
                    },
                );
                out.push(Action::EnterInsertMode);
            },
            Action::AddItemBefore => {
                self.mode = EditMode::Insert(
                    match self.selection.selected() {
                        Some(i) => i,
                        None => 0,
                    },
                );
                out.push(Action::EnterInsertMode);
            },
            Action::DeleteItem => {
                if let Some(i) = self.selection.selected() {
                    out.push(Action::RemoveWorkspace(self.items[i].id));
                }
            },
            Action::EditItem => {
                if let Some(i) = self.selection.selected() {
                    self.mode = EditMode::Edit(i);
                    self.input.set_text(&self.items[i].name);
                    out.push(Action::EnterInsertMode);
                }
            },
            Action::HighlightWorkspace(name) => {
                self.highlight_ticks = Some(HIGHLIGHT_TICKS);
                self.highlighted_name = name;
            },
            Action::Tick => {
                match self.highlight_ticks {
                    Some(0) => {
                        self.highlight_ticks = None;
                        self.highlighted_name = String::new();
                    },
                    Some(n) => {
                        self.highlight_ticks = Some(n - 1);
                    },
                    None => {},
                }
            },
            Action::MoveItemTop => {
                if let Some(i) = self.selection.selected() {
                    out.push(
                        Action::UpdateWorkspace(
                            UpdateWorkspace { id: self.items[i].id, name: None, order: Some(0) },
                        ),
                    );
                    self.selection.select_top(self.items.len(), Some(WORKSPACE_SCOPE));
                    let mut more = self.send_workspace_id();
                    out.append(&mut more);
                }
            },
            Action::MoveItemUp => {
                if let Some(i) = self.selection.selected() {
                    if i > 0 {
                        out.push(
                            Action::UpdateWorkspace(
                                UpdateWorkspace { id: self.items[i].id, name: None, order: Some(i - 1) },
                            ),
                        );
                        self.selection.select_previous(self.items.len(), Some(WORKSPACE_SCOPE));
                        let mut more = self.send_workspace_id();
                        out.append(&mut more);
                    }
                }
            },
            Action::MoveItemDown => {
                if let Some(i) = self.selection.selected() {
                    let n = self.items.len();
                    if i + 1 < n {
                        out.push(
                            Action::UpdateWorkspace(
                                UpdateWorkspace { id: self.items[i].id, name: None, order: Some(i + 1) },
                            ),
                        );
                        self.selection.select_next(self.items.len(), Some(WORKSPACE_SCOPE));
                        let mut more = self.send_workspace_id();
                        out.append(&mut more);
                    }
                }
            },
            Action::MoveItemBottom => {
                if let Some(i) = self.selection.selected() {
                    let n = self.items.len();
                    out.push(
                        Action::UpdateWorkspace(
                            UpdateWorkspace { id: self.items[i].id, name: None, order: Some(n - 1) },
                        ),
                    );
                    self.selection.select_bottom(n, Some(WORKSPACE_SCOPE));
                    let mut more = self.send_workspace_id();
                    out.append(&mut more);
                }
            },
            Action::SortWorkspaces(sorter) => {
                self.sorter = sorter;
                self.sorter.sort(&mut self.items);
            },
            _ => {},
        }
        out
    }

    /// The workspaces shown, in display order.
    pub fn items_shown(&self) -> (r: &Vec<Workspace>)
        ensures
            r@ == self.items(),
    {
        &self.items
    }

    /// The selected row.
    pub fn selected(&self) -> (r: Option<usize>)
        ensures
            r == self.selected_row(),
    {
        self.selection.selected()
    }

    /// The edit in progress.
    pub fn edit_mode(&self) -> (r: EditMode)
        ensures
            r == self.mode(),
    {
        self.mode
    }

    /// The text typed so far.
    pub fn input(&self) -> (r: String)
        ensures
            r@ == self.input_text(),
    {
        self.input.content()
    }

    /// Characters typed before the cursor.
    pub fn cursor(&self) -> usize {
        self.input.cursor()
    }

    /// Whether the list has the focus.
    pub fn is_focused(&self) -> bool {
        self.is_focused
    }

    /// The name highlighted after a conflict, while the highlight lasts.
    pub fn highlighted(&self) -> Option<&String> {
        match self.highlight_ticks {
            Some(_) => Some(&self.highlighted_name),
            None => None,
        }
    }
}

} // verus!
