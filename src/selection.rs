//! Which row of a list carries the selection cursor, kept stable across
//! reloads of the list.
use std::collections::HashMap;
use vstd::prelude::*;

verus! {

broadcast use vstd::std_specs::hash::group_hash_axioms;

/// A request to select a row once the list is next reloaded: the row of the
/// item called `name` if the reloaded list has one, else `position`.
pub struct SelectionHint {
    pub position: usize,
    pub name: Option<String>,
}

/// The selection of one list, with what it remembers across reloads.
pub struct SelectionTracker {
    selected: Option<usize>,
    hint: Option<SelectionHint>,
    remembered: HashMap<i32, usize>,
}

/// `i`, at most `len - 1`.
pub open spec fn clamp_index(i: int, len: int) -> int {
    if i < len {
        i
    } else {
        len - 1
    }
}

/// The row selected after a reload to `len` rows: the hinted row (the row of
/// the hinted item if found, else the hinted position), else the row
/// remembered for the scope, each kept within bounds, else the first row;
/// nothing when the list is empty.
pub open spec fn reload_choice(
    len: int,
    hint: Option<(int, Option<int>)>,
    remembered: Option<usize>,
) -> Option<usize> {
    if len == 0 {
        None
    } else {
        match hint {
            Some((position, found)) => match found {
                Some(i) => Some(i as usize),
                None => Some(clamp_index(position, len) as usize),
            },
            None => match remembered {
                Some(r) => Some(clamp_index(r as int, len) as usize),
                None => Some(0),
            },
        }
    }
}

/// The selection `s` after a reload to rows named `names` follows the reload
/// rules, given the pending hint (its position and the name it looks for)
/// and the row remembered for the scope: the row of the hinted name if a row
/// has it, else the hinted position; without a hint the remembered row; each
/// kept within bounds; else the first row; nothing on an empty list.
pub open spec fn reloaded_selection(
    names: Seq<Seq<char>>,
    hint_at: Option<int>,
    hint_name: Option<Seq<char>>,
    remembered: Option<usize>,
    s: Option<usize>,
) -> bool {
    let len = names.len() as int;
    if len == 0 {
        s is None
    } else {
        match hint_at {
            Some(p) => match hint_name {
                Some(n) => if exists|i: int| 0 <= i < len && names[i] == n {
                    s matches Some(k) && k < len && names[k as int] == n
                } else {
                    s == Some(clamp_index(p, len) as usize)
                },
                None => s == Some(clamp_index(p, len) as usize),
            },
            None => s == reload_choice(len, None, remembered),
        }
    }
}

/// What is remembered for `scope` in `m`, if anything.
pub open spec fn remembered_for(m: Map<i32, usize>, scope: i32) -> Option<usize> {
    if m.contains_key(scope) {
        Some(m[scope])
    } else {
        None
    }
}

/// The row after `s` among `len`, wrapping to the first.
pub open spec fn next_row(s: Option<usize>, len: int) -> Option<usize> {
    match s {
        Some(i) => Some(((i + 1) % len) as usize),
        None => Some(0),
    }
}

/// The row before `s` among `len`, wrapping to the last.
pub open spec fn previous_row(s: Option<usize>, len: int) -> Option<usize> {
    match s {
        Some(i) => if i == 0 {
            Some((len - 1) as usize)
        } else {
            Some((i - 1) as usize)
        },
        None => Some(0),
    }
}

/// The remembered rows after the selection `s` was made in `scope`.
pub open spec fn remember(m: Map<i32, usize>, scope: Option<i32>, s: Option<usize>) -> Map<i32, usize> {
    match scope {
        Some(k) => match s {
            Some(i) => m.insert(k, i),
            None => m.remove(k),
        },
        None => m,
    }
}

impl SelectionTracker {
    /// The selected row.
    pub closed spec fn selected_row(&self) -> Option<usize> {
        self.selected
    }

    /// The position the pending hint asks for.
    pub closed spec fn hint_position(&self) -> Option<int> {
        match self.hint {
            Some(h) => Some(h.position as int),
            None => None,
        }
    }

    /// The name the pending hint looks for.
    pub closed spec fn hint_name(&self) -> Option<Seq<char>> {
        match self.hint {
            Some(h) => match h.name {
                Some(n) => Some(n@),
                None => None,
            },
            None => None,
        }
    }

    /// The remembered row of each scope.
    pub closed spec fn remembered_rows(&self) -> Map<i32, usize> {
        self.remembered@
    }

    pub fn new() -> (r: Self)
        ensures
            r.selected_row() is None,
            r.hint_position() is None,
            r.remembered_rows() == Map::<i32, usize>::empty(),
    {
        SelectionTracker { selected: None, hint: None, remembered: HashMap::new() }
    }

    /// The selected row.
    pub fn selected(&self) -> (r: Option<usize>)
        ensures
            r == self.selected_row(),
    {
        self.selected
    }

    /// The name the pending hint looks for, if any.
    pub fn hinted_name(&self) -> (r: Option<&String>)
        ensures
            match r {
                Some(n) => self.hint_name() == Some(n@) && self.hint_position() is Some,
                None => self.hint_name() is None,
            },
    {
        match &self.hint {
            Some(h) => match &h.name {
                Some(n) => Some(n),
                None => None,
            },
            None => None,
        }
    }

    /// Asks for `position`, or the row of the item called `name`, to be
    /// selected at the next reload.
    pub fn set_hint(&mut self, position: usize, name: Option<String>)
        ensures
            final(self).hint_position() == Some(position as int),
            final(self).hint_name() == match name {
                Some(n) => Some(n@),
                None => None::<Seq<char>>,
            },
            final(self).selected_row() == old(self).selected_row(),
            final(self).remembered_rows() == old(self).remembered_rows(),
    {
        self.hint = Some(SelectionHint { position, name });
    }

    /// Selects `s` directly, remembering it for `scope`.
    pub fn select(&mut self, s: Option<usize>, scope: Option<i32>)
        ensures
            final(self).selected_row() == s,
            final(self).hint_position() == old(self).hint_position(),
            final(self).hint_name() == old(self).hint_name(),
            final(self).remembered_rows() == remember(old(self).remembered_rows(), scope, s),
    {
        self.selected = s;
        self.remember_selection(scope);
    }

    fn remember_selection(&mut self, scope: Option<i32>)
        ensures
            final(self).selected == old(self).selected,
            final(self).hint == old(self).hint,
            final(self).remembered@ == remember(old(self).remembered@, scope, old(self).selected),
    {
        if let Some(k) = scope {
            match self.selected {
                Some(i) => {
                    self.remembered.insert(k, i);
                },
                None => {
                    self.remembered.remove(&k);
                },
            }
        }
    }

    /// Moves to the next of `len` rows, wrapping; nothing happens on an empty
    /// list.
    pub fn select_next(&mut self, len: usize, scope: Option<i32>)
        requires
            old(self).selected_row() matches Some(i) ==> i < len,
        ensures
            len == 0 ==> *final(self) == *old(self),
            len > 0 ==> final(self).selected_row() == next_row(old(self).selected_row(), len as int)
                && final(self).remembered_rows() == remember(
                old(self).remembered_rows(),
                scope,
                next_row(old(self).selected_row(), len as int),
            ),
            final(self).hint_position() == old(self).hint_position(),
            final(self).hint_name() == old(self).hint_name(),
    {
        if len == 0 {
            return ;
        }
        let s = match self.selected {
            Some(i) => Some((i + 1) % len),
            None => Some(0),
        };
        self.select(s, scope);
    }

    /// Moves to the previous of `len` rows, wrapping; nothing happens on an
    /// empty list.
    pub fn select_previous(&mut self, len: usize, scope: Option<i32>)
        requires
            old(self).selected_row() matches Some(i) ==> i < len,
        ensures
            len == 0 ==> *final(self) == *old(self),
            len > 0 ==> final(self).selected_row() == previous_row(old(self).selected_row(), len as int)
                && final(self).remembered_rows() == remember(
                old(self).remembered_rows(),
                scope,
                previous_row(old(self).selected_row(), len as int),
            ),
            final(self).hint_position() == old(self).hint_position(),
            final(self).hint_name() == old(self).hint_name(),
    {
        if len == 0 {
            return ;
        }
        let s = match self.selected {
            Some(i) => if i == 0 {
                Some(len - 1)
            } else {
                Some(i - 1)
            },
            None => Some(0),
        };
        self.select(s, scope);
    }

    /// Moves to the first row; nothing happens on an empty list.
    pub fn select_top(&mut self, len: usize, scope: Option<i32>)
        ensures
            len == 0 ==> *final(self) == *old(self),
            len > 0 ==> final(self).selected_row() == Some(0usize) && final(self).remembered_rows()
                == remember(old(self).remembered_rows(), scope, Some(0usize)),
            final(self).hint_position() == old(self).hint_position(),
            final(self).hint_name() == old(self).hint_name(),
    {
        if len == 0 {
            return ;
        }
        self.select(Some(0), scope);
    }

    /// Moves to the last row; nothing happens on an empty list.
    pub fn select_bottom(&mut self, len: usize, scope: Option<i32>)
        ensures
            len == 0 ==> *final(self) == *old(self),
            len > 0 ==> final(self).selected_row() == Some((len - 1) as usize) && final(self).remembered_rows() == remember(
                old(self).remembered_rows(),
                scope,
                Some((len - 1) as usize),
            ),
            final(self).hint_position() == old(self).hint_position(),
            final(self).hint_name() == old(self).hint_name(),
    {
        if len == 0 {
            return ;
        }
        self.select(Some(len - 1), scope);
    }

    /// Keeps the selection within `len` rows after an edit was cancelled.
    pub fn secure(&mut self, len: usize)
        ensures
            final(self).selected_row() == match old(self).selected_row() {
                Some(i) => if len == 0 {
                    None
                } else {
                    Some(clamp_index(i as int, len as int) as usize)
                },
                None => None,
            },
            final(self).hint_position() == old(self).hint_position(),
            final(self).hint_name() == old(self).hint_name(),
            final(self).remembered_rows() == old(self).remembered_rows(),
    {
        if let Some(i) = self.selected {
            if len == 0 {
                self.selected = None;
            } else if i >= len {
                self.selected = Some(len - 1);
            }
        }
    }

    /// Chooses the selection after the list of `scope` was reloaded with
    /// `len` rows, `found` being the row of the item the hint names, if the
    /// list has it. The hint is honoured and then dropped; without one, the
    /// row remembered for the scope, kept within bounds, else the first row.
    /// On an empty list nothing is selected and the hint
    /// waits. The choice is remembered for the scope.
    pub fn reload(&mut self, len: usize, scope: Option<i32>, found: Option<usize>)
        requires
            found matches Some(i) ==> i < len,
        ensures
            final(self).selected_row() == reload_choice(
                len as int,
                match old(self).hint_position() {
                    Some(p) => Some((p, match found {
                        Some(i) => Some(i as int),
                        None => None,
                    })),
                    None => None,
                },
                match scope {
                    Some(k) => if old(self).remembered_rows().contains_key(k) {
                        Some(old(self).remembered_rows()[k])
                    } else {
                        None
                    },
                    None => None,
                },
            ),
            final(self).selected_row() matches Some(i) ==> i < len,
            len > 0 ==> final(self).hint_position() is None && final(self).hint_name() is None,
            len == 0 ==> final(self).hint_position() == old(self).hint_position()
                && final(self).hint_name() == old(self).hint_name(),
            final(self).remembered_rows() == remember(
                old(self).remembered_rows(),
                scope,
                final(self).selected_row(),
            ),
    {
        if len == 0 {
            self.selected = None;
        } else {
            let remembered = match scope {
                Some(k) => match self.remembered.get(&k) {
                    Some(r) => Some(*r),
                    None => None,
                },
                None => None,
            };
            let choice = match &self.hint {
                Some(h) => match found {
                    Some(i) => i,
                    None => if h.position < len {
                        h.position
                    } else {
                        len - 1
                    },
                },
                None => match remembered {
                    Some(r) => if r < len {
                        r
                    } else {
                        len - 1
                    },
                    None => 0,
                },
            };
            self.selected = Some(choice);
            self.hint = None;
        }
        self.remember_selection(scope);
    }
}

} // verus!
