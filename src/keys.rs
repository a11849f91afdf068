//! Keys, keymaps, and the matcher that turns key sequences into actions.
//!
//! The matcher is a two-state machine: `Idle`, or `Pending` with the keys
//! typed so far and the ticks left before they are dropped.
use vstd::prelude::*;

use crate::action::{Action, Mode};

verus! {

/// The key itself, without modifiers.
#[derive(Debug, Clone, Copy, PartialEq, Eq, Structural, Hash)]
pub enum KeyCode {
    Char(char),
    Enter,
    Esc,
    Backspace,
    Left,
    Right,
    Up,
    Down,
    Home,
    End,
    PageUp,
    PageDown,
    Tab,
    BackTab,
    Delete,
    Insert,
    F(u8),
    Null,
}

/// A key press: the key and its modifier bits (shift 1, control 2, alt 4,
/// super 8, hyper 16, meta 32).
#[derive(Debug, Clone, Copy, PartialEq, Eq, Structural, Hash)]
pub struct Key {
    pub code: KeyCode,
    pub modifiers: u8,
}

/// Ticks a partial sequence waits for its next key.
pub const SEQUENCE_TIMEOUT: u8 = 4;

/// One entry of a keymap.
pub struct KeyBinding {
    pub keys: Vec<Key>,
    pub action: Action,
}

/// Key sequences bound to actions, each sequence at most once.
pub struct Keymap {
    bindings: Vec<KeyBinding>,
}

impl View for Keymap {
    type V = Seq<Seq<Key>>;

    closed spec fn view(&self) -> Seq<Seq<Key>> {
        Seq::new(self.bindings@.len(), |i: int| self.bindings@[i].keys@)
    }
}

/// Some entry of `map` is exactly `seq`.
pub open spec fn bound(map: Seq<Seq<Key>>, seq: Seq<Key>) -> bool {
    exists|i: int| 0 <= i < map.len() && map[i] == seq
}

/// Some entry of `map` is longer than `seq` and starts with it.
pub open spec fn extends(map: Seq<Seq<Key>>, seq: Seq<Key>) -> bool {
    exists|i: int|
        0 <= i < map.len() && seq.len() < map[i].len() && #[trigger] map[i].subrange(
            0,
            seq.len() as int,
        ) == seq
}

/// No sequence is bound twice.
pub open spec fn distinct_sequences(map: Seq<Seq<Key>>) -> bool {
    forall|i: int, j: int| 0 <= i < map.len() && 0 <= j < map.len() && i != j ==> map[i] != map[j]
}

/// The entry of `map` that is exactly `seq`.
pub open spec fn entry_of(map: Seq<Seq<Key>>, seq: Seq<Key>) -> int {
    choose|i: int| 0 <= i < map.len() && map[i] == seq
}

fn same_keys(a: &Vec<Key>, b: &Vec<Key>) -> (r: bool)
    ensures
        r == (a@ == b@),
{
    if a.len() != b.len() {
        return false;
    }
    let mut i: usize = 0;
    while i < a.len()
        invariant
            a@.len() == b@.len(),
            i <= a@.len(),
            forall|k: int| 0 <= k < i ==> a@[k] == b@[k],
        decreases a@.len() - i,
    {
        if a[i] != b[i] {
            return false;
        }
        i += 1;
    }
    assert(a@ =~= b@);
    true
}

/// `seq` is a proper prefix of `keys`.
fn starts_longer(keys: &Vec<Key>, seq: &Vec<Key>) -> (r: bool)
    ensures
        r == (seq@.len() < keys@.len() && keys@.subrange(0, seq@.len() as int) == seq@),
{
    if seq.len() >= keys.len() {
        return false;
    }
    let mut i: usize = 0;
    while i < seq.len()
        invariant
            seq@.len() < keys@.len(),
            i <= seq@.len(),
            forall|k: int| 0 <= k < i ==> keys@[k] == seq@[k],
        decreases seq@.len() - i,
    {
        if keys[i] != seq[i] {
            assert(keys@.subrange(0, seq@.len() as int)[i as int] != seq@[i as int]);
            return false;
        }
        i += 1;
    }
    assert(keys@.subrange(0, seq@.len() as int) =~= seq@);
    true
}

impl Keymap {
    pub closed spec fn wf(&self) -> bool {
        distinct_sequences(self@)
    }

    /// The action bound at entry `i`.
    pub closed spec fn action_at(&self, i: int) -> Action {
        self.bindings@[i].action
    }

    /// An empty keymap.
    pub fn new() -> (r: Self)
        ensures
            r.wf(),
            r@ == Seq::<Seq<Key>>::empty(),
    {
        let r = Keymap { bindings: Vec::new() };
        assert(r@ =~= Seq::<Seq<Key>>::empty());
        r
    }

    /// Binds `keys` to `action`, replacing the action of an existing entry
    /// for the same sequence.
    pub fn bind(&mut self, keys: Vec<Key>, action: Action)
        requires
            old(self).wf(),
        ensures
            final(self).wf(),
            bound(old(self)@, keys@) ==> final(self)@ == old(self)@ && final(self).action_at(
                entry_of(old(self)@, keys@),
            ) == action && forall|j: int|
                0 <= j < old(self)@.len() && j != entry_of(old(self)@, keys@) ==> final(self).action_at(j) == old(self).action_at(j),
            !bound(old(self)@, keys@) ==> final(self)@ == old(self)@.push(keys@) && final(self).action_at(old(self)@.len() as int) == action && forall|j: int|
                0 <= j < old(self)@.len() ==> final(self).action_at(j) == old(self).action_at(j),
    {
        match self.find(&keys) {
            Some(i) => {
                let ghost before = self.bindings@;
                self.bindings[i].action = action;
                assert(self@ =~= old(self)@);
                assert(self.bindings@[i as int].keys@ == before[i as int].keys@);
            },
            None => {
                self.bindings.push(KeyBinding { keys, action });
                assert(self@ =~= old(self)@.push(keys@));
            },
        }
    }

    /// Number of entries.
    pub fn len(&self) -> (r: usize)
        ensures
            r == self@.len(),
    {
        self.bindings.len()
    }

    /// The action bound at entry `i`.
    pub fn action(&self, i: usize) -> (r: &Action)
        requires
            i < self@.len(),
        ensures
            *r == self.action_at(i as int),
    {
        &self.bindings[i].action
    }

    /// The entry bound to exactly `seq`.
    pub fn find(&self, seq: &Vec<Key>) -> (r: Option<usize>)
        requires
            self.wf(),
        ensures
            match r {
                Some(i) => i < self@.len() && self@[i as int] == seq@ && i == entry_of(self@, seq@),
                None => !bound(self@, seq@),
            },
    {
        let mut j: usize = 0;
        while j < self.bindings.len()
            invariant
                j <= self@.len(),
                self.wf(),
                forall|k: int| 0 <= k < j ==> self@[k] != seq@,
            decreases self@.len() - j,
        {
            if same_keys(&self.bindings[j].keys, seq) {
                assert(self@[j as int] == seq@);
                assert(bound(self@, seq@));
                assert(self@[entry_of(self@, seq@)] == seq@);
                return Some(j);
            }
            j += 1;
        }
        None
    }

    /// Some entry is longer than `seq` and starts with it.
    pub fn extends(&self, seq: &Vec<Key>) -> (r: bool)
        ensures
            r == extends(self@, seq@),
    {
        let mut j: usize = 0;
        while j < self.bindings.len()
            invariant
                j <= self@.len(),
                forall|k: int|
                    0 <= k < j ==> !(seq@.len() < self@[k].len() && #[trigger] self@[k].subrange(
                        0,
                        seq@.len() as int,
                    ) == seq@),
            decreases self@.len() - j,
        {
            if starts_longer(&self.bindings[j].keys, seq) {
                assert(self@[j as int] == self.bindings@[j as int].keys@);
                return true;
            }
            j += 1;
        }
        false
    }
}

/// What a key press led to.
#[derive(Debug, Clone, Copy, PartialEq, Eq, Structural)]
pub enum KeyOutcome {
    /// Text entry: the key goes to the focused recipient as it is.
    Deliver(Key),
    /// The keys typed so far are bound in the global keymap, at this entry.
    Global(usize),
    /// The keys typed so far are bound in the keymap of the mode, at this entry.
    Local(usize),
    /// The keys typed so far start a longer bound sequence: waiting for more.
    Pending,
    /// The keys typed so far lead nowhere and are dropped.
    Discarded,
}

/// Where the keys `buf`, typed outside text entry, lead.
pub open spec fn resolve(buf: Seq<Key>, global: Seq<Seq<Key>>, local: Seq<Seq<Key>>) -> KeyOutcome {
    if bound(global, buf) {
        KeyOutcome::Global(entry_of(global, buf) as usize)
    } else if bound(local, buf) {
        KeyOutcome::Local(entry_of(local, buf) as usize)
    } else if extends(global, buf) || extends(local, buf) {
        KeyOutcome::Pending
    } else {
        KeyOutcome::Discarded
    }
}

/// The keys kept after `buf` led to `outcome`.
pub open spec fn kept_keys(buf: Seq<Key>, outcome: KeyOutcome) -> Seq<Key> {
    if outcome == KeyOutcome::Pending {
        buf
    } else {
        Seq::empty()
    }
}

/// Keys kept and ticks left after one tick.
pub open spec fn after_tick(keys: Seq<Key>, ticks: int) -> (Seq<Key>, int) {
    if keys.len() == 0 || ticks == 0 {
        (Seq::empty(), 0)
    } else {
        (keys, ticks - 1)
    }
}

/// Keys kept and ticks left after `n` ticks.
pub open spec fn after_ticks(keys: Seq<Key>, ticks: int, n: nat) -> (Seq<Key>, int)
    decreases n,
{
    if n == 0 {
        (keys, ticks)
    } else {
        let (k, t) = after_tick(keys, ticks);
        after_ticks(k, t, (n - 1) as nat)
    }
}

/// The state of the key-sequence matcher.
pub enum SequenceState {
    Idle,
    Pending { keys: Vec<Key>, ticks_left: u8 },
}

impl SequenceState {
    /// The keys typed so far.
    pub open spec fn buffered(&self) -> Seq<Key> {
        match self {
            SequenceState::Idle => Seq::empty(),
            SequenceState::Pending { keys, .. } => keys@,
        }
    }

    /// Ticks left before the keys typed so far are dropped.
    pub open spec fn ticks(&self) -> int {
        match self {
            SequenceState::Idle => 0,
            SequenceState::Pending { ticks_left, .. } => *ticks_left as int,
        }
    }

    /// A pending state holds at least one key and at most the full timeout.
    pub open spec fn wf(&self) -> bool {
        match self {
            SequenceState::Idle => true,
            SequenceState::Pending { keys, ticks_left } => keys@.len() > 0 && *ticks_left
                <= SEQUENCE_TIMEOUT,
        }
    }

    pub fn new() -> (r: Self)
        ensures
            r == SequenceState::Idle,
    {
        SequenceState::Idle
    }

    /// Handles one key press. In text entry the key is handed on untouched.
    /// Otherwise it is appended to the keys typed so far, which are looked up
    /// in the global keymap, then in the keymap of the mode: an exact match
    /// fires at once and resets the matcher; a prefix of a longer bound
    /// sequence waits, with the timeout renewed; anything else is dropped.
    pub fn on_key(&mut self, key: Key, mode: Mode, global: &Keymap, local: &Keymap) -> (r: KeyOutcome)
        requires
            old(self).wf(),
            global.wf(),
            local.wf(),
        ensures
            final(self).wf(),
            mode == Mode::Insert ==> r == KeyOutcome::Deliver(key) && *final(self) == *old(self),
            mode != Mode::Insert ==> {
                let buf = old(self).buffered().push(key);
                &&& r == resolve(buf, global@, local@)
                &&& final(self).buffered() == kept_keys(buf, r)
                &&& r == KeyOutcome::Pending ==> final(self).ticks() == SEQUENCE_TIMEOUT
                &&& r != KeyOutcome::Pending ==> *final(self) == SequenceState::Idle
            },
    {
        if mode == Mode::Insert {
            return KeyOutcome::Deliver(key);
        }
        let mut buf: Vec<Key> = match self {
            SequenceState::Idle => Vec::new(),
            SequenceState::Pending { keys, .. } => keys.clone(),
        };
        proof {
            assert(buf@ =~= old(self).buffered());
        }
        buf.push(key);
        if let Some(i) = global.find(&buf) {
            *self = SequenceState::Idle;
            return KeyOutcome::Global(i);
        }
        if let Some(i) = local.find(&buf) {
            *self = SequenceState::Idle;
            return KeyOutcome::Local(i);
        }
        if global.extends(&buf) || local.extends(&buf) {
            *self = SequenceState::Pending { keys: buf, ticks_left: SEQUENCE_TIMEOUT };
            KeyOutcome::Pending
        } else {
            *self = SequenceState::Idle;
            KeyOutcome::Discarded
        }
    }

    /// Counts down the time a partial sequence waits; when it runs out the
    /// keys are dropped, and nothing fires.
    pub fn tick(&mut self)
        requires
            old(self).wf(),
        ensures
            final(self).wf(),
            (final(self).buffered(), final(self).ticks()) == after_tick(
                old(self).buffered(),
                old(self).ticks(),
            ),
    {
        match self {
            SequenceState::Idle => {},
            SequenceState::Pending { keys, ticks_left } => {
                if *ticks_left == 0 {
                    *self = SequenceState::Idle;
                } else {
                    *ticks_left = *ticks_left - 1;
                }
            },
        }
    }

    /// Drops a partial sequence.
    pub fn cancel(&mut self)
        ensures
            *final(self) == SequenceState::Idle,
    {
        *self = SequenceState::Idle;
    }
}

/// A partial sequence that gets no further key drops its keys once more ticks
/// than it had left have passed; the ticks fire nothing, and later keys are
/// looked up as if the dropped ones had never been typed.
pub proof fn lemma_sequence_timeout(keys: Seq<Key>, ticks: int, n: nat)
    requires
        0 <= ticks,
        n > ticks,
    ensures
        after_ticks(keys, ticks, n).0 == Seq::<Key>::empty(),
    decreases n,
{
    if keys.len() == 0 || ticks == 0 {
        lemma_idle_stays(n);
    } else {
        lemma_sequence_timeout(keys, ticks - 1, (n - 1) as nat);
    }
}

/// Ticks leave an idle matcher idle.
pub proof fn lemma_idle_stays(n: nat)
    ensures
        after_ticks(Seq::empty(), 0, n) == (Seq::<Key>::empty(), 0int),
    decreases n,
{
    if n > 0 {
        lemma_idle_stays((n - 1) as nat);
    }
}

/// Within the timeout a pending sequence keeps its keys.
pub proof fn lemma_pending_kept(keys: Seq<Key>, ticks: int, n: nat)
    requires
        keys.len() > 0,
        n <= ticks,
    ensures
        after_ticks(keys, ticks, n) == (keys, ticks - n),
    decreases n,
{
    if n > 0 {
        lemma_pending_kept(keys, ticks - 1, (n - 1) as nat);
    }
}

/// When `[a]` is bound, typing `a` fires that binding at once and leaves the
/// matcher idle: no binding of a longer sequence, such as `[a, b]`, can fire
/// from it.
pub proof fn lemma_exact_match_first(a: Key, global: Seq<Seq<Key>>, local: Seq<Seq<Key>>)
    requires
        bound(global, seq![a]) || bound(local, seq![a]),
    ensures
        bound(global, seq![a]) ==> resolve(seq![a], global, local) == KeyOutcome::Global(
            entry_of(global, seq![a]) as usize,
        ) && global[entry_of(global, seq![a])] == seq![a],
        !bound(global, seq![a]) ==> resolve(seq![a], global, local) == KeyOutcome::Local(
            entry_of(local, seq![a]) as usize,
        ) && local[entry_of(local, seq![a])] == seq![a],
        kept_keys(seq![a], resolve(seq![a], global, local)) == Seq::<Key>::empty(),
{
    if bound(global, seq![a]) {
        let i = entry_of(global, seq![a]);
        assert(global[i] == seq![a]);
    } else {
        let i = entry_of(local, seq![a]);
        assert(local[i] == seq![a]);
    }
}

/// When `[a, b]` is bound and `[a]` is not, typing `a` waits; if `b` follows
/// within the timeout, the binding of `[a, b]` fires.
pub proof fn lemma_chord_completes(
    a: Key,
    b: Key,
    global: Seq<Seq<Key>>,
    local: Seq<Seq<Key>>,
    n: nat,
)
    requires
        !bound(global, seq![a]),
        !bound(local, seq![a]),
        bound(global, seq![a, b]) || bound(local, seq![a, b]),
        n <= SEQUENCE_TIMEOUT,
    ensures
        resolve(seq![a], global, local) == KeyOutcome::Pending,
        after_ticks(seq![a], SEQUENCE_TIMEOUT as int, n).0 == seq![a],
        bound(global, seq![a, b]) ==> resolve(seq![a].push(b), global, local) == KeyOutcome::Global(
            entry_of(global, seq![a, b]) as usize,
        ) && global[entry_of(global, seq![a, b])] == seq![a, b],
        !bound(global, seq![a, b]) ==> resolve(seq![a].push(b), global, local) == KeyOutcome::Local(
            entry_of(local, seq![a, b]) as usize,
        ) && local[entry_of(local, seq![a, b])] == seq![a, b],
{
    assert(seq![a].push(b) =~= seq![a, b]);
    assert(seq![a, b].subrange(0, 1) =~= seq![a]);
    if bound(global, seq![a, b]) {
        let i = entry_of(global, seq![a, b]);
        assert(global[i] == seq![a, b]);
        assert(global[i].subrange(0, seq![a].len() as int) == seq![a]);
        assert(extends(global, seq![a]));
    } else {
        let i = entry_of(local, seq![a, b]);
        assert(local[i] == seq![a, b]);
        assert(local[i].subrange(0, seq![a].len() as int) == seq![a]);
        assert(extends(local, seq![a]));
    }
    lemma_pending_kept(seq![a], SEQUENCE_TIMEOUT as int, n);
}

} // verus!
