use do_me::action::{Action, Mode};
use do_me::keys::{Key, KeyCode, KeyOutcome, Keymap, SequenceState, SEQUENCE_TIMEOUT};

fn key(c: char) -> Key {
    Key { code: KeyCode::Char(c), modifiers: 0 }
}

fn maps() -> (Keymap, Keymap) {
    let mut global = Keymap::new();
    global.bind(vec![key('q')], Action::Quit);
    let mut local = Keymap::new();
    local.bind(vec![key('j')], Action::GoDown);
    local.bind(vec![key('g'), key('g')], Action::GoToTop);
    local.bind(vec![key('d')], Action::DeleteItem);
    local.bind(vec![key('d'), key('d')], Action::MoveItemBottom);
    (global, local)
}

#[test]
fn single_key_fires_at_once() {
    let (global, local) = maps();
    let mut s = SequenceState::new();
    let r = s.on_key(key('q'), Mode::Navigation, &global, &local);
    assert_eq!(r, KeyOutcome::Global(0));
    assert_eq!(global.action(0), &Action::Quit);
    let r = s.on_key(key('j'), Mode::Navigation, &global, &local);
    assert_eq!(r, KeyOutcome::Local(0));
    assert_eq!(local.action(0), &Action::GoDown);
}

#[test]
fn chord_fires_on_its_second_key() {
    let (global, local) = maps();
    let mut s = SequenceState::new();
    assert_eq!(s.on_key(key('g'), Mode::Navigation, &global, &local), KeyOutcome::Pending);
    for _ in 0..SEQUENCE_TIMEOUT {
        s.tick();
    }
    assert_eq!(s.on_key(key('g'), Mode::Navigation, &global, &local), KeyOutcome::Local(1));
    assert_eq!(local.action(1), &Action::GoToTop);
}

#[test]
fn partial_sequence_times_out() {
    let (global, local) = maps();
    let mut s = SequenceState::new();
    assert_eq!(s.on_key(key('g'), Mode::Navigation, &global, &local), KeyOutcome::Pending);
    for _ in 0..=SEQUENCE_TIMEOUT {
        s.tick();
    }
    assert!(matches!(s, SequenceState::Idle));
    // the dropped `g` does not combine with a later one
    assert_eq!(s.on_key(key('g'), Mode::Navigation, &global, &local), KeyOutcome::Pending);
}

#[test]
fn exact_match_beats_longer_sequence() {
    let (global, local) = maps();
    let mut s = SequenceState::new();
    assert_eq!(s.on_key(key('d'), Mode::Navigation, &global, &local), KeyOutcome::Local(2));
    assert!(matches!(s, SequenceState::Idle));
    assert_eq!(s.on_key(key('d'), Mode::Navigation, &global, &local), KeyOutcome::Local(2));
}

#[test]
fn unbound_keys_are_dropped() {
    let (global, local) = maps();
    let mut s = SequenceState::new();
    assert_eq!(s.on_key(key('x'), Mode::Navigation, &global, &local), KeyOutcome::Discarded);
    assert_eq!(s.on_key(key('g'), Mode::Navigation, &global, &local), KeyOutcome::Pending);
    assert_eq!(s.on_key(key('x'), Mode::Navigation, &global, &local), KeyOutcome::Discarded);
    assert!(matches!(s, SequenceState::Idle));
}

#[test]
fn text_entry_bypasses_the_keymaps() {
    let (global, local) = maps();
    let mut s = SequenceState::new();
    assert_eq!(s.on_key(key('q'), Mode::Insert, &global, &local), KeyOutcome::Deliver(key('q')));
    assert!(matches!(s, SequenceState::Idle));
}

#[test]
fn rebinding_replaces_the_action() {
    let mut map = Keymap::new();
    map.bind(vec![key('a')], Action::GoUp);
    map.bind(vec![key('a')], Action::GoDown);
    assert_eq!(map.len(), 1);
    assert_eq!(map.action(0), &Action::GoDown);
    assert_eq!(map.find(&vec![key('a')]), Some(0));
    assert!(!map.extends(&vec![key('a')]));
}
