use ptui::items::{build_items, Item};
use ptui::select::{Key, SelectOutcome, SelectState};

fn labels(v: &[&str]) -> Vec<String> {
    v.iter().map(|s| s.to_string()).collect()
}

#[test]
fn build_items_groups_runs() {
    let (items, groups) = build_items(&labels(&["a", "a", "b"]));
    assert_eq!(groups, 2);
    assert_eq!(items.len(), 5);
    assert!(matches!(items[0], Item::Header { group: 0 }));
    assert!(matches!(items[1], Item::Leaf { group: 0, index: 0 }));
    assert!(matches!(items[2], Item::Leaf { group: 0, index: 1 }));
    assert!(matches!(items[3], Item::Header { group: 1 }));
    assert!(matches!(items[4], Item::Leaf { group: 1, index: 2 }));
}

#[test]
fn down_wraps_modulo_length() {
    // A flat list of 4 leaves: 5 presses of Down from the top land on 1.
    let (items, _) = build_items(&labels(&["a", "b", "c", "d"]));
    // Every label distinct: 4 headers + 4 leaves = 8 rows.
    assert_eq!(items.len(), 8);
    let mut st = SelectState::new(items, 4, false, false);
    for _ in 0..5 {
        assert!(st.handle_key(Key::Down).is_none());
    }
    assert_eq!(st.cursor, 5 % 8);
    // Wrapping all the way around an 8-row list returns to the top.
    let mut st2 = SelectState::new(build_items(&labels(&["a", "b", "c", "d"])).0, 4, false, false);
    for _ in 0..8 {
        st2.handle_key(Key::Down);
    }
    assert_eq!(st2.cursor, 0);
}

#[test]
fn up_wraps_to_bottom() {
    let (items, _) = build_items(&labels(&["a", "a"]));
    // Header + two leaves = 3 rows.
    let mut st = SelectState::new(items, 2, true, false);
    st.handle_key(Key::Up);
    assert_eq!(st.cursor, 2);
}

#[test]
fn partial_header_toggle_selects_all() {
    // One header over three leaves; two selected, one not (partial).
    let (items, _) = build_items(&labels(&["g", "g", "g"]));
    let mut st = SelectState::new(items, 3, true, false);
    st.handle_key(Key::Down); // leaf 0
    st.handle_key(Key::Char(' '));
    st.handle_key(Key::Down); // leaf 1
    st.handle_key(Key::Char(' '));
    st.handle_key(Key::Tab); // back to the header (wraps)
    assert_eq!(st.cursor, 0);
    st.handle_key(Key::Char(' '));
    // Partial became full, never empty.
    assert_eq!(st.selected_leaves(), vec![0, 1, 2]);
}

#[test]
fn full_header_toggle_deselects_all() {
    let (items, _) = build_items(&labels(&["g", "g"]));
    let mut st = SelectState::new(items, 2, true, true);
    assert_eq!(st.selected_leaves(), vec![0, 1]);
    st.handle_key(Key::Char(' ')); // cursor starts on the header
    assert_eq!(st.selected_leaves(), Vec::<usize>::new());
}

#[test]
fn leaf_toggle_flips_one_flag() {
    let (items, _) = build_items(&labels(&["g", "g"]));
    let mut st = SelectState::new(items, 2, true, false);
    st.handle_key(Key::Down);
    st.handle_key(Key::Char(' '));
    assert_eq!(st.selected_leaves(), vec![0]);
    st.handle_key(Key::Char(' '));
    assert_eq!(st.selected_leaves(), Vec::<usize>::new());
}

#[test]
fn empty_confirm_differs_from_cancel() {
    // Confirming with nothing selected is a present, empty result.
    let (items, _) = build_items(&labels(&["g", "g"]));
    let mut st = SelectState::new(items, 2, true, false);
    let confirmed = st.handle_key(Key::Enter);
    match confirmed {
        Some(SelectOutcome::ChosenSet(v)) => assert!(v.is_empty()),
        other => panic!("expected a present empty set, got {:?}", other),
    }
    // Cancelling is an absent result, distinguishable by the caller.
    let (items2, _) = build_items(&labels(&["g", "g"]));
    let mut st2 = SelectState::new(items2, 2, true, false);
    let cancelled = st2.handle_key(Key::Esc);
    assert!(matches!(cancelled, Some(SelectOutcome::Cancelled)));
}

#[test]
fn q_cancels_too() {
    let (items, _) = build_items(&labels(&["g"]));
    let mut st = SelectState::new(items, 1, true, false);
    assert!(matches!(st.handle_key(Key::Char('q')), Some(SelectOutcome::Cancelled)));
}

#[test]
fn single_select_returns_cursor_row() {
    let (items, _) = build_items(&labels(&["a", "b"]));
    let mut st = SelectState::new(items, 2, false, false);
    st.handle_key(Key::Down);
    match st.handle_key(Key::Enter) {
        Some(SelectOutcome::ChosenIndex(i)) => assert_eq!(i, 1),
        other => panic!("expected the cursor row, got {:?}", other),
    }
}

#[test]
fn tab_jumps_between_headers() {
    // Rows: H0 L0 L1 H1 L2.
    let (items, _) = build_items(&labels(&["a", "a", "b"]));
    let mut st = SelectState::new(items, 3, true, false);
    st.handle_key(Key::Tab);
    assert_eq!(st.cursor, 3); // next header
    st.handle_key(Key::Tab);
    assert_eq!(st.cursor, 0); // wraps to the first header
    st.handle_key(Key::BackTab);
    assert_eq!(st.cursor, 3); // wraps to the last header
    st.handle_key(Key::BackTab);
    assert_eq!(st.cursor, 0);
}

#[test]
fn unknown_keys_are_ignored() {
    let (items, _) = build_items(&labels(&["a"]));
    let mut st = SelectState::new(items, 1, true, false);
    assert!(st.handle_key(Key::Other).is_none());
    assert!(st.handle_key(Key::Char('x')).is_none());
    assert_eq!(st.cursor, 0);
    assert_eq!(st.selected_leaves(), Vec::<usize>::new());
}

#[test]
fn group_state_is_tri_state() {
    let (items, _) = build_items(&labels(&["g", "g", "g"]));
    let mut st = SelectState::new(items, 3, true, false);
    assert_eq!(st.group_state(0), (false, false)); // empty
    st.handle_key(Key::Down);
    st.handle_key(Key::Char(' '));
    assert_eq!(st.group_state(0), (false, true)); // partial
    st.handle_key(Key::Tab);
    st.handle_key(Key::Char(' '));
    assert_eq!(st.group_state(0), (true, true)); // full
}
