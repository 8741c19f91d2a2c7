use std::collections::HashSet;

use kagari_widgets::dropdown::selected_index;
use kagari_widgets::keys::Key;
use kagari_widgets::nav::{
    group_click, group_key, roving_key, select_key, step_visible, tabs_key, toggle_group_click, toggle_group_key,
    wrap_step,
};
use kagari_widgets::toggle::toggle;

/// A wrapping selection group over `values`, bound to `value`: one key press.
fn press_group(values: &[(i32, String)], value: &mut i32, key: Key) {
    press_group_in(values, value, key, false);
}

/// One key press on a selection group that is `disabled` or not.
fn press_group_in(values: &[(i32, String)], value: &mut i32, key: Key, disabled: bool) {
    let cur = selected_index(values, value);
    if let Some(next) = group_key(cur, values.len(), key, false, disabled) {
        *value = values[next].0;
    }
}

/// A click on entry `entry` of a selection group that is `disabled` or not.
fn click_group(values: &[(i32, String)], value: &mut i32, entry: usize, disabled: bool) {
    if let Some(i) = group_click(entry, disabled) {
        *value = values[i].0;
    }
}

fn group_3() -> Vec<(i32, String)> {
    vec![(0, "A".to_string()), (1, "B".to_string()), (2, "C".to_string())]
}

#[test]
fn radio_arrow_should_move_selection() {
    let opts = group_3();
    let mut value = 0;
    press_group(&opts, &mut value, Key::ArrowDown);
    assert_eq!(value, 1, "ArrowDown selects the next option");
    press_group(&opts, &mut value, Key::ArrowDown);
    assert_eq!(value, 2);
    press_group(&opts, &mut value, Key::ArrowDown);
    assert_eq!(value, 0, "ArrowDown wraps from the last to the first");
    press_group(&opts, &mut value, Key::ArrowUp);
    assert_eq!(value, 2, "ArrowUp wraps from the first to the last");
}

#[test]
fn segmented_arrow_should_move_selection() {
    let segs = group_3();
    let mut value = 0;
    press_group(&segs, &mut value, Key::ArrowRight);
    assert_eq!(value, 1, "ArrowRight selects the next segment");
    press_group(&segs, &mut value, Key::ArrowRight);
    assert_eq!(value, 2);
    press_group(&segs, &mut value, Key::ArrowRight);
    assert_eq!(value, 0, "ArrowRight wraps from the last to the first");
    press_group(&segs, &mut value, Key::ArrowLeft);
    assert_eq!(value, 2, "ArrowLeft wraps from the first to the last");
}

#[test]
fn tabs_arrow_should_move_selection() {
    let mut selected = 0usize;
    let mut press = |k: Key| {
        if let Some(n) = tabs_key(selected, 3, k, false) {
            selected = n;
        }
        selected
    };
    assert_eq!(press(Key::ArrowRight), 1, "ArrowRight selects the next tab");
    assert_eq!(press(Key::ArrowRight), 2);
    assert_eq!(press(Key::ArrowRight), 0, "ArrowRight wraps from the last to the first");
    assert_eq!(press(Key::ArrowLeft), 2, "ArrowLeft wraps from the first to the last");
}

#[test]
fn selection_group_with_unmatched_value_starts_at_an_end() {
    // The bound value matches no entry: forward selects the first, backward the last.
    assert_eq!(select_key(None, 3, Key::ArrowDown, false), Some(0));
    assert_eq!(select_key(None, 3, Key::ArrowUp, false), Some(2));
    // Auto-repeats, other keys and empty groups select nothing.
    assert_eq!(select_key(Some(1), 3, Key::ArrowDown, true), None);
    assert_eq!(select_key(Some(1), 3, Key::Enter, false), None);
    assert_eq!(select_key(None, 0, Key::ArrowDown, false), None);
    // An out-of-range tab index steps from the last tab.
    assert_eq!(tabs_key(7, 3, Key::ArrowRight, false), Some(0));
    assert_eq!(wrap_step(Some(0), 5, false), 4);
}

#[test]
fn toggle_group_space_should_toggle_focused() {
    let mut value: HashSet<i32> = HashSet::new();
    let segs = [0, 1, 2];
    let mut focused = 0;
    let mut press = |value: &mut HashSet<i32>, k: Key| {
        let out = toggle_group_key(focused, segs.len(), k, false, false);
        focused = out.focused;
        if let Some(i) = out.toggle {
            toggle(value, segs[i]);
        }
    };
    // Move the roving focus to the second segment, then Space toggles *it* (not the first).
    press(&mut value, Key::ArrowRight);
    press(&mut value, Key::Space);
    assert!(value.contains(&1), "Space toggles the focused (second) segment into the set");
    assert!(!value.contains(&0), "the unfocused first segment is untouched");
    // Space again toggles it back out.
    press(&mut value, Key::Space);
    assert!(!value.contains(&1), "Space again toggles the focused segment out");
}

#[test]
fn roving_focus_wraps_both_ways() {
    assert_eq!(roving_key(2, 3, Key::ArrowRight, false).focused, 0);
    assert_eq!(roving_key(0, 3, Key::ArrowLeft, false).focused, 2);
    assert!(roving_key(1, 3, Key::Enter, true).toggle.is_none());
    assert_eq!(roving_key(1, 3, Key::NumpadEnter, false).toggle, Some(1));
}

#[test]
fn step_visible_clamps_and_jumps_to_first() {
    let visible = vec![1, 4, 6];
    assert_eq!(step_visible(&visible, 4, true), 6);
    assert_eq!(step_visible(&visible, 6, true), 6, "clamped at the last visible option");
    assert_eq!(step_visible(&visible, 1, false), 1, "clamped at the first visible option");
    assert_eq!(step_visible(&visible, 3, true), 1, "a hidden highlight jumps to the first visible");
    assert_eq!(step_visible(&vec![], 3, true), 3, "nothing visible: the highlight stays");
}

#[test]
fn radio_click_should_select_option() {
    let opts = group_3();
    let mut value = 2;
    click_group(&opts, &mut value, 0, false);
    assert_eq!(value, 0, "clicking the first option selects it");
}

#[test]
fn radio_disabled_should_not_select() {
    let opts = group_3();
    let mut value = 1;
    press_group_in(&opts, &mut value, Key::ArrowDown, true);
    click_group(&opts, &mut value, 0, true);
    assert_eq!(value, 1, "a disabled group is inert");
}

#[test]
fn segmented_click_should_select() {
    let segs = group_3();
    let mut value = 2;
    click_group(&segs, &mut value, 0, false);
    assert_eq!(value, 0, "clicking the first segment selects it");
}

#[test]
fn segmented_disabled_should_not_select() {
    let segs = group_3();
    let mut value = 1;
    press_group_in(&segs, &mut value, Key::ArrowRight, true);
    click_group(&segs, &mut value, 0, true);
    assert_eq!(value, 1, "a disabled control is inert");
}

#[test]
fn disabled_toggle_group_is_inert() {
    let out = toggle_group_key(1, 3, Key::Space, false, true);
    assert_eq!((out.focused, out.toggle), (1, None));
    let out = toggle_group_key(1, 3, Key::ArrowRight, false, true);
    assert_eq!((out.focused, out.toggle), (1, None));
    let out = toggle_group_click(2, 1, true);
    assert_eq!((out.focused, out.toggle), (1, None));
    let out = toggle_group_click(2, 1, false);
    assert_eq!((out.focused, out.toggle), (2, Some(2)), "a click toggles the segment and focuses it");
    let out = toggle_group_key(1, 3, Key::Space, false, false);
    assert_eq!((out.focused, out.toggle), (1, Some(1)));
}

#[test]
fn toggle_takes_owned_values() {
    let mut set: HashSet<String> = HashSet::new();
    toggle(&mut set, "a".to_string());
    toggle(&mut set, "b".to_string());
    toggle(&mut set, "a".to_string());
    assert_eq!(set.len(), 1);
    assert!(set.contains("b"));
}
