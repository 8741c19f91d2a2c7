use kagari_widgets::keys::Key;
use kagari_widgets::menu::{MenuEntry, first_selectable, menu_click, menu_key, step_selectable};

/// A menu entry whose action is the number it records when chosen.
type Entry = MenuEntry<u32>;

fn item(label: &str) -> Entry {
    item_with(label, 0)
}

fn item_with(label: &str, action: u32) -> Entry {
    MenuEntry::Item { label: label.to_string(), action }
}

/// Runs the chosen entry's action: the number it records.
fn run(entries: &[Entry], i: usize) -> u32 {
    match &entries[i] {
        MenuEntry::Item { action, .. } => *action,
        MenuEntry::Separator => 0,
    }
}

#[test]
fn menu_should_open_and_select() {
    let entries = vec![item("A"), item("B")];
    let hl = first_selectable(&entries);
    let out = menu_key(&entries, hl, Key::Enter, false);
    assert_eq!(out.run, Some(0), "Enter selects the first item (A)");
    assert!(out.close, "selecting an item closes the menu");
}

#[test]
fn menu_arrow_should_navigate_items() {
    let entries = vec![item("A"), MenuEntry::Separator, item("B")];
    let mut hl = first_selectable(&entries);
    hl = menu_key(&entries, hl, Key::ArrowDown, false).highlight;
    let out = menu_key(&entries, hl, Key::Enter, false);
    assert_eq!(out.run, Some(2), "ArrowDown skips the separator to B; Enter selects it");
}

#[test]
fn menu_esc_should_dismiss() {
    let entries = vec![item("A")];
    let out = menu_key(&entries, 0, Key::Escape, false);
    assert!(out.close, "Esc dismisses the menu");
    assert!(out.run.is_none());
}

#[test]
fn step_selectable_wraps_and_skips_separators() {
    let entries = vec![MenuEntry::Separator, item("A"), MenuEntry::Separator, item("B"), MenuEntry::Separator];
    assert_eq!(first_selectable(&entries), 1);
    assert_eq!(step_selectable(&entries, 3, true), 1, "down from the last item wraps to the first");
    assert_eq!(step_selectable(&entries, 1, false), 3, "up from the first item wraps to the last");
    let only = vec![MenuEntry::Separator, item("A")];
    assert_eq!(step_selectable(&only, 1, true), 1, "a lone item stays highlighted");
    let none: Vec<Entry> = vec![MenuEntry::Separator, MenuEntry::Separator];
    assert_eq!(first_selectable(&none), 0);
    assert_eq!(step_selectable(&none, 1, true), 1, "no item: the highlight stays");
    assert_eq!(step_selectable(&Vec::<Entry>::new(), 0, true), 0);
    // Enter on a separator or an auto-repeat does nothing.
    assert!(menu_key(&none, 0, Key::Enter, false).run.is_none());
    assert_eq!(menu_key(&entries, 1, Key::ArrowDown, true).highlight, 1);
}

#[test]
fn menu_click_should_select_item() {
    let entries = vec![item_with("A", 1), item_with("B", 2)];
    let mut picked = 0u32;
    let mut open = true;
    let out = menu_click(&entries, first_selectable(&entries), 1);
    if let Some(i) = out.run {
        picked = run(&entries, i);
    }
    if out.close {
        open = false;
    }
    assert_eq!(picked, 2, "clicking item B runs its on_select");
    assert!(!open, "clicking an item closes the menu");
}

#[test]
fn menu_click_on_a_separator_does_nothing() {
    let entries = vec![item("A"), MenuEntry::Separator, item("B")];
    let out = menu_click(&entries, 0, 1);
    assert_eq!(out.run, None);
    assert!(!out.close);
    assert_eq!(out.highlight, 0);
}

#[test]
fn stale_menu_highlight_steps_from_its_remainder() {
    let entries = vec![item("A"), MenuEntry::Separator, item("B")];
    // A highlight of 7 over 3 entries steps as 7 % 3 = 1: down to B, up to A.
    assert_eq!(step_selectable(&entries, 7, true), 2);
    assert_eq!(step_selectable(&entries, 7, false), 0);
    let out = menu_key(&entries, 7, Key::Enter, false);
    assert!(out.run.is_none() && !out.close, "Enter on no row runs nothing");
    let none: Vec<Entry> = vec![MenuEntry::Separator];
    assert_eq!(step_selectable(&none, 5, true), 5, "with no item the stale highlight stays");
    assert_eq!(run(&vec![item_with("A", 9)], 0), 9);
}
