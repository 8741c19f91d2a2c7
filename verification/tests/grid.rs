use kagari_widgets::grid::{GridKeyOutcome, GridSelection, grid_key, row_count, row_items};
use kagari_widgets::keys::Key;

/// 3 columns (a 320 px viewport of 100 px items).
const COLS: usize = 3;

/// Applies one key press to the grid selection; returns the item an activation fired for.
fn press(sel: &mut GridSelection, key: Key, repeat: bool, count: usize) -> Option<usize> {
    match grid_key(sel.selected(), key, repeat, count, COLS) {
        GridKeyOutcome::Select(i) => {
            *sel = GridSelection::single(i);
            None
        }
        GridKeyOutcome::Activate(i) => Some(i),
        GridKeyOutcome::Ignore => None,
    }
}

#[test]
fn grid_view_should_render_rows_from_count_and_cols() {
    assert_eq!(row_count(10, COLS), 4, "10 items / 3 cols → 4 rows");
    let (start, end) = row_items(0, COLS, 10);
    assert_eq!(end - start, 3, "a full row builds 3 cells");
}

#[test]
fn grid_view_partial_last_row_should_build_only_real_items() {
    let (start, end) = row_items(3, COLS, 10);
    assert_eq!((start, end), (9, 10));
    assert_eq!(end - start, 1, "the partial last row builds only its 1 real item, no phantom cells");
}

#[test]
fn grid_view_zero_count_should_render_nothing() {
    assert_eq!(row_count(0, COLS), 0, "a zero-item grid realizes no rows");
    assert_eq!(row_count(9, COLS), 3, "an exact multiple has no phantom trailing row");
}

#[test]
fn grid_view_arrow_right_down_should_navigate_2d() {
    let mut sel = GridSelection::none();
    press(&mut sel, Key::ArrowRight, false, 10); // no cursor → item 0
    assert_eq!(sel.selected(), Some(0));
    press(&mut sel, Key::ArrowRight, false, 10); // 0 → 1 (within row)
    assert_eq!(sel.selected(), Some(1));
    press(&mut sel, Key::ArrowDown, false, 10); // 1 → 4 (+cols)
    assert_eq!(sel.selected(), Some(4));
    press(&mut sel, Key::ArrowUp, false, 10); // 4 → 1 (-cols)
    assert_eq!(sel.selected(), Some(1));
    press(&mut sel, Key::ArrowLeft, false, 10); // 1 → 0 (within row)
    assert_eq!(sel.selected(), Some(0));
}

#[test]
fn grid_view_arrow_up_left_should_not_underflow() {
    let mut sel = GridSelection::single(0); // top-left corner
    press(&mut sel, Key::ArrowUp, false, 10); // no row above → stay
    assert_eq!(sel.selected(), Some(0));
    press(&mut sel, Key::ArrowLeft, false, 10); // col 0, no wrap → stay
    assert_eq!(sel.selected(), Some(0));
    // Right at the row edge does not wrap to the next row.
    let mut sel2 = GridSelection::single(2); // row 0, col 2 (last col)
    press(&mut sel2, Key::ArrowRight, false, 10);
    assert_eq!(sel2.selected(), Some(2), "Right at the last column stays put (no line-wrap)");
}

#[test]
fn grid_view_autorepeat_should_move_selection() {
    let mut sel = GridSelection::single(0);
    press(&mut sel, Key::ArrowRight, true, 10);
    assert_eq!(sel.selected(), Some(1), "auto-repeat (long-press) keeps moving the selection");
}

#[test]
fn grid_view_activate_enter_should_fire_on_activate_with_selected_index() {
    let mut sel = GridSelection::single(4);
    let fired = press(&mut sel, Key::Enter, false, 10);
    assert_eq!(fired, Some(4), "Enter fires on_activate with the selected item index");
    assert_eq!(sel.selected(), Some(4), "activation leaves the selection in place");
}

#[test]
fn grid_view_activate_space_should_fire_on_activate() {
    let mut sel = GridSelection::single(3);
    let fired = press(&mut sel, Key::Space, false, 10);
    assert_eq!(fired, Some(3), "Space also fires on_activate with the selected item index");
}

#[test]
fn grid_view_activate_autorepeat_should_not_refire() {
    let mut sel = GridSelection::single(1);
    let fired = press(&mut sel, Key::Enter, true, 10);
    assert_eq!(fired, None, "auto-repeat Enter does not fire activation (one-shot, RK-026)");
    let fired = press(&mut sel, Key::Enter, false, 10);
    assert_eq!(fired, Some(1), "a non-repeat Enter fires activation");
}

#[test]
fn grid_view_activate_with_no_selection_should_select_first_not_activate() {
    let mut sel = GridSelection::none();
    let fired = press(&mut sel, Key::Enter, false, 10);
    assert_eq!(sel.selected(), Some(0), "Enter with no selection selects the first item");
    assert_eq!(fired, None, "and does not fire activation (needs a selected cell)");
}

#[test]
fn grid_key_on_empty_grid_and_other_keys_is_ignored() {
    assert_eq!(grid_key(None, Key::ArrowDown, false, 0, COLS), GridKeyOutcome::Ignore);
    assert_eq!(grid_key(Some(1), Key::Escape, false, 10, COLS), GridKeyOutcome::Ignore);
    assert_eq!(grid_key(Some(7), Key::ArrowDown, false, 10, COLS), GridKeyOutcome::Ignore, "no cell below 7");
    assert_eq!(grid_key(Some(6), Key::ArrowDown, false, 10, COLS), GridKeyOutcome::Select(9));
    assert!(GridSelection::single(2).is_selected(2));
    assert!(!GridSelection::default().is_selected(0));
}

#[test]
fn grid_view_click_should_select() {
    // A click on a cell selects that cell's item index.
    let mut sel = GridSelection::none();
    assert_eq!(sel.selected(), None);
    sel = GridSelection::single(4); // row 1, col 1
    assert_eq!(sel.selected(), Some(4), "clicking a cell selects its item index");
    sel = GridSelection::single(0);
    assert_eq!(sel.selected(), Some(0), "clicking another cell moves the selection");
}

#[test]
fn grid_view_activate_without_callback_should_not_panic() {
    let mut sel = GridSelection::single(0);
    // Enter activates the selected cell; with no `on_activate` wired nothing fires.
    let fired = press(&mut sel, Key::Enter, false, 10);
    assert_eq!(fired, Some(0));
    assert_eq!(
        sel.selected(),
        Some(0),
        "Enter with no callback leaves the selection unchanged and does not panic"
    );
}
