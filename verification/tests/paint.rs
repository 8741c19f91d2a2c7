use std::collections::HashSet;

use kagari_widgets::button::{Variant, roles, toggle_roles};
use kagari_widgets::control::{ColorRole, ControlSize};
use kagari_widgets::grid::GridSelection;
use kagari_widgets::paint::{
    CheckPaint, RadioPaint, RowPaint, SegmentPaint, SliderPaint, SwitchPaint, TAB_UNDERLINE_PX, TabPaint, cell_fill,
    check_paint, focus_ring, knob_offset, label_role, radio_paint, row_paint, run_tint, segment_paint,
    switch_paint, tab_paint,
};
use kagari_widgets::table::Selection;

/// A focus handle's `is_focus_visible`: focused, and focus arrived by keyboard.
fn focus_visible(focused: bool, keyboard: bool) -> bool {
    focused && keyboard
}

#[test]
fn checkbox_paints_its_state() {
    assert_eq!(
        check_paint(true, false),
        CheckPaint { fill: ColorRole::Accent, border: ColorRole::Accent, mark: ColorRole::AccentFg, mark_scale: 1 }
    );
    assert_eq!(
        check_paint(false, false),
        CheckPaint { fill: ColorRole::Surface, border: ColorRole::Border, mark: ColorRole::AccentFg, mark_scale: 0 }
    );
    let off = check_paint(false, true);
    assert_eq!(off.mark, off.fill, "a disabled unchecked check blends into its box");
    assert_eq!(check_paint(true, true).mark, ColorRole::TextMuted);
}

#[test]
fn radio_and_switch_paint_their_state() {
    assert_eq!(radio_paint(true, false), RadioPaint { ring: ColorRole::Accent, dot: ColorRole::Accent });
    assert_eq!(radio_paint(false, false), RadioPaint { ring: ColorRole::Border, dot: ColorRole::Surface });
    assert_eq!(radio_paint(true, true), RadioPaint { ring: ColorRole::Border, dot: ColorRole::TextMuted });
    assert_eq!(switch_paint(true, false), SwitchPaint { track: ColorRole::Accent, knob: ColorRole::AccentFg });
    assert_eq!(
        switch_paint(false, false).track,
        ColorRole::BorderStrong,
        "the off track stays visible against the page"
    );
    assert_eq!(switch_paint(true, true), SwitchPaint { track: ColorRole::Border, knob: ColorRole::Surface });
}

#[test]
fn switch_knob_slides_between_insets() {
    assert_eq!(knob_offset(ControlSize::Md, false), 2);
    assert_eq!(knob_offset(ControlSize::Md, true), 34 - 16 - 2);
    assert_eq!(knob_offset(ControlSize::Sm, true), 14);
    assert_eq!(knob_offset(ControlSize::Lg, true), 20);
}

#[test]
fn tabs_and_segments_paint_selection_and_focus() {
    assert_eq!(tab_paint(true, false), TabPaint { label: ColorRole::Text, underline: ColorRole::Accent });
    assert_eq!(tab_paint(true, true).underline, ColorRole::FocusRing);
    assert_eq!(tab_paint(false, true), TabPaint { label: ColorRole::TextMuted, underline: ColorRole::Border });
    assert_eq!(
        segment_paint(true, false, true),
        SegmentPaint { fill: ColorRole::Accent, border: ColorRole::FocusRing, content: ColorRole::AccentFg }
    );
    assert_eq!(
        segment_paint(false, false, false),
        SegmentPaint { fill: ColorRole::SurfaceRaised, border: ColorRole::Border, content: ColorRole::Text }
    );
    assert_eq!(
        segment_paint(true, true, true),
        SegmentPaint { fill: ColorRole::Accent, border: ColorRole::Border, content: ColorRole::TextMuted }
    );
    assert_eq!(label_role(true), ColorRole::TextMuted);
    assert_eq!(label_role(false), ColorRole::Text);
    assert_eq!(focus_ring(true, true), Some(ColorRole::FocusRing));
    assert_eq!(focus_ring(true, false), None);
    assert_eq!(focus_ring(false, true), None);
}

#[test]
fn button_primary_should_use_accent_bg() {
    let (bg, _) = roles(Variant::Primary, false);
    assert_eq!(bg, ColorRole::Accent, "the primary button paints an Accent background");
}

#[test]
fn button_toggle_pressed_should_change_bg_role() {
    // `button("Bold").toggle(pressed)`: the default variant is Primary.
    let mut pressed = false;
    assert_eq!(toggle_roles(Variant::Primary, pressed).0, ColorRole::Surface, "unpressed toggle paints a Surface background");
    pressed = true;
    assert_eq!(toggle_roles(Variant::Primary, pressed).0, ColorRole::Accent, "pressed toggle paints the Accent role");
}

#[test]
fn button_focused_should_paint_focus_ring() {
    assert_eq!(focus_ring(focus_visible(false, false), true), None, "an unfocused button paints no focus ring");
    assert_eq!(
        focus_ring(focus_visible(true, false), true),
        None,
        "a focused-but-not-focus-visible button paints no ring"
    );
    assert_eq!(
        focus_ring(focus_visible(true, true), true),
        Some(ColorRole::FocusRing),
        "a focus-visible button paints a FocusRing border"
    );
}

#[test]
fn button_disabled_icon_should_use_muted_tint() {
    let (_, fg) = roles(Variant::Primary, true);
    assert_eq!(fg, ColorRole::TextMuted, "a disabled button's icon uses the muted foreground role");
}

#[test]
fn checkbox_check_size_should_reflect_state() {
    let on = check_paint(true, false);
    assert_eq!(on.mark, ColorRole::AccentFg, "the check tint is a constant AccentFg");
    assert_eq!(on.mark_scale, 1, "a checked box shows the full-size check (scale 1)");
    let off = check_paint(false, false);
    assert_eq!(off.mark, ColorRole::AccentFg);
    assert_eq!(off.mark_scale, 0, "an unchecked box's check is scaled to ~0 (hidden)");
}

#[test]
fn checkbox_external_write_should_update_check() {
    let mut value = false;
    assert_ne!(check_paint(value, false).fill, ColorRole::Accent, "frame 1 (false): the box is not accent-filled");
    value = true;
    assert_eq!(check_paint(value, false).fill, ColorRole::Accent, "an external write to true fills the box Accent");
}

#[test]
fn checkbox_focused_should_paint_focus_ring() {
    assert_eq!(focus_ring(focus_visible(false, false), true), None, "an unfocused checkbox paints no focus ring");
    assert_eq!(
        focus_ring(focus_visible(true, false), true),
        None,
        "a focused-but-not-focus-visible checkbox paints no ring"
    );
    assert_eq!(
        focus_ring(focus_visible(true, true), true),
        Some(ColorRole::FocusRing),
        "a focus-visible checkbox paints a FocusRing border"
    );
}

#[test]
fn radio_selected_option_should_paint_one_accent_dot() {
    let value = 1;
    let dots = [0, 1, 2].iter().filter(|&&opt| radio_paint(opt == value, false).dot == ColorRole::Accent).count();
    assert_eq!(dots, 1, "exactly one option shows an Accent dot");
}

#[test]
fn radio_focused_should_paint_focus_ring_on_selection() {
    let value = 1;
    let rings = |focused: bool, keyboard: bool| -> Vec<Option<ColorRole>> {
        [0, 1, 2].iter().map(|&opt| focus_ring(focus_visible(focused, keyboard), opt == value)).collect()
    };
    assert!(rings(false, false).iter().all(|r| r.is_none()), "an unfocused group paints no focus ring");
    assert!(rings(true, false).iter().all(|r| r.is_none()), "a focused-but-not-focus-visible group paints no ring");
    assert_eq!(
        rings(true, true),
        vec![None, Some(ColorRole::FocusRing), None],
        "a focus-visible group rings its selected option"
    );
}

#[test]
fn segmented_should_select_exclusive() {
    let value = 1;
    let fills = [0, 1, 2].iter().filter(|&&seg| segment_paint(seg == value, false, false).fill == ColorRole::Accent).count();
    assert_eq!(fills, 1, "exactly one segment shows an Accent fill");
}

#[test]
fn toggle_group_should_allow_multiple() {
    let set: HashSet<i32> = [0, 2].into_iter().collect();
    let fills = [0, 1, 2]
        .iter()
        .filter(|seg| segment_paint(set.contains(seg), false, false).fill == ColorRole::Accent)
        .count();
    assert_eq!(fills, 2, "two selected segments show two Accent fills");
}

#[test]
fn switch_on_should_paint_accent_track() {
    assert_eq!(switch_paint(true, false).track, ColorRole::Accent, "an on switch paints an Accent track");
}

#[test]
fn switch_off_should_paint_a_visible_track() {
    let off = switch_paint(false, false);
    assert_eq!(off.track, ColorRole::BorderStrong, "an off switch paints a visible (BorderStrong) track");
    assert_ne!(off.track, ColorRole::Surface, "the off track color is distinct from the page Surface");
}

#[test]
fn switch_knob_should_shift_when_on() {
    assert_eq!(switch_paint(true, false).knob, ColorRole::AccentFg, "the knob paints an AccentFg quad");
    assert_eq!(switch_paint(false, false).knob, ColorRole::AccentFg, "the knob paints an AccentFg quad");
    assert!(
        knob_offset(ControlSize::Md, true) > knob_offset(ControlSize::Md, false),
        "the on knob sits right of the off knob"
    );
}

#[test]
fn tabs_active_tab_should_underline() {
    let selected = 1;
    let bars: Vec<TabPaint> = (0..3).map(|i| tab_paint(i == selected, false)).collect();
    let accent = bars.iter().filter(|p| p.underline == ColorRole::Accent).count();
    assert_eq!(accent, 1, "exactly one tab shows an Accent underline (the active one)");
    assert_eq!(TAB_UNDERLINE_PX, 2, "the underline is 2px tall (h_0p5 resolves to S0p5=2)");
    assert!(bars.iter().enumerate().all(|(i, p)| i == selected || p.underline == ColorRole::Border));
    assert_ne!(
        ColorRole::Border,
        ColorRole::Surface,
        "Border must differ from Surface for the baseline to be visible on light"
    );
}

#[test]
fn grid_view_selected_should_highlight() {
    let selection = GridSelection::single(2);
    assert!(
        (0..10).any(|i| cell_fill(selection.is_selected(i)) == ColorRole::Accent),
        "the selected cell paints an Accent background"
    );
    assert_eq!((0..10).filter(|&i| cell_fill(selection.is_selected(i)) == ColorRole::Accent).count(), 1);
}

#[test]
fn table_selected_row_should_highlight() {
    let selection = Selection::single(1);
    assert!(
        (0..100).any(|i| cell_fill(selection.is_selected(i)) == ColorRole::Accent),
        "the selected row paints an Accent background"
    );
    assert_eq!(cell_fill(Selection::none().is_selected(1)), ColorRole::Surface);
}

#[test]
fn popup_rows_paint_the_highlight() {
    assert_eq!(row_paint(true), RowPaint { fill: ColorRole::Accent, text: ColorRole::AccentFg });
    assert_eq!(row_paint(false), RowPaint { fill: ColorRole::SurfaceRaised, text: ColorRole::Text });
    assert_eq!(run_tint(true, true), ColorRole::AccentFg);
    assert_eq!(run_tint(true, false), ColorRole::AccentFg);
    assert_eq!(run_tint(false, true), ColorRole::Accent);
    assert_eq!(run_tint(false, false), ColorRole::Text);
}

#[test]
fn slider_paints_its_track_and_thumb() {
    assert_eq!(
        kagari_widgets::paint::slider_paint(false),
        SliderPaint { filled: ColorRole::Accent, rest: ColorRole::Border, thumb: ColorRole::AccentFg }
    );
    assert_eq!(
        kagari_widgets::paint::slider_paint(true),
        SliderPaint { filled: ColorRole::BorderStrong, rest: ColorRole::Border, thumb: ColorRole::Surface }
    );
}
