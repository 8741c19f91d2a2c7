use kagari_widgets::control::ColorRole;
use kagari_widgets::button::{Press, Variant, is_activation, roles, toggle_roles, toggled_on_press};
use kagari_widgets::control::{
    ControlSize, check_glyph_px, checkbox_box_px, label_px, progress_dims, radio_dot_px, radio_mark_px,
    row_height, spinner_dims, switch_dims,
};
use kagari_widgets::keys::{Key, activates};
use kagari_widgets::number::{CommitAction, NumberKey, blur_commits, commit_action, number_key};
use kagari_widgets::slider::{SliderMove, slider_move};
use kagari_widgets::tooltip::{
    DEFAULT_DELAY_NANOS, HoverTick, TooltipEvent, TooltipState, hover_tick, starts_timer, tooltip_step,
};

const MS: u128 = 1_000_000;

#[test]
fn button_should_not_activate_on_key_repeat() {
    let repeat = Press::Key { key: Key::Enter, repeat: true };
    assert!(!is_activation(repeat, false), "an auto-repeat key event does not activate the button");
}

#[test]
fn button_should_activate_on_space_and_enter() {
    assert!(is_activation(Press::Key { key: Key::Space, repeat: false }, false));
    assert!(is_activation(Press::Key { key: Key::Enter, repeat: false }, false));
    assert!(is_activation(Press::Click, false));
    assert!(!is_activation(Press::Key { key: Key::Escape, repeat: false }, false));
}

#[test]
fn button_disabled_should_not_fire_click() {
    assert!(!is_activation(Press::Click, true), "a disabled button is inert");
    assert!(!is_activation(Press::Key { key: Key::Enter, repeat: false }, true));
}

#[test]
fn button_toggle_should_flip_signal() {
    let enter = Press::Key { key: Key::Enter, repeat: false };
    let pressed = toggled_on_press(false, enter, false);
    assert!(pressed, "activation flips the toggle signal on");
    assert!(!toggled_on_press(pressed, enter, false), "activation flips it back off");
}

#[test]
fn button_roles_follow_variant_and_state() {
    assert_eq!(roles(Variant::Primary, false), (ColorRole::Accent, ColorRole::AccentFg));
    assert_eq!(roles(Variant::Subtle, false), (ColorRole::Surface, ColorRole::Text));
    assert_eq!(roles(Variant::Danger, false), (ColorRole::Danger, ColorRole::AccentFg));
    assert_eq!(roles(Variant::Danger, true), (ColorRole::SurfaceRaised, ColorRole::TextMuted));
    assert_eq!(toggle_roles(Variant::Primary, false).0, ColorRole::Surface, "unpressed toggle paints a Surface background");
    assert_eq!(toggle_roles(Variant::Primary, true).0, ColorRole::Accent, "pressed toggle paints an Accent background");
}

#[test]
fn checkbox_should_toggle_signal_on_click() {
    let v = toggled_on_press(false, Press::Click, false);
    assert!(v, "a click checks the box");
    assert!(!toggled_on_press(v, Press::Click, false), "a second click unchecks it");
}

#[test]
fn checkbox_should_toggle_on_space() {
    assert!(toggled_on_press(false, Press::Key { key: Key::Space, repeat: false }, false), "Space checks the box");
}

#[test]
fn checkbox_disabled_should_not_toggle() {
    let v = toggled_on_press(false, Press::Click, true);
    let v = toggled_on_press(v, Press::Key { key: Key::Space, repeat: false }, true);
    assert!(!v, "a disabled checkbox is inert");
}

#[test]
fn panel_keyboard_should_toggle_collapsed() {
    let collapsed = toggled_on_press(false, Press::Key { key: Key::Space, repeat: false }, false);
    assert!(collapsed, "Space on the focused header collapses");
    let collapsed = toggled_on_press(collapsed, Press::Key { key: Key::Enter, repeat: false }, false);
    assert!(!collapsed, "Enter toggles it back");
    assert!(activates(Key::NumpadEnter, false));
    assert!(!activates(Key::NumpadEnter, true));
}

#[test]
fn control_metrics_match_the_scale() {
    assert_eq!(ControlSize::default(), ControlSize::Md);
    assert_eq!(label_px(ControlSize::Sm), 14);
    assert_eq!(label_px(ControlSize::Lg), 18);
    assert_eq!(checkbox_box_px(ControlSize::Md), 18);
    assert_eq!(check_glyph_px(ControlSize::Md), 14);
    assert_eq!(switch_dims(ControlSize::Md), (34, 20, 16));
    assert_eq!(radio_mark_px(ControlSize::Lg), 22);
    assert_eq!(radio_dot_px(ControlSize::Lg), 12);
    assert_eq!(progress_dims(ControlSize::Sm), (96, 4));
    assert_eq!(spinner_dims(ControlSize::Lg), (80, 8, 28));
    assert_eq!(row_height(ControlSize::Lg), 34);
}

#[test]
fn radio_dot_should_be_centered_in_the_mark() {
    for size in [ControlSize::Sm, ControlSize::Md, ControlSize::Lg] {
        assert_eq!((radio_mark_px(size) - radio_dot_px(size)) % 2, 0);
    }
}

/// A tooltip driven by frame ticks, with the ticker and redraw sources available.
struct HoverTooltip {
    state: TooltipState,
    delay: u128,
}

impl HoverTooltip {
    fn new(delay: u128) -> Self {
        HoverTooltip { state: TooltipState { hovering: false, timer: None, open: false }, delay }
    }

    fn send(&mut self, event: TooltipEvent) {
        self.state = tooltip_step(self.state, event, self.delay, true);
    }
}

#[test]
fn tooltip_should_show_after_hover_delay() {
    let mut t = HoverTooltip::new(500 * MS);
    assert!(!t.state.open, "hidden before any hover");
    t.send(TooltipEvent::Enter);
    t.send(TooltipEvent::Tick(200 * MS));
    assert!(!t.state.open, "hidden before the delay elapses");
    // Past the delay (200 + 400 = 600 >= 500): the bubble shows.
    t.send(TooltipEvent::Tick(400 * MS));
    assert!(t.state.open, "shown after the hover delay");
}

#[test]
fn tooltip_should_hide_on_leave() {
    let mut t = HoverTooltip::new(100 * MS);
    t.send(TooltipEvent::Enter);
    t.send(TooltipEvent::Tick(150 * MS));
    assert!(t.state.open, "shown while hovering");
    t.send(TooltipEvent::Leave);
    assert!(!t.state.open, "hidden after the pointer leaves");
}

#[test]
fn tooltip_should_cancel_delay_on_removal() {
    let mut t = HoverTooltip::new(500 * MS);
    t.send(TooltipEvent::Enter);
    t.send(TooltipEvent::Tick(100 * MS));
    assert!(t.state.timer.is_some(), "an active source is held while the delay runs");
    t.send(TooltipEvent::Removed);
    t.send(TooltipEvent::Tick(50 * MS));
    assert!(t.state.timer.is_none(), "the active source is released when the tooltip is removed mid-delay");
    assert!(!t.state.open);
}

#[test]
fn tooltip_timer_steps() {
    assert_eq!(hover_tick(false, 100 * MS, 50 * MS, DEFAULT_DELAY_NANOS), HoverTick::Cancel);
    assert!(!starts_timer(true), "a pending timer is not registered twice");
    assert!(starts_timer(false));
    assert_eq!(hover_tick(true, 0, 500 * MS, DEFAULT_DELAY_NANOS), HoverTick::Show, "exactly the delay shows");
    assert_eq!(hover_tick(true, 0, 200 * MS, DEFAULT_DELAY_NANOS), HoverTick::Wait(200 * MS));
}

#[test]
fn tooltip_reenter_keeps_the_pending_timer() {
    let mut t = HoverTooltip::new(500 * MS);
    t.send(TooltipEvent::Enter);
    t.send(TooltipEvent::Tick(300 * MS));
    t.send(TooltipEvent::Enter);
    assert_eq!(t.state.timer, Some(300 * MS), "a re-enter does not restart a pending timer");
    t.send(TooltipEvent::Tick(200 * MS));
    assert!(t.state.open);
    let untimed = tooltip_step(TooltipState { hovering: false, timer: None, open: false }, TooltipEvent::Enter, 500 * MS, false);
    assert_eq!(untimed.timer, None, "without frame timing no timer starts");
}

use kagari_widgets::field::{FieldLayout, disabled_text, field_message, label, shows_error_border};

#[test]
fn field_error_should_show_message() {
    let help = Some("Your name".to_string());
    // No error → the help text, muted; no Danger border.
    assert_eq!(field_message(&help, true, &None), Some(("Your name".to_string(), ColorRole::TextMuted)));
    assert!(!shows_error_border(true, false), "no error → no Danger border on the control slot");
    // An active error replaces the help with the message in Danger.
    let err = Some("Required".to_string());
    assert_eq!(field_message(&help, true, &err), Some(("Required".to_string(), ColorRole::Danger)));
    assert!(shows_error_border(true, true), "an active error tints the control slot with a Danger border");
    // Neither help nor an error binding: no message line at all.
    assert_eq!(field_message(&None, false, &None), None);
    assert_eq!(field_message(&None, true, &None), Some((String::new(), ColorRole::TextMuted)));
    assert_eq!(FieldLayout::default(), FieldLayout::Row);
}

#[test]
fn label_builder_sets_each_property() {
    let l = label("Hello, kagari");
    assert_eq!(l.content, "Hello, kagari");
    assert_eq!(l.color, ColorRole::Text);
    assert_eq!(l.size, ControlSize::Md);
    assert!(!l.wrap);
    let l = l.muted().size(ControlSize::Lg).wrap(true);
    assert_eq!((l.color, l.size, l.wrap), (ColorRole::TextMuted, ControlSize::Lg, true));
    assert_eq!(l.color(ColorRole::Danger).color, ColorRole::Danger);
}

#[test]
fn slider_keys_map_to_moves() {
    assert_eq!(slider_move(Key::ArrowUp), Some(SliderMove::StepUp));
    assert_eq!(slider_move(Key::ArrowRight), Some(SliderMove::StepUp));
    assert_eq!(slider_move(Key::ArrowDown), Some(SliderMove::StepDown));
    assert_eq!(slider_move(Key::ArrowLeft), Some(SliderMove::StepDown));
    assert_eq!(slider_move(Key::PageUp), Some(SliderMove::PageUp));
    assert_eq!(slider_move(Key::PageDown), Some(SliderMove::PageDown));
    assert_eq!(slider_move(Key::Home), Some(SliderMove::ToStart));
    assert_eq!(slider_move(Key::End), Some(SliderMove::ToEnd));
    assert_eq!(slider_move(Key::Enter), None);
    assert_eq!(slider_move(Key::Other), None);
}

#[test]
fn number_input_keys_step_and_commit_once_per_press() {
    assert_eq!(number_key(Key::ArrowUp, false), Some(NumberKey::StepUp));
    assert_eq!(number_key(Key::ArrowDown, false), Some(NumberKey::StepDown));
    assert_eq!(number_key(Key::Enter, false), Some(NumberKey::Commit));
    assert_eq!(number_key(Key::NumpadEnter, false), Some(NumberKey::Commit));
    assert_eq!(number_key(Key::ArrowUp, true), None, "auto-repeat does not step");
    assert_eq!(number_key(Key::ArrowLeft, false), None);
    assert_eq!(number_key(Key::Space, false), None);
}

#[test]
fn number_input_commit_decision() {
    assert_eq!(commit_action(true, true), CommitAction::Keep, "an unedited display is never re-parsed");
    assert_eq!(commit_action(true, false), CommitAction::Keep);
    assert_eq!(commit_action(false, true), CommitAction::Apply);
    assert_eq!(commit_action(false, false), CommitAction::Revert);
    assert!(blur_commits(true, false));
    assert!(!blur_commits(false, true));
    assert!(!blur_commits(true, true));
    assert!(!blur_commits(false, false));
}

#[test]
fn switch_should_toggle_signal_on_click() {
    let value = toggled_on_press(false, Press::Click, false);
    assert!(value, "a click turns the switch on");
}

#[test]
fn button_should_fire_on_click() {
    let mut fired = 0;
    if is_activation(Press::Click, false) {
        fired += 1;
    }
    assert_eq!(fired, 1, "a click fires on_click once");
}

#[test]
fn disabled_text_input_shows_value_or_placeholder() {
    let ph = Some("Name".to_string());
    assert_eq!(disabled_text(&"abc".to_string(), &ph), "abc");
    assert_eq!(disabled_text(&String::new(), &ph), "Name", "an empty value shows the placeholder");
    assert_eq!(disabled_text(&String::new(), &None), "");
}
