use kagari_widgets::button::{Press, is_activation, toggled_on_press};
use kagari_widgets::keys::Key;
use kagari_widgets::panel::{HeaderPart, action_stops, body_shown, caret, panel_toggles};

/// A collapsible panel's state after a press on `part` of its header.
fn press_on(collapsed: bool, part: HeaderPart, press: Press) -> bool {
    if panel_toggles(part, press) { !collapsed } else { collapsed }
}

#[test]
fn panel_should_collapse_body() {
    let mut collapsed = false;
    assert!(body_shown(Some(collapsed)), "expanded: the body is mounted");
    collapsed = true;
    assert!(!body_shown(Some(collapsed)), "collapsed: the body is unmounted");
    collapsed = false;
    assert!(body_shown(Some(collapsed)), "re-expanded: the body mounts again");
}

#[test]
fn panel_non_collapsible_should_always_show_body() {
    assert!(body_shown(None), "a non-collapsible panel always shows its body");
}

#[test]
fn panel_caret_click_should_toggle_collapsed() {
    let collapsed = press_on(false, HeaderPart::Header, Press::Click);
    assert!(collapsed, "clicking the caret collapses");
    let collapsed = press_on(collapsed, HeaderPart::Header, Press::Click);
    assert!(!collapsed, "clicking it again expands");
}

#[test]
fn panel_title_click_should_toggle_collapsed() {
    let collapsed = press_on(false, HeaderPart::Header, Press::Click);
    assert!(collapsed, "clicking the title collapses");
    let collapsed = press_on(collapsed, HeaderPart::Header, Press::Click);
    assert!(!collapsed, "clicking it again expands");
}

#[test]
fn panel_action_click_should_not_toggle_collapsed() {
    assert!(is_activation(Press::Click, false), "the action still fires on click");
    assert!(
        !press_on(false, HeaderPart::Action, Press::Click),
        "the action's click stops propagation, so the header does not toggle"
    );
}

#[test]
fn panel_action_keyboard_should_not_toggle_collapsed() {
    let space = Press::Key { key: Key::Space, repeat: false };
    assert!(is_activation(space, false), "the action still activates on Space");
    assert!(!press_on(false, HeaderPart::Action, space), "Space on an action does not toggle the panel");
    assert!(action_stops(space));
    assert!(action_stops(Press::Key { key: Key::Enter, repeat: true }), "a repeat is stopped too");
    assert!(!action_stops(Press::Key { key: Key::ArrowDown, repeat: false }));
}

#[test]
fn panel_header_keys_toggle_once_per_press() {
    let space = Press::Key { key: Key::Space, repeat: false };
    assert!(press_on(false, HeaderPart::Header, space));
    assert!(!press_on(false, HeaderPart::Header, Press::Key { key: Key::Space, repeat: true }));
    assert!(!press_on(false, HeaderPart::Header, Press::Key { key: Key::Escape, repeat: false }));
    assert_eq!(toggled_on_press(false, space, false), press_on(false, HeaderPart::Header, space));
    assert_eq!(caret(true), '\u{25B8}');
    assert_eq!(caret(false), '\u{25BE}');
}
