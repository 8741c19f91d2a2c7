use vstd::prelude::*;

use crate::control::ColorRole;
use crate::keys::{Key, activates, is_activation_key};

verus! {

/// A button's visual variant.
#[derive(Clone, Copy, PartialEq, Eq, Structural, Debug)]
pub enum Variant {
    Primary,
    Subtle,
    Danger,
}

/// The `(background, foreground)` roles of a button: muted when disabled, otherwise by variant —
/// primary Accent / AccentFg, subtle (ghost) Surface / Text, danger Danger / AccentFg.
pub open spec fn spec_roles(variant: Variant, disabled: bool) -> (ColorRole, ColorRole) {
    if disabled {
        (ColorRole::SurfaceRaised, ColorRole::TextMuted)
    } else {
        match variant {
            Variant::Primary => (ColorRole::Accent, ColorRole::AccentFg),
            Variant::Subtle => (ColorRole::Surface, ColorRole::Text),
            Variant::Danger => (ColorRole::Danger, ColorRole::AccentFg),
        }
    }
}

/// The `(background, foreground)` roles for `variant`, or muted roles when `disabled`.
pub fn roles(variant: Variant, disabled: bool) -> (r: (ColorRole, ColorRole))
    ensures
        r == spec_roles(variant, disabled),
{
    if disabled {
        return (ColorRole::SurfaceRaised, ColorRole::TextMuted);
    }
    match variant {
        Variant::Primary => (ColorRole::Accent, ColorRole::AccentFg),
        Variant::Subtle => (ColorRole::Surface, ColorRole::Text),
        Variant::Danger => (ColorRole::Danger, ColorRole::AccentFg),
    }
}

/// The roles of an enabled toggle button: the variant's roles while pressed, a subtle Surface / Text
/// while released.
pub fn toggle_roles(variant: Variant, pressed: bool) -> (r: (ColorRole, ColorRole))
    ensures
        r == if pressed {
            spec_roles(variant, false)
        } else {
            (ColorRole::Surface, ColorRole::Text)
        },
{
    if pressed {
        roles(variant, false)
    } else {
        (ColorRole::Surface, ColorRole::Text)
    }
}

/// A pointer click or a key press on a control.
#[derive(Clone, Copy, PartialEq, Eq, Structural, Debug)]
pub enum Press {
    Click,
    Key { key: Key, repeat: bool },
}

/// Whether a press activates an enabled control: any click, or a non-repeating Space / Enter /
/// NumpadEnter. A disabled control is inert.
pub open spec fn spec_is_activation(press: Press, disabled: bool) -> bool {
    !disabled && match press {
        Press::Click => true,
        Press::Key { key, repeat } => !repeat && is_activation_key(key),
    }
}

/// Whether `press` activates a control that is `disabled` or not.
pub fn is_activation(press: Press, disabled: bool) -> (r: bool)
    ensures
        r == spec_is_activation(press, disabled),
{
    if disabled {
        return false;
    }
    match press {
        Press::Click => true,
        Press::Key { key, repeat } => activates(key, repeat),
    }
}

/// The state of a two-state control (checkbox, switch, toggle button, collapsible panel header) after a
/// press: flipped on activation, unchanged otherwise.
pub fn toggled_on_press(value: bool, press: Press, disabled: bool) -> (r: bool)
    ensures
        r == if spec_is_activation(press, disabled) {
            !value
        } else {
            value
        },
{
    if is_activation(press, disabled) {
        !value
    } else {
        value
    }
}

} // verus!
