use vstd::prelude::*;

use crate::button::{Press, is_activation, spec_is_activation};
use crate::keys::{Key, is_activation_key};

verus! {

/// Where a press lands in a collapsible panel's header: on the header itself (its caret, its title or
/// the space between), or on one of its action buttons.
#[derive(Clone, Copy, PartialEq, Eq, Structural, Debug)]
pub enum HeaderPart {
    Header,
    Action,
}

/// Whether an action's wrapper stops a press from bubbling to the header: every click, and every
/// Space / Enter / NumpadEnter key (repeats too), so activating an action never reaches the header.
pub open spec fn spec_action_stops(press: Press) -> bool {
    match press {
        Press::Click => true,
        Press::Key { key, .. } => is_activation_key(key),
    }
}

/// Executable form of [`spec_action_stops`].
pub fn action_stops(press: Press) -> (r: bool)
    ensures
        r == spec_action_stops(press),
{
    match press {
        Press::Click => true,
        Press::Key { key, .. } => key == Key::Space || key == Key::Enter || key == Key::NumpadEnter,
    }
}

/// Whether a press on `part` of a collapsible panel's header toggles the panel. The press reaches the
/// header's handler unless an action's wrapper stops it, and the header toggles on an activation
/// (a click, or a non-repeating Space / Enter / NumpadEnter). So the panel toggles exactly on an
/// activation of the header itself, and a press on an action never toggles it.
pub fn panel_toggles(part: HeaderPart, press: Press) -> (r: bool)
    ensures
        r == (part == HeaderPart::Header && spec_is_activation(press, false)),
{
    let reaches_header = match part {
        HeaderPart::Header => true,
        HeaderPart::Action => !action_stops(press),
    };
    reaches_header && is_activation(press, false)
}

/// Whether a panel's body is mounted: always for a panel that does not collapse (`None`), and for a
/// collapsible one only while expanded.
pub fn body_shown(collapsed: Option<bool>) -> (r: bool)
    ensures
        r == match collapsed {
            Some(c) => !c,
            None => true,
        },
{
    match collapsed {
        Some(c) => !c,
        None => true,
    }
}

/// The caret of a collapsible panel's header: a right-pointing triangle while collapsed, a down-pointing
/// one while expanded.
pub fn caret(collapsed: bool) -> (r: char)
    ensures
        r == if collapsed { '\u{25B8}' } else { '\u{25BE}' },
{
    if collapsed { '\u{25B8}' } else { '\u{25BE}' }
}

} // verus!
