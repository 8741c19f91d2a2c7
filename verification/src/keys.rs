use vstd::prelude::*;

verus! {

/// The keys the widgets react to. Any other key is `Other`.
#[derive(Clone, Copy, PartialEq, Eq, Structural, Debug)]
pub enum Key {
    ArrowUp,
    ArrowDown,
    ArrowLeft,
    ArrowRight,
    Enter,
    NumpadEnter,
    Space,
    Escape,
    Home,
    End,
    PageUp,
    PageDown,
    Other,
}

/// A key that activates a focused control (button, checkbox, switch, collapsible header).
pub open spec fn is_activation_key(k: Key) -> bool {
    k == Key::Space || k == Key::Enter || k == Key::NumpadEnter
}

/// Whether a key press activates a focused control: Space, Enter or NumpadEnter, and never an OS
/// auto-repeat of a held key.
pub fn activates(key: Key, repeat: bool) -> (r: bool)
    ensures
        r == (!repeat && is_activation_key(key)),
{
    !repeat && (key == Key::Space || key == Key::Enter || key == Key::NumpadEnter)
}

} // verus!
