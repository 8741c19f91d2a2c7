use vstd::prelude::*;

use crate::keys::Key;

verus! {

/// What a key press does in a focused number input.
#[derive(Clone, Copy, PartialEq, Eq, Structural, Debug)]
pub enum NumberKey {
    /// Step the value up by one step (after committing any pending edit).
    StepUp,
    /// Step the value down by one step (after committing any pending edit).
    StepDown,
    /// Commit the typed text.
    Commit,
}

/// The key map of a number input: ArrowUp / ArrowDown step, Enter / NumpadEnter commit; an OS
/// auto-repeat does nothing, so a held key steps once.
pub open spec fn spec_number_key(key: Key, repeat: bool) -> Option<NumberKey> {
    if repeat {
        None
    } else {
        match key {
            Key::ArrowUp => Some(NumberKey::StepUp),
            Key::ArrowDown => Some(NumberKey::StepDown),
            Key::Enter | Key::NumpadEnter => Some(NumberKey::Commit),
            _ => None,
        }
    }
}

/// The action of a key press in a number input; `Some` means the key is consumed (it does not reach
/// an ancestor).
pub fn number_key(key: Key, repeat: bool) -> (r: Option<NumberKey>)
    ensures
        r == spec_number_key(key, repeat),
{
    if repeat {
        return None;
    }
    match key {
        Key::ArrowUp => Some(NumberKey::StepUp),
        Key::ArrowDown => Some(NumberKey::StepDown),
        Key::Enter | Key::NumpadEnter => Some(NumberKey::Commit),
        _ => None,
    }
}

/// What committing a number input's text does.
#[derive(Clone, Copy, PartialEq, Eq, Structural, Debug)]
pub enum CommitAction {
    /// Nothing: the text still shows the formatted value, so there is no edit to commit.
    Keep,
    /// Set the value to the parsed number, clamped into the range.
    Apply,
    /// Revert the text to the formatted value: the text is not a finite number.
    Revert,
}

/// The commit decision: no-op when the trimmed text equals the formatted current value (so a passive
/// blur never re-parses a rounded display), set when it parses to a finite number, revert otherwise.
pub open spec fn spec_commit_action(shows_value: bool, parses_finite: bool) -> CommitAction {
    if shows_value {
        CommitAction::Keep
    } else if parses_finite {
        CommitAction::Apply
    } else {
        CommitAction::Revert
    }
}

/// Executable form of [`spec_commit_action`]: `shows_value` is whether the trimmed text equals the
/// formatted value, `parses_finite` whether it parses to a finite number.
pub fn commit_action(shows_value: bool, parses_finite: bool) -> (r: CommitAction)
    ensures
        r == spec_commit_action(shows_value, parses_finite),
{
    if shows_value {
        CommitAction::Keep
    } else if parses_finite {
        CommitAction::Apply
    } else {
        CommitAction::Revert
    }
}

/// Whether a focus change commits the edit: only on the focused-to-unfocused edge (a blur), never on
/// gaining focus.
pub fn blur_commits(was_focused: bool, now_focused: bool) -> (r: bool)
    ensures
        r == (was_focused && !now_focused),
{
    was_focused && !now_focused
}

} // verus!
