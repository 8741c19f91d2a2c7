use vstd::prelude::*;

use crate::keys::Key;

verus! {

/// How a key moves a focused slider thumb. Keys are orientation-agnostic: up and right increase.
#[derive(Clone, Copy, PartialEq, Eq, Structural, Debug)]
pub enum SliderMove {
    /// One arrow increment up.
    StepUp,
    /// One arrow increment down.
    StepDown,
    /// One page (ten increments) up.
    PageUp,
    /// One page down.
    PageDown,
    /// To the lower bound of the thumb's range.
    ToStart,
    /// To the upper bound of the thumb's range.
    ToEnd,
}

/// The move a key asks of a slider thumb; other keys leave it alone.
pub open spec fn spec_slider_move(key: Key) -> Option<SliderMove> {
    match key {
        Key::ArrowUp | Key::ArrowRight => Some(SliderMove::StepUp),
        Key::ArrowDown | Key::ArrowLeft => Some(SliderMove::StepDown),
        Key::PageUp => Some(SliderMove::PageUp),
        Key::PageDown => Some(SliderMove::PageDown),
        Key::Home => Some(SliderMove::ToStart),
        Key::End => Some(SliderMove::ToEnd),
        _ => None,
    }
}

/// The move a pressed key asks of a slider or range-slider thumb, or `None` when the key is not one of
/// the slider keys (the thumb keeps its value).
pub fn slider_move(key: Key) -> (r: Option<SliderMove>)
    ensures
        r == spec_slider_move(key),
{
    match key {
        Key::ArrowUp | Key::ArrowRight => Some(SliderMove::StepUp),
        Key::ArrowDown | Key::ArrowLeft => Some(SliderMove::StepDown),
        Key::PageUp => Some(SliderMove::PageUp),
        Key::PageDown => Some(SliderMove::PageDown),
        Key::Home => Some(SliderMove::ToStart),
        Key::End => Some(SliderMove::ToEnd),
        _ => None,
    }
}

} // verus!
