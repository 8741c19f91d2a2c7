use vstd::prelude::*;

use crate::control::{ColorRole, ControlSize, spec_switch_dims, switch_dims};

verus! {

/// How a checkbox box paints: its fill, its border, the check glyph's tint, and the check's target
/// scale (`1` full size, `0` shrunk away; the enabled check pops in and out by scale).
#[derive(Clone, Copy, PartialEq, Eq, Structural, Debug)]
pub struct CheckPaint {
    pub fill: ColorRole,
    pub border: ColorRole,
    pub mark: ColorRole,
    pub mark_scale: u32,
}

/// The checkbox paint: enabled, an Accent box with a full-size AccentFg check when checked and a
/// bordered Surface box with the check shrunk away when not; disabled, a SurfaceRaised box whose check
/// is TextMuted when checked and SurfaceRaised (blending into the box) when not.
pub open spec fn spec_check_paint(checked: bool, disabled: bool) -> CheckPaint {
    if disabled {
        CheckPaint {
            fill: ColorRole::SurfaceRaised,
            border: ColorRole::Border,
            mark: if checked { ColorRole::TextMuted } else { ColorRole::SurfaceRaised },
            mark_scale: 1,
        }
    } else {
        CheckPaint {
            fill: if checked { ColorRole::Accent } else { ColorRole::Surface },
            border: if checked { ColorRole::Accent } else { ColorRole::Border },
            mark: ColorRole::AccentFg,
            mark_scale: if checked { 1 } else { 0 },
        }
    }
}

/// Executable form of [`spec_check_paint`].
pub fn check_paint(checked: bool, disabled: bool) -> (r: CheckPaint)
    ensures
        r == spec_check_paint(checked, disabled),
{
    if disabled {
        CheckPaint {
            fill: ColorRole::SurfaceRaised,
            border: ColorRole::Border,
            mark: if checked { ColorRole::TextMuted } else { ColorRole::SurfaceRaised },
            mark_scale: 1,
        }
    } else {
        CheckPaint {
            fill: if checked { ColorRole::Accent } else { ColorRole::Surface },
            border: if checked { ColorRole::Accent } else { ColorRole::Border },
            mark: ColorRole::AccentFg,
            mark_scale: if checked { 1 } else { 0 },
        }
    }
}

/// Whether a checkbox paint shows the check: full size and tinted apart from the box fill.
pub open spec fn check_shown(p: CheckPaint) -> bool {
    p.mark_scale == 1 && p.mark != p.fill
}

/// The fill of a radio mark's outer circle, whatever its state.
pub open spec fn radio_fill() -> ColorRole {
    ColorRole::Surface
}

/// How a radio mark paints over its Surface circle: the ring's border and the inner dot's fill.
#[derive(Clone, Copy, PartialEq, Eq, Structural, Debug)]
pub struct RadioPaint {
    pub ring: ColorRole,
    pub dot: ColorRole,
}

/// The radio paint: enabled, an Accent ring and dot when selected and a Border ring with a Surface
/// (hidden) dot when not; disabled, a Border ring with a TextMuted dot when selected, a hidden one when
/// not.
pub open spec fn spec_radio_paint(selected: bool, disabled: bool) -> RadioPaint {
    if disabled {
        RadioPaint {
            ring: ColorRole::Border,
            dot: if selected { ColorRole::TextMuted } else { ColorRole::Surface },
        }
    } else {
        RadioPaint {
            ring: if selected { ColorRole::Accent } else { ColorRole::Border },
            dot: if selected { ColorRole::Accent } else { ColorRole::Surface },
        }
    }
}

/// Executable form of [`spec_radio_paint`].
pub fn radio_paint(selected: bool, disabled: bool) -> (r: RadioPaint)
    ensures
        r == spec_radio_paint(selected, disabled),
{
    if disabled {
        RadioPaint {
            ring: ColorRole::Border,
            dot: if selected { ColorRole::TextMuted } else { ColorRole::Surface },
        }
    } else {
        RadioPaint {
            ring: if selected { ColorRole::Accent } else { ColorRole::Border },
            dot: if selected { ColorRole::Accent } else { ColorRole::Surface },
        }
    }
}

/// How a switch paints: the track fill and the knob fill.
#[derive(Clone, Copy, PartialEq, Eq, Structural, Debug)]
pub struct SwitchPaint {
    pub track: ColorRole,
    pub knob: ColorRole,
}

/// The switch paint: enabled, an Accent track when on and a BorderStrong one when off, with an
/// AccentFg knob; disabled, a Border track with a Surface knob.
pub open spec fn spec_switch_paint(on: bool, disabled: bool) -> SwitchPaint {
    if disabled {
        SwitchPaint { track: ColorRole::Border, knob: ColorRole::Surface }
    } else {
        SwitchPaint {
            track: if on { ColorRole::Accent } else { ColorRole::BorderStrong },
            knob: ColorRole::AccentFg,
        }
    }
}

/// Executable form of [`spec_switch_paint`].
pub fn switch_paint(on: bool, disabled: bool) -> (r: SwitchPaint)
    ensures
        r == spec_switch_paint(on, disabled),
{
    if disabled {
        SwitchPaint { track: ColorRole::Border, knob: ColorRole::Surface }
    } else {
        SwitchPaint {
            track: if on { ColorRole::Accent } else { ColorRole::BorderStrong },
            knob: ColorRole::AccentFg,
        }
    }
}

/// The switch knob's left offset in its track (logical px): inset 2 px when off, and slid to 2 px from
/// the right end when on.
pub open spec fn spec_knob_offset(size: ControlSize, on: bool) -> int {
    if on {
        spec_switch_dims(size).0 - spec_switch_dims(size).2 - 2
    } else {
        2
    }
}

/// Executable form of [`spec_knob_offset`].
pub fn knob_offset(size: ControlSize, on: bool) -> (r: u32)
    ensures
        r == spec_knob_offset(size, on),
{
    let (track_w, _track_h, knob) = switch_dims(size);
    if on {
        track_w - knob - 2
    } else {
        2
    }
}

/// The height of a tab's underline bar (logical px).
pub const TAB_UNDERLINE_PX: u32 = 2;

/// How a tab paints: its label tint and its underline bar.
#[derive(Clone, Copy, PartialEq, Eq, Structural, Debug)]
pub struct TabPaint {
    pub label: ColorRole,
    pub underline: ColorRole,
}

/// The tab paint: the active tab has a Text label over an Accent underline (the FocusRing while the
/// strip shows focus); the others a TextMuted label over the Border baseline.
pub open spec fn spec_tab_paint(active: bool, focus_visible: bool) -> TabPaint {
    if active {
        TabPaint {
            label: ColorRole::Text,
            underline: if focus_visible { ColorRole::FocusRing } else { ColorRole::Accent },
        }
    } else {
        TabPaint { label: ColorRole::TextMuted, underline: ColorRole::Border }
    }
}

/// Executable form of [`spec_tab_paint`].
pub fn tab_paint(active: bool, focus_visible: bool) -> (r: TabPaint)
    ensures
        r == spec_tab_paint(active, focus_visible),
{
    if active {
        TabPaint {
            label: ColorRole::Text,
            underline: if focus_visible { ColorRole::FocusRing } else { ColorRole::Accent },
        }
    } else {
        TabPaint { label: ColorRole::TextMuted, underline: ColorRole::Border }
    }
}

/// How a segment of a segmented control or toggle group paints: fill, border and content tint.
#[derive(Clone, Copy, PartialEq, Eq, Structural, Debug)]
pub struct SegmentPaint {
    pub fill: ColorRole,
    pub border: ColorRole,
    pub content: ColorRole,
}

/// The segment paint: an Accent fill when selected and SurfaceRaised otherwise; a Border outline that
/// becomes the FocusRing on the `ringed` segment (the selected one of a segmented control, the roving one
/// of a toggle group) while the group shows focus; AccentFg content over a selected fill, Text over the
/// others. Disabled segments keep the fill, a plain Border and TextMuted content.
pub open spec fn spec_segment_paint(selected: bool, disabled: bool, ringed: bool) -> SegmentPaint {
    let fill = if selected { ColorRole::Accent } else { ColorRole::SurfaceRaised };
    if disabled {
        SegmentPaint { fill, border: ColorRole::Border, content: ColorRole::TextMuted }
    } else {
        SegmentPaint {
            fill,
            border: if ringed { ColorRole::FocusRing } else { ColorRole::Border },
            content: if selected { ColorRole::AccentFg } else { ColorRole::Text },
        }
    }
}

/// Executable form of [`spec_segment_paint`].
pub fn segment_paint(selected: bool, disabled: bool, ringed: bool) -> (r: SegmentPaint)
    ensures
        r == spec_segment_paint(selected, disabled, ringed),
{
    let fill = if selected { ColorRole::Accent } else { ColorRole::SurfaceRaised };
    if disabled {
        SegmentPaint { fill, border: ColorRole::Border, content: ColorRole::TextMuted }
    } else {
        SegmentPaint {
            fill,
            border: if ringed { ColorRole::FocusRing } else { ColorRole::Border },
            content: if selected { ColorRole::AccentFg } else { ColorRole::Text },
        }
    }
}

/// How a slider paints: the filled part of its track, the rest of the track, and the thumb.
#[derive(Clone, Copy, PartialEq, Eq, Structural, Debug)]
pub struct SliderPaint {
    pub filled: ColorRole,
    pub rest: ColorRole,
    pub thumb: ColorRole,
}

/// The slider (and range slider) paint: an Accent fill with an AccentFg thumb when enabled; a
/// BorderStrong fill with a Surface thumb when disabled; the rest of the track is Border either way.
pub open spec fn spec_slider_paint(disabled: bool) -> SliderPaint {
    if disabled {
        SliderPaint { filled: ColorRole::BorderStrong, rest: ColorRole::Border, thumb: ColorRole::Surface }
    } else {
        SliderPaint { filled: ColorRole::Accent, rest: ColorRole::Border, thumb: ColorRole::AccentFg }
    }
}

/// Executable form of [`spec_slider_paint`].
pub fn slider_paint(disabled: bool) -> (r: SliderPaint)
    ensures
        r == spec_slider_paint(disabled),
{
    if disabled {
        SliderPaint { filled: ColorRole::BorderStrong, rest: ColorRole::Border, thumb: ColorRole::Surface }
    } else {
        SliderPaint { filled: ColorRole::Accent, rest: ColorRole::Border, thumb: ColorRole::AccentFg }
    }
}

/// The tint of a control's text label: TextMuted when disabled, Text otherwise.
pub fn label_role(disabled: bool) -> (r: ColorRole)
    ensures
        r == if disabled { ColorRole::TextMuted } else { ColorRole::Text },
{
    if disabled { ColorRole::TextMuted } else { ColorRole::Text }
}

/// The focus ring around a focusable part: the FocusRing border on the part that carries focus while
/// focus is shown, no border otherwise.
pub fn focus_ring(focus_visible: bool, on_part: bool) -> (r: Option<ColorRole>)
    ensures
        r == if focus_visible && on_part { Some(ColorRole::FocusRing) } else { None::<ColorRole> },
{
    if focus_visible && on_part { Some(ColorRole::FocusRing) } else { None }
}

/// The fill of a grid cell or table row: Accent when selected, Surface otherwise.
pub fn cell_fill(selected: bool) -> (r: ColorRole)
    ensures
        r == if selected { ColorRole::Accent } else { ColorRole::Surface },
{
    if selected { ColorRole::Accent } else { ColorRole::Surface }
}

/// How a row of a popup list (menu, dropdown, command palette) paints: fill and text tint.
#[derive(Clone, Copy, PartialEq, Eq, Structural, Debug)]
pub struct RowPaint {
    pub fill: ColorRole,
    pub text: ColorRole,
}

/// The popup row paint: the highlighted row is an Accent fill with AccentFg text; the others blend with
/// the SurfaceRaised panel with Text.
pub open spec fn spec_row_paint(highlighted: bool) -> RowPaint {
    if highlighted {
        RowPaint { fill: ColorRole::Accent, text: ColorRole::AccentFg }
    } else {
        RowPaint { fill: ColorRole::SurfaceRaised, text: ColorRole::Text }
    }
}

/// Executable form of [`spec_row_paint`].
pub fn row_paint(highlighted: bool) -> (r: RowPaint)
    ensures
        r == spec_row_paint(highlighted),
{
    if highlighted {
        RowPaint { fill: ColorRole::Accent, text: ColorRole::AccentFg }
    } else {
        RowPaint { fill: ColorRole::SurfaceRaised, text: ColorRole::Text }
    }
}

/// The tint of one run of a command name in a palette result row: AccentFg on the highlighted row,
/// otherwise Accent for a run of matched characters and Text for the rest.
pub open spec fn spec_run_tint(highlighted: bool, matched: bool) -> ColorRole {
    if highlighted {
        ColorRole::AccentFg
    } else if matched {
        ColorRole::Accent
    } else {
        ColorRole::Text
    }
}

/// Executable form of [`spec_run_tint`].
pub fn run_tint(highlighted: bool, matched: bool) -> (r: ColorRole)
    ensures
        r == spec_run_tint(highlighted, matched),
{
    if highlighted {
        ColorRole::AccentFg
    } else if matched {
        ColorRole::Accent
    } else {
        ColorRole::Text
    }
}

/// A control's on / selected state is always visible, enabled or disabled: the two states paint a
/// checkbox, a radio mark, a segment and a tab differently, and put a switch's knob at different
/// offsets.
pub proof fn lemma_state_always_visible(disabled: bool, size: ControlSize, ring_a: bool, ring_b: bool)
    ensures
        spec_check_paint(true, disabled) != spec_check_paint(false, disabled),
        spec_radio_paint(true, disabled) != spec_radio_paint(false, disabled),
        spec_segment_paint(true, disabled, ring_a) != spec_segment_paint(false, disabled, ring_b),
        spec_tab_paint(true, ring_a) != spec_tab_paint(false, ring_b),
        spec_knob_offset(size, true) != spec_knob_offset(size, false),
{
}

/// Marks show exactly the selection: a checkbox shows its check iff checked, and a radio's dot stands
/// apart from the circle's fill iff selected, enabled or disabled. An enabled radio's dot, and any
/// segment's fill, is Accent iff selected, so a group paints exactly one Accent mark per selected option.
pub proof fn lemma_marks_show_selection(selected: bool, disabled: bool, ringed: bool)
    ensures
        check_shown(spec_check_paint(selected, disabled)) == selected,
        (spec_radio_paint(selected, disabled).dot != radio_fill()) == selected,
        (spec_radio_paint(selected, false).dot == ColorRole::Accent) == selected,
        (spec_segment_paint(selected, disabled, ringed).fill == ColorRole::Accent) == selected,
{
}

/// Content always stands apart from the fill it sits on: a segment's content from the segment's fill,
/// the switch knob from its track, a popup row's text and every run of a palette row from the row's
/// fill; and on a row that is not highlighted, matched runs stand apart from the rest of the name.
pub proof fn lemma_content_contrasts_fill(selected: bool, disabled: bool, ringed: bool, matched: bool)
    ensures
        spec_segment_paint(selected, disabled, ringed).content != spec_segment_paint(selected, disabled, ringed).fill,
        spec_switch_paint(selected, disabled).knob != spec_switch_paint(selected, disabled).track,
        spec_row_paint(selected).text != spec_row_paint(selected).fill,
        spec_run_tint(selected, matched) != spec_row_paint(selected).fill,
        spec_run_tint(false, true) != spec_run_tint(false, false),
        spec_slider_paint(disabled).filled != spec_slider_paint(disabled).rest,
{
}

} // verus!
