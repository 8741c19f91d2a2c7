use vstd::prelude::*;

verus! {

/// The size of an interactive control, shared across the widget set so a form's controls line up on one
/// scale. `Md` is the default.
#[derive(Clone, Copy, PartialEq, Eq, Structural, Debug)]
pub enum ControlSize {
    /// Compact (dense toolbars, inline).
    Sm,
    /// The default control size.
    Md,
    /// Prominent (primary actions, touch).
    Lg,
}

impl Default for ControlSize {
    fn default() -> (r: Self)
        ensures
            r == ControlSize::Md,
    {
        ControlSize::Md
    }
}

/// The semantic colour roles a control paints with (resolved against the theme at paint time).
#[derive(Clone, Copy, PartialEq, Eq, Structural, Debug)]
pub enum ColorRole {
    Accent,
    AccentFg,
    Danger,
    Surface,
    SurfaceRaised,
    Text,
    TextMuted,
    Border,
    BorderStrong,
    FocusRing,
}

/// Picks the value for `size` out of a small / medium / large triple.
pub open spec fn by_size(size: ControlSize, sm: int, md: int, lg: int) -> int {
    match size {
        ControlSize::Sm => sm,
        ControlSize::Md => md,
        ControlSize::Lg => lg,
    }
}

/// The label font size (logical px): 14 / 16 / 18.
pub open spec fn spec_label_px(size: ControlSize) -> int {
    by_size(size, 14, 16, 18)
}

/// The checkbox box side (logical px): 16 / 18 / 22.
pub open spec fn spec_checkbox_box_px(size: ControlSize) -> int {
    by_size(size, 16, 18, 22)
}

/// The check glyph side (logical px): 12 / 14 / 16.
pub open spec fn spec_check_glyph_px(size: ControlSize) -> int {
    by_size(size, 12, 14, 16)
}

/// The switch `(track width, track height, knob)` (logical px): 28×16 / 34×20 / 42×24 tracks with
/// 12 / 16 / 20 knobs.
pub open spec fn spec_switch_dims(size: ControlSize) -> (int, int, int) {
    (by_size(size, 28, 34, 42), by_size(size, 16, 20, 24), by_size(size, 12, 16, 20))
}

/// The progress track `(width, height)` (logical px): 96×4 / 128×6 / 160×8.
pub open spec fn spec_progress_dims(size: ControlSize) -> (int, int) {
    (by_size(size, 96, 128, 160), by_size(size, 4, 6, 8))
}

/// The spinner `(track width, track height, segment width)` (logical px): 48×4 / 64×6 / 80×8 tracks
/// with 16 / 22 / 28 segments.
pub open spec fn spec_spinner_dims(size: ControlSize) -> (int, int, int) {
    (by_size(size, 48, 64, 80), by_size(size, 4, 6, 8), by_size(size, 16, 22, 28))
}

/// The radio mark's inner dot diameter (logical px): 8 / 10 / 12.
pub open spec fn spec_radio_dot_px(size: ControlSize) -> int {
    by_size(size, 8, 10, 12)
}

/// The row height of data views and the command palette (logical px): 24 / 28 / 34.
pub open spec fn spec_row_height(size: ControlSize) -> int {
    by_size(size, 24, 28, 34)
}

/// The label font size (logical px) for `size`.
pub fn label_px(size: ControlSize) -> (r: u32)
    ensures
        r == spec_label_px(size),
{
    match size {
        ControlSize::Sm => 14,
        ControlSize::Md => 16,
        ControlSize::Lg => 18,
    }
}

/// The checkbox's square box side (logical px) for `size`, near the label cap height.
pub fn checkbox_box_px(size: ControlSize) -> (r: u32)
    ensures
        r == spec_checkbox_box_px(size),
{
    match size {
        ControlSize::Sm => 16,
        ControlSize::Md => 18,
        ControlSize::Lg => 22,
    }
}

/// The check glyph side (logical px) for `size`, a little smaller than the box.
pub fn check_glyph_px(size: ControlSize) -> (r: u32)
    ensures
        r == spec_check_glyph_px(size),
{
    match size {
        ControlSize::Sm => 12,
        ControlSize::Md => 14,
        ControlSize::Lg => 16,
    }
}

/// The switch metrics `(track_w, track_h, knob)` (logical px) for `size`.
pub fn switch_dims(size: ControlSize) -> (r: (u32, u32, u32))
    ensures
        (r.0 as int, r.1 as int, r.2 as int) == spec_switch_dims(size),
{
    match size {
        ControlSize::Sm => (28, 16, 12),
        ControlSize::Md => (34, 20, 16),
        ControlSize::Lg => (42, 24, 20),
    }
}

/// The radio mark's outer circle diameter (logical px) for `size`: the checkbox box scale.
pub fn radio_mark_px(size: ControlSize) -> (r: u32)
    ensures
        r == spec_checkbox_box_px(size),
{
    checkbox_box_px(size)
}

/// The progress track `(width, height)` (logical px) for `size`.
pub fn progress_dims(size: ControlSize) -> (r: (u32, u32))
    ensures
        (r.0 as int, r.1 as int) == spec_progress_dims(size),
{
    match size {
        ControlSize::Sm => (96, 4),
        ControlSize::Md => (128, 6),
        ControlSize::Lg => (160, 8),
    }
}

/// The spinner metrics `(track_w, track_h, segment_w)` (logical px) for `size`.
pub fn spinner_dims(size: ControlSize) -> (r: (u32, u32, u32))
    ensures
        (r.0 as int, r.1 as int, r.2 as int) == spec_spinner_dims(size),
{
    match size {
        ControlSize::Sm => (48, 4, 16),
        ControlSize::Md => (64, 6, 22),
        ControlSize::Lg => (80, 8, 28),
    }
}

/// The radio mark's inner dot diameter (logical px) for `size`, about half the outer circle.
pub fn radio_dot_px(size: ControlSize) -> (r: u32)
    ensures
        r == spec_radio_dot_px(size),
{
    match size {
        ControlSize::Sm => 8,
        ControlSize::Md => 10,
        ControlSize::Lg => 12,
    }
}

/// The row height (logical px) of table rows and command palette results for `size`.
pub fn row_height(size: ControlSize) -> (r: u32)
    ensures
        r == spec_row_height(size),
{
    match size {
        ControlSize::Sm => 24,
        ControlSize::Md => 28,
        ControlSize::Lg => 34,
    }
}

/// The radio dot sits exactly centred in its mark on the pixel grid: the mark and the dot differ by an
/// even number of pixels, so `(mark - dot) / 2` is whole.
pub proof fn lemma_radio_dot_centered(size: ControlSize)
    ensures
        (spec_checkbox_box_px(size) - spec_radio_dot_px(size)) % 2 == 0,
        spec_radio_dot_px(size) < spec_checkbox_box_px(size),
{
}

/// The switch knob is inset 2 px on every side of the track (`track_h = knob + 4`) and has room to
/// travel (`track_w - knob - 4 > 0`).
pub proof fn lemma_switch_knob_inset(size: ControlSize)
    ensures
        spec_switch_dims(size).1 == spec_switch_dims(size).2 + 4,
        spec_switch_dims(size).0 - spec_switch_dims(size).2 - 4 > 0,
{
}

/// The check glyph fits inside the checkbox box.
pub proof fn lemma_check_glyph_fits(size: ControlSize)
    ensures
        spec_check_glyph_px(size) < spec_checkbox_box_px(size),
{
}

/// Every metric grows strictly from `Sm` to `Md` to `Lg`.
pub proof fn lemma_metrics_grow_with_size()
    ensures
        spec_label_px(ControlSize::Sm) < spec_label_px(ControlSize::Md) < spec_label_px(ControlSize::Lg),
        spec_checkbox_box_px(ControlSize::Sm) < spec_checkbox_box_px(ControlSize::Md) < spec_checkbox_box_px(
            ControlSize::Lg,
        ),
        spec_radio_dot_px(ControlSize::Sm) < spec_radio_dot_px(ControlSize::Md) < spec_radio_dot_px(ControlSize::Lg),
        spec_row_height(ControlSize::Sm) < spec_row_height(ControlSize::Md) < spec_row_height(ControlSize::Lg),
        spec_switch_dims(ControlSize::Sm).0 < spec_switch_dims(ControlSize::Md).0 < spec_switch_dims(ControlSize::Lg).0,
        spec_progress_dims(ControlSize::Sm).0 < spec_progress_dims(ControlSize::Md).0 < spec_progress_dims(
            ControlSize::Lg,
        ).0,
        spec_spinner_dims(ControlSize::Sm).0 < spec_spinner_dims(ControlSize::Md).0 < spec_spinner_dims(
            ControlSize::Lg,
        ).0,
{
}

} // verus!
