use vstd::prelude::*;

use crate::control::{ColorRole, ControlSize};

verus! {

/// How a field arranges its label and control: `Row` (the default) puts the label left of the control,
/// `Column` stacks the label above it.
#[derive(Clone, Copy, PartialEq, Eq, Structural, Debug)]
pub enum FieldLayout {
    Row,
    Column,
}

impl Default for FieldLayout {
    fn default() -> (r: Self)
        ensures
            r == FieldLayout::Row,
    {
        FieldLayout::Row
    }
}

/// The message line under a field's control: present only when help text or an error binding is
/// configured; it shows the active error (in `Danger`) when there is one, else the help text (muted),
/// else nothing.
pub open spec fn spec_field_message(
    help: Option<Seq<char>>,
    error_bound: bool,
    error: Option<Seq<char>>,
) -> Option<(Seq<char>, ColorRole)> {
    if !(help is Some || error_bound) {
        None
    } else {
        match error {
            Some(msg) if error_bound => Some((msg, ColorRole::Danger)),
            _ => Some(
                (
                    match help {
                        Some(h) => h,
                        None => Seq::empty(),
                    },
                    ColorRole::TextMuted,
                ),
            ),
        }
    }
}

/// The text and colour of a field's message line (see [`spec_field_message`]): `help` is the static help
/// text, `error_bound` whether an error signal is bound, and `error` that signal's current value.
pub fn field_message(help: &Option<String>, error_bound: bool, error: &Option<String>) -> (r: Option<(String, ColorRole)>)
    ensures
        match (r, spec_field_message(
            match help {
                Some(h) => Some(h@),
                None => None,
            },
            error_bound,
            match error {
                Some(e) => Some(e@),
                None => None,
            },
        )) {
            (Some((t, c)), Some((st, sc))) => t@ == st && c == sc,
            (None, None) => true,
            _ => false,
        },
{
    if help.is_none() && !error_bound {
        return None;
    }
    if error_bound {
        if let Some(msg) = error {
            return Some((msg.clone(), ColorRole::Danger));
        }
    }
    match help {
        Some(h) => Some((h.clone(), ColorRole::TextMuted)),
        None => Some((String::new(), ColorRole::TextMuted)),
    }
}

/// Whether the control slot shows a `Danger` border: only while a bound error is active.
pub fn shows_error_border(error_bound: bool, error_active: bool) -> (r: bool)
    ensures
        r == (error_bound && error_active),
{
    error_bound && error_active
}

/// The line a disabled text input shows in place of its editor: the current value, or the placeholder
/// (nothing when there is none) while the value is empty.
pub fn disabled_text(value: &String, placeholder: &Option<String>) -> (r: String)
    ensures
        r@ == if value@.len() == 0 {
            match placeholder {
                Some(p) => p@,
                None => Seq::<char>::empty(),
            }
        } else {
            value@
        },
{
    if value.as_str().is_empty() {
        match placeholder {
            Some(p) => p.clone(),
            None => String::new(),
        }
    } else {
        value.clone()
    }
}

/// A display-text label: its content, colour role, size and whether it wraps to the available width.
#[derive(Debug)]
pub struct Label {
    pub content: String,
    pub color: ColorRole,
    pub size: ControlSize,
    pub wrap: bool,
}

/// Creates a label showing `content` in the `Text` role at the medium size, not wrapping.
pub fn label(content: &str) -> (r: Label)
    ensures
        r.content@ == content@,
        r.color == ColorRole::Text,
        r.size == ControlSize::Md,
        !r.wrap,
{
    Label { content: String::from_str(content), color: ColorRole::Text, size: ControlSize::Md, wrap: false }
}

impl Label {
    /// Sets the text colour role.
    pub fn color(self, role: ColorRole) -> (r: Self)
        ensures
            r.color == role,
            r.content == self.content,
            r.size == self.size,
            r.wrap == self.wrap,
    {
        Label { color: role, ..self }
    }

    /// Muted (secondary) text: the `TextMuted` role.
    pub fn muted(self) -> (r: Self)
        ensures
            r.color == ColorRole::TextMuted,
            r.content == self.content,
            r.size == self.size,
            r.wrap == self.wrap,
    {
        Label { color: ColorRole::TextMuted, ..self }
    }

    /// Sets the font size through the shared control scale.
    pub fn size(self, size: ControlSize) -> (r: Self)
        ensures
            r.size == size,
            r.content == self.content,
            r.color == self.color,
            r.wrap == self.wrap,
    {
        Label { size, ..self }
    }

    /// Wraps the label to its available width (or not).
    pub fn wrap(self, wrap: bool) -> (r: Self)
        ensures
            r.wrap == wrap,
            r.content == self.content,
            r.color == self.color,
            r.size == self.size,
    {
        Label { wrap, ..self }
    }
}

} // verus!
