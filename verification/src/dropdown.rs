use vstd::prelude::*;
use vstd::std_specs::cmp::PartialEqSpec;

use crate::control::ColorRole;
use crate::keys::Key;
use crate::nav::{is_first_position, spec_step_visible, step_visible};
use crate::text::{contains_ignore_case, contains_substring, unicode_lowercase};

verus! {

/// `i` is the first option whose value equals `value` (by the type's `==`).
pub open spec fn is_first_equal<T: PartialEq>(opts: Seq<(T, String)>, value: T, i: int) -> bool {
    &&& 0 <= i < opts.len()
    &&& opts[i].0.eq_spec(&value)
    &&& forall|j: int| 0 <= j < i ==> !opts[j].0.eq_spec(&value)
}

/// The index of the first option equal to `value`, if any. The contract holds for value types whose
/// `==` follows their specification (all of std's primitive types do).
pub fn selected_index<T: PartialEq>(opts: &[(T, String)], value: &T) -> (r: Option<usize>)
    ensures
        r matches Some(i) ==> i < opts@.len(),
        T::obeys_eq_spec() ==> match r {
            Some(i) => is_first_equal(opts@, *value, i as int),
            None => forall|j: int| 0 <= j < opts@.len() ==> !opts@[j].0.eq_spec(value),
        },
{
    let mut i: usize = 0;
    while i < opts.len()
        invariant
            i <= opts@.len(),
            T::obeys_eq_spec() ==> forall|j: int| 0 <= j < i ==> !opts@[j].0.eq_spec(value),
        decreases opts@.len() - i,
    {
        if opts[i].0 == *value {
            return Some(i);
        }
        i += 1;
    }
    None
}

/// The label of the first option equal to `value`, or the empty string when none matches (the
/// placeholder shows instead).
pub fn selected_label<T: PartialEq>(opts: &[(T, String)], value: &T) -> (r: String)
    ensures
        T::obeys_eq_spec() ==> {
            ||| exists|i: int| is_first_equal(opts@, *value, i) && r@ == opts@[i].1@
            ||| (forall|j: int| 0 <= j < opts@.len() ==> !opts@[j].0.eq_spec(value)) && r@ == Seq::<char>::empty()
        },
{
    match selected_index(opts, value) {
        Some(i) => opts[i].1.clone(),
        None => String::new(),
    }
}

/// The option indices whose label passes the filter `q`, in order: all of them for the empty query,
/// otherwise those whose lower-cased label contains the lower-cased query.
pub open spec fn visible_indices(labels: Seq<Seq<char>>, q: Seq<char>, n: int) -> Seq<usize>
    decreases n,
{
    if n <= 0 {
        Seq::empty()
    } else {
        let rest = visible_indices(labels, q, n - 1);
        if q.len() == 0 || contains_substring(unicode_lowercase(labels[n - 1]), unicode_lowercase(q)) {
            rest.push((n - 1) as usize)
        } else {
            rest
        }
    }
}

/// The labels of the options.
pub open spec fn option_labels<T>(opts: Seq<(T, String)>) -> Seq<Seq<char>> {
    Seq::new(opts.len(), |i: int| opts[i].1@)
}

/// The option indices whose label contains `query` case-insensitively (see [`visible_indices`]); all
/// indices for an empty query. Used both to build the filtered popup rows and to bound keyboard
/// navigation.
pub fn filter_visible<T>(opts: &[(T, String)], query: &str) -> (r: Vec<usize>)
    ensures
        r@ == visible_indices(option_labels(opts@), query@, opts@.len() as int),
{
    let ghost labels = option_labels(opts@);
    let mut out: Vec<usize> = Vec::new();
    let empty = query.is_empty();
    for i in 0..opts.len()
        invariant
            labels == option_labels(opts@),
            empty == (query@.len() == 0),
            out@ == visible_indices(labels, query@, i as int),
    {
        if empty || contains_ignore_case(opts[i].1.as_str(), query) {
            out.push(i);
        }
    }
    out
}

/// Entries of `visible_indices` are increasing option indices below `n`.
pub proof fn lemma_visible_indices_increasing(labels: Seq<Seq<char>>, q: Seq<char>, n: int)
    requires
        0 <= n <= usize::MAX,
    ensures
        forall|a: int, b: int|
            0 <= a < b < visible_indices(labels, q, n).len() ==> visible_indices(labels, q, n)[a]
                < visible_indices(labels, q, n)[b],
        forall|a: int| 0 <= a < visible_indices(labels, q, n).len() ==> visible_indices(labels, q, n)[a] < n,
    decreases n,
{
    if n > 0 {
        lemma_visible_indices_increasing(labels, q, n - 1);
        let rest = visible_indices(labels, q, n - 1);
        let v = visible_indices(labels, q, n);
        assert forall|a: int, b: int| 0 <= a < b < v.len() implies v[a] < v[b] by {
            if b == rest.len() {
                assert(v[a] == rest[a]);
            } else {
                assert(v[a] == rest[a] && v[b] == rest[b]);
            }
        }
        assert forall|a: int| 0 <= a < v.len() implies v[a] < n by {
            if a < rest.len() {
                assert(v[a] == rest[a]);
            }
        }
    }
}

/// The empty filter shows every option.
pub proof fn lemma_empty_filter_shows_all(labels: Seq<Seq<char>>, n: int)
    requires
        0 <= n <= usize::MAX,
    ensures
        visible_indices(labels, Seq::empty(), n) == Seq::new(n as nat, |i: int| i as usize),
    decreases n,
{
    if n > 0 {
        lemma_empty_filter_shows_all(labels, n - 1);
        assert(visible_indices(labels, Seq::empty(), n) =~= Seq::new(n as nat, |i: int| i as usize));
    }
}

/// The rows narrow as the filter grows: when the lower-cased new query contains the lower-cased old
/// one, every option the new query shows, the old one showed too. (An empty new query shows every
/// option; it is counted only against an empty old query.)
pub proof fn lemma_filter_narrows(labels: Seq<Seq<char>>, q1: Seq<char>, q2: Seq<char>, n: int)
    requires
        q1.len() == 0 || (q2.len() > 0 && contains_substring(unicode_lowercase(q2), unicode_lowercase(q1))),
    ensures
        forall|k: int|
            0 <= k < visible_indices(labels, q2, n).len() ==> visible_indices(labels, q1, n).contains(
                #[trigger] visible_indices(labels, q2, n)[k],
            ),
    decreases n,
{
    if n > 0 {
        lemma_filter_narrows(labels, q1, q2, n - 1);
        let r1 = visible_indices(labels, q1, n - 1);
        let r2 = visible_indices(labels, q2, n - 1);
        let v1 = visible_indices(labels, q1, n);
        let v2 = visible_indices(labels, q2, n);
        let last = (n - 1) as usize;
        if v2.len() > r2.len() {
            if q1.len() > 0 {
                crate::text::lemma_substring_transitive(
                    unicode_lowercase(labels[n - 1]),
                    unicode_lowercase(q2),
                    unicode_lowercase(q1),
                );
            }
            assert(v1 == r1.push(last));
        }
        assert forall|k: int| 0 <= k < v2.len() implies v1.contains(#[trigger] v2[k]) by {
            if k < r2.len() {
                assert(v2[k] == r2[k]);
                assert(r1.contains(r2[k]));
                let m = choose|m: int| 0 <= m < r1.len() && r1[m] == r2[k];
                if v1.len() > r1.len() {
                    assert(v1[m] == r1[m]);
                } else {
                    assert(v1[m] == r1[m]);
                }
            } else {
                assert(v2[k] == last);
                assert(v1[v1.len() - 1] == last);
            }
        }
    }
}

/// What a dropdown's trigger shows: the selected option's label in the Text role, or, when no option
/// is selected (the label is empty), the placeholder in the muted role. A disabled trigger is always
/// muted.
pub fn trigger_text(label: &String, placeholder: &String, disabled: bool) -> (r: (String, ColorRole))
    ensures
        r.0@ == if label@.len() == 0 {
            placeholder@
        } else {
            label@
        },
        r.1 == if disabled || label@.len() == 0 {
            ColorRole::TextMuted
        } else {
            ColorRole::Text
        },
{
    if label.as_str().is_empty() {
        (placeholder.clone(), ColorRole::TextMuted)
    } else {
        (label.clone(), if disabled { ColorRole::TextMuted } else { ColorRole::Text })
    }
}

/// The chevron after a dropdown's trigger: pointing up while the list is open, down while closed.
pub fn chevron(open: bool) -> (r: char)
    ensures
        r == if open { '\u{25B4}' } else { '\u{25BE}' },
{
    if open { '\u{25B4}' } else { '\u{25BE}' }
}

/// What a key press in an open option list does: the new highlight, the option to choose (its value
/// becomes the selection and the list closes), and whether the list closes.
#[derive(Clone, Copy, Debug)]
pub struct ListKeyOutcome {
    pub highlight: usize,
    pub choose: Option<usize>,
    pub close: bool,
}

/// One step of the highlight over all `n` options: forward / backward by one, clamped at the ends; a
/// highlight that is not an option jumps to the first one; with no options it stays.
pub open spec fn spec_step_all(highlight: usize, n: usize, forward: bool) -> usize {
    if n == 0 {
        highlight
    } else if highlight >= n {
        0
    } else if forward {
        if highlight + 1 < n {
            (highlight + 1) as usize
        } else {
            (n - 1) as usize
        }
    } else {
        if highlight > 0 {
            (highlight - 1) as usize
        } else {
            0
        }
    }
}

/// The dropdown list's key handler over `n` options: Down / Up step the highlight (see
/// [`spec_step_all`]); Enter / NumpadEnter choose the highlighted option and close; Escape closes.
/// Auto-repeats and other keys do nothing.
pub open spec fn spec_dropdown_key(highlight: usize, n: usize, key: Key, repeat: bool) -> ListKeyOutcome {
    let idle = ListKeyOutcome { highlight, choose: None, close: false };
    if repeat {
        idle
    } else if key == Key::ArrowDown {
        ListKeyOutcome { highlight: spec_step_all(highlight, n, true), choose: None, close: false }
    } else if key == Key::ArrowUp {
        ListKeyOutcome { highlight: spec_step_all(highlight, n, false), choose: None, close: false }
    } else if key == Key::Enter || key == Key::NumpadEnter {
        if highlight < n {
            ListKeyOutcome { highlight, choose: Some(highlight), close: true }
        } else {
            idle
        }
    } else if key == Key::Escape {
        ListKeyOutcome { highlight, choose: None, close: true }
    } else {
        idle
    }
}

fn step_all(highlight: usize, n: usize, forward: bool) -> (r: usize)
    ensures
        r == spec_step_all(highlight, n, forward),
{
    if n == 0 {
        highlight
    } else if highlight >= n {
        0
    } else if forward {
        if highlight + 1 < n {
            highlight + 1
        } else {
            n - 1
        }
    } else {
        if highlight > 0 {
            highlight - 1
        } else {
            0
        }
    }
}

/// Executable form of [`spec_dropdown_key`].
pub fn dropdown_key(highlight: usize, n: usize, key: Key, repeat: bool) -> (r: ListKeyOutcome)
    ensures
        r == spec_dropdown_key(highlight, n, key, repeat),
{
    let idle = ListKeyOutcome { highlight, choose: None, close: false };
    if repeat {
        return idle;
    }
    match key {
        Key::ArrowDown => ListKeyOutcome { highlight: step_all(highlight, n, true), choose: None, close: false },
        Key::ArrowUp => ListKeyOutcome { highlight: step_all(highlight, n, false), choose: None, close: false },
        Key::Enter | Key::NumpadEnter => if highlight < n {
            ListKeyOutcome { highlight, choose: Some(highlight), close: true }
        } else {
            idle
        },
        Key::Escape => ListKeyOutcome { highlight, choose: None, close: true },
        _ => idle,
    }
}

/// Arrow keys in an open dropdown list move the highlight one option at a time and stop at the ends:
/// from an option `h` of `n`, Down never moves it backwards and moves it by at most one, staying only on
/// the last option; Up never moves it forwards and moves it by at most one, staying only on the first.
pub proof fn lemma_dropdown_arrows_clamp(h: usize, n: usize)
    requires
        h < n,
    ensures
        ({
            let d = spec_dropdown_key(h, n, Key::ArrowDown, false).highlight;
            &&& h <= d <= h + 1
            &&& d < n
            &&& (d == h <==> h + 1 == n)
        }),
        ({
            let u = spec_dropdown_key(h, n, Key::ArrowUp, false).highlight;
            &&& h <= u + 1
            &&& u <= h
            &&& (u == h <==> h == 0)
        }),
        spec_dropdown_key(h, n, Key::ArrowDown, false).choose is None,
        !spec_dropdown_key(h, n, Key::ArrowUp, false).close,
{
}

/// Whether a key on the closed dropdown's trigger opens it: ArrowDown, Enter, NumpadEnter or Space, and
/// not an auto-repeat.
pub fn trigger_opens(key: Key, repeat: bool) -> (r: bool)
    ensures
        r == (!repeat && (key == Key::ArrowDown || key == Key::Enter || key == Key::NumpadEnter || key
            == Key::Space)),
{
    !repeat && (key == Key::ArrowDown || key == Key::Enter || key == Key::NumpadEnter || key == Key::Space)
}

/// What a key press on a combobox does: whether it is open afterwards, the new highlight, and the option
/// to choose (its value becomes the selection).
#[derive(Clone, Copy, Debug)]
pub struct ComboKeyOutcome {
    pub open: bool,
    pub highlight: usize,
    pub choose: Option<usize>,
}

/// The combobox key handler, over the options `visible` under the current filter (`n` options in all):
/// Down opens the list (keeping the typed filter) and steps the highlight forward through the visible
/// options; Up steps it back; Enter / NumpadEnter choose the highlighted option when it is visible, and
/// close; Escape closes. Auto-repeats and other keys do nothing.
pub fn combobox_key(visible: &Vec<usize>, n: usize, highlight: usize, open: bool, key: Key, repeat: bool) -> (r: ComboKeyOutcome)
    ensures
        repeat ==> r.open == open && r.highlight == highlight && r.choose is None,
        !repeat && key == Key::ArrowDown ==> r.open && r.choose is None && (visible@.len() == 0 ==> r.highlight
            == highlight) && (visible@.len() > 0 && !visible@.contains(highlight) ==> r.highlight == visible@[0])
            && forall|p: int|
            is_first_position(visible@, highlight, p) ==> r.highlight == spec_step_visible(visible@, highlight, true, p),
        !repeat && key == Key::ArrowUp ==> r.open == open && r.choose is None && (visible@.len() == 0
            ==> r.highlight == highlight) && (visible@.len() > 0 && !visible@.contains(highlight) ==> r.highlight
            == visible@[0]) && forall|p: int|
            is_first_position(visible@, highlight, p) ==> r.highlight == spec_step_visible(visible@, highlight, false, p),
        !repeat && (key == Key::Enter || key == Key::NumpadEnter) ==> r.highlight == highlight && (if visible@.contains(
            highlight,
        ) && highlight < n {
            !r.open && r.choose == Some(highlight)
        } else {
            r.open == open && r.choose is None
        }),
        !repeat && key == Key::Escape ==> !r.open && r.highlight == highlight && r.choose is None,
        !repeat && key != Key::ArrowDown && key != Key::ArrowUp && key != Key::Enter && key != Key::NumpadEnter
            && key != Key::Escape ==> r.open == open && r.highlight == highlight && r.choose is None,
{
    let idle = ComboKeyOutcome { open, highlight, choose: None };
    if repeat {
        return idle;
    }
    match key {
        Key::ArrowDown => ComboKeyOutcome {
            open: true,
            highlight: step_visible(visible, highlight, true),
            choose: None,
        },
        Key::ArrowUp => ComboKeyOutcome { open, highlight: step_visible(visible, highlight, false), choose: None },
        Key::Enter | Key::NumpadEnter => {
            let shown = match crate::nav::position_of(visible, highlight) {
                Some(_) => true,
                None => false,
            };
            if shown && highlight < n {
                ComboKeyOutcome { open: false, highlight, choose: Some(highlight) }
            } else {
                idle
            }
        },
        Key::Escape => ComboKeyOutcome { open: false, highlight, choose: None },
        _ => idle,
    }
}

/// The highlight after the filter changes: the first visible option, or 0 when nothing is visible.
pub fn first_visible(visible: &Vec<usize>) -> (r: usize)
    ensures
        r == if visible@.len() > 0 {
            visible@[0]
        } else {
            0
        },
{
    if visible.len() > 0 {
        visible[0]
    } else {
        0
    }
}

/// A click on option row `row` of an open panel of `n` options: it chooses that option and closes the
/// panel, the row being highlighted as the pointer is over it. A click outside the rows changes nothing.
pub fn dropdown_click(highlight: usize, n: usize, row: usize) -> (r: ListKeyOutcome)
    ensures
        if row < n {
            r.highlight == row && r.choose == Some(row) && r.close
        } else {
            r.highlight == highlight && r.choose is None && !r.close
        },
{
    if row < n {
        ListKeyOutcome { highlight: row, choose: Some(row), close: true }
    } else {
        ListKeyOutcome { highlight, choose: None, close: false }
    }
}

} // verus!
