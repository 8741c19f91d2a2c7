use vstd::prelude::*;

use crate::keys::Key;

verus! {

/// The direction an arrow key moves a selection: `Some(true)` forward (Down / Right), `Some(false)`
/// backward (Up / Left), `None` for any other key.
pub open spec fn spec_arrow_direction(key: Key) -> Option<bool> {
    if key == Key::ArrowDown || key == Key::ArrowRight {
        Some(true)
    } else if key == Key::ArrowUp || key == Key::ArrowLeft {
        Some(false)
    } else {
        None
    }
}

/// Executable form of [`spec_arrow_direction`].
pub fn arrow_direction(key: Key) -> (r: Option<bool>)
    ensures
        r == spec_arrow_direction(key),
{
    match key {
        Key::ArrowDown | Key::ArrowRight => Some(true),
        Key::ArrowUp | Key::ArrowLeft => Some(false),
        _ => None,
    }
}

/// One wrapping step over `n` entries: forward from `i` to `i + 1` (the last wraps to the first),
/// backward to `i - 1` (the first wraps to the last). With no current entry, forward starts at the first
/// and backward at the last.
pub open spec fn spec_wrap_step(cur: Option<usize>, n: usize, forward: bool) -> usize {
    match cur {
        Some(i) => if forward {
            if i + 1 == n {
                0
            } else {
                (i + 1) as usize
            }
        } else {
            if i == 0 {
                (n - 1) as usize
            } else {
                (i - 1) as usize
            }
        },
        None => if forward {
            0
        } else {
            (n - 1) as usize
        },
    }
}

/// Executable form of [`spec_wrap_step`].
pub fn wrap_step(cur: Option<usize>, n: usize, forward: bool) -> (r: usize)
    requires
        n > 0,
        cur matches Some(i) ==> i < n,
    ensures
        r == spec_wrap_step(cur, n, forward),
        r < n,
{
    match cur {
        Some(i) => if forward {
            if i + 1 == n {
                0
            } else {
                i + 1
            }
        } else {
            if i == 0 {
                n - 1
            } else {
                i - 1
            }
        },
        None => if forward {
            0
        } else {
            n - 1
        },
    }
}

/// A wrapping step back undoes a wrapping step forward, and the other way round.
pub proof fn lemma_wrap_step_inverse(i: usize, n: usize)
    requires
        i < n,
    ensures
        spec_wrap_step(Some(spec_wrap_step(Some(i), n, true)), n, false) == i,
        spec_wrap_step(Some(spec_wrap_step(Some(i), n, false)), n, true) == i,
{
}

/// The entry a wrapping selection group (radio group, segmented control) selects on a key press, given
/// the index `cur` of the currently selected entry among `n` (`None` when the bound value matches no
/// entry): arrows step with wrap-around; an auto-repeat, any other key, or an empty group selects
/// nothing new.
pub open spec fn spec_select_key(cur: Option<usize>, n: usize, key: Key, repeat: bool) -> Option<usize> {
    if repeat || n == 0 {
        None
    } else {
        match spec_arrow_direction(key) {
            Some(forward) => Some(spec_wrap_step(cur, n, forward)),
            None => None,
        }
    }
}

/// Executable form of [`spec_select_key`].
pub fn select_key(cur: Option<usize>, n: usize, key: Key, repeat: bool) -> (r: Option<usize>)
    requires
        cur matches Some(i) ==> i < n,
    ensures
        r == spec_select_key(cur, n, key, repeat),
        r matches Some(j) ==> j < n,
{
    if repeat || n == 0 {
        return None;
    }
    match arrow_direction(key) {
        Some(forward) => Some(wrap_step(cur, n, forward)),
        None => None,
    }
}

/// The entry a radio group or segmented control selects on a key press, `disabled` or not: a disabled
/// group has no key handler, so it never selects anything; an enabled one selects as [`spec_select_key`].
pub open spec fn spec_group_key(cur: Option<usize>, n: usize, key: Key, repeat: bool, disabled: bool) -> Option<usize> {
    if disabled {
        None
    } else {
        spec_select_key(cur, n, key, repeat)
    }
}

/// The entry a click on entry `entry` selects: that entry when the group is enabled, nothing when it is
/// disabled (a disabled group has no click handler).
pub open spec fn spec_group_click(entry: usize, disabled: bool) -> Option<usize> {
    if disabled {
        None
    } else {
        Some(entry)
    }
}

/// Executable form of [`spec_group_key`].
pub fn group_key(cur: Option<usize>, n: usize, key: Key, repeat: bool, disabled: bool) -> (r: Option<usize>)
    requires
        cur matches Some(i) ==> i < n,
    ensures
        r == spec_group_key(cur, n, key, repeat, disabled),
        r matches Some(j) ==> j < n,
{
    if disabled {
        None
    } else {
        select_key(cur, n, key, repeat)
    }
}

/// Executable form of [`spec_group_click`].
pub fn group_click(entry: usize, disabled: bool) -> (r: Option<usize>)
    ensures
        r == spec_group_click(entry, disabled),
{
    if disabled {
        None
    } else {
        Some(entry)
    }
}

/// In an enabled group of `n` entries with entry `i` selected, Down / Right select entry `(i + 1) % n`
/// and Up / Left entry `(i + n - 1) % n`; with no entry selected they select the first / the last. A
/// disabled group keeps its value under every key and click.
pub proof fn lemma_group_wraps_and_disabled_is_inert(
    cur: Option<usize>,
    n: usize,
    key: Key,
    repeat: bool,
    entry: usize,
)
    requires
        0 < n,
        cur matches Some(i) ==> i < n,
    ensures
        (key == Key::ArrowDown || key == Key::ArrowRight) ==> spec_group_key(cur, n, key, false, false) == Some(
            match cur {
                Some(i) => ((i + 1) % (n as int)) as usize,
                None => 0usize,
            },
        ),
        (key == Key::ArrowUp || key == Key::ArrowLeft) ==> spec_group_key(cur, n, key, false, false) == Some(
            match cur {
                Some(i) => ((i + n - 1) % (n as int)) as usize,
                None => (n - 1) as usize,
            },
        ),
        spec_group_key(cur, n, key, repeat, true) is None,
        spec_group_click(entry, true) is None,
        spec_group_click(entry, false) == Some(entry),
{
    match cur {
        Some(i) => {
            if i + 1 == n {
                assert((i + 1) % (n as int) == 0) by (nonlinear_arith)
                    requires
                        i + 1 == n,
                        n > 0,
                ;
            } else {
                assert((i + 1) % (n as int) == i + 1) by (nonlinear_arith)
                    requires
                        i + 1 < n,
                ;
            }
            if i == 0 {
                assert((i + n - 1) % (n as int) == n - 1) by (nonlinear_arith)
                    requires
                        i == 0,
                        n > 0,
                ;
            } else {
                assert((i + n - 1) % (n as int) == i - 1) by (nonlinear_arith)
                    requires
                        0 < i < n,
                ;
            }
        },
        None => {},
    }
}

/// The tab a tab strip of `n` tabs selects on a key press: like [`spec_select_key`], stepping from the
/// bound index clamped to the last tab.
pub open spec fn spec_tabs_key(selected: usize, n: usize, key: Key, repeat: bool) -> Option<usize> {
    let cur: usize = if selected < n {
        selected
    } else {
        (n - 1) as usize
    };
    spec_select_key(Some(cur), n, key, repeat)
}

/// Executable form of [`spec_tabs_key`].
pub fn tabs_key(selected: usize, n: usize, key: Key, repeat: bool) -> (r: Option<usize>)
    ensures
        r == spec_tabs_key(selected, n, key, repeat),
        r matches Some(j) ==> j < n,
{
    if repeat || n == 0 {
        return None;
    }
    let cur = if selected < n {
        selected
    } else {
        n - 1
    };
    select_key(Some(cur), n, key, repeat)
}

/// What a key press does in a multi-select toggle group of `n` segments with a roving focus at
/// `focused`: the new focus, and the segment to toggle (Space / Enter / NumpadEnter toggle the focused
/// one). Auto-repeats and an empty group change nothing.
#[derive(Clone, Copy, Debug)]
pub struct RovingOutcome {
    pub focused: usize,
    pub toggle: Option<usize>,
}

/// Specification of [`roving_key`].
pub open spec fn spec_roving_key(focused: usize, n: usize, key: Key, repeat: bool) -> RovingOutcome {
    if repeat || n == 0 {
        RovingOutcome { focused, toggle: None }
    } else if key == Key::ArrowRight || key == Key::ArrowDown {
        RovingOutcome { focused: spec_wrap_step(Some(focused), n, true), toggle: None }
    } else if key == Key::ArrowLeft || key == Key::ArrowUp {
        RovingOutcome { focused: spec_wrap_step(Some(focused), n, false), toggle: None }
    } else if crate::keys::is_activation_key(key) {
        RovingOutcome { focused, toggle: Some(focused) }
    } else {
        RovingOutcome { focused, toggle: None }
    }
}

/// The roving-focus key handler of a toggle group.
pub fn roving_key(focused: usize, n: usize, key: Key, repeat: bool) -> (r: RovingOutcome)
    requires
        n == 0 || focused < n,
    ensures
        r == spec_roving_key(focused, n, key, repeat),
        n > 0 ==> r.focused < n,
{
    if repeat || n == 0 {
        return RovingOutcome { focused, toggle: None };
    }
    match key {
        Key::ArrowRight | Key::ArrowDown => RovingOutcome {
            focused: wrap_step(Some(focused), n, true),
            toggle: None,
        },
        Key::ArrowLeft | Key::ArrowUp => RovingOutcome {
            focused: wrap_step(Some(focused), n, false),
            toggle: None,
        },
        Key::Space | Key::Enter | Key::NumpadEnter => RovingOutcome { focused, toggle: Some(focused) },
        _ => RovingOutcome { focused, toggle: None },
    }
}

/// The toggle-group key handler, `disabled` or not: a disabled group has no key handler, so neither its
/// focus nor its set changes; an enabled one reacts as [`spec_roving_key`].
pub open spec fn spec_toggle_group_key(focused: usize, n: usize, key: Key, repeat: bool, disabled: bool) -> RovingOutcome {
    if disabled {
        RovingOutcome { focused, toggle: None }
    } else {
        spec_roving_key(focused, n, key, repeat)
    }
}

/// Executable form of [`spec_toggle_group_key`].
pub fn toggle_group_key(focused: usize, n: usize, key: Key, repeat: bool, disabled: bool) -> (r: RovingOutcome)
    requires
        n == 0 || focused < n,
    ensures
        r == spec_toggle_group_key(focused, n, key, repeat, disabled),
        n > 0 ==> r.focused < n,
{
    if disabled {
        RovingOutcome { focused, toggle: None }
    } else {
        roving_key(focused, n, key, repeat)
    }
}

/// A click on segment `segment` of a toggle group whose roving focus is `focused`: an enabled group
/// toggles that segment and moves its focus there; a disabled group has no click handler and changes
/// nothing.
pub open spec fn spec_toggle_group_click(segment: usize, focused: usize, disabled: bool) -> RovingOutcome {
    if disabled {
        RovingOutcome { focused, toggle: None }
    } else {
        RovingOutcome { focused: segment, toggle: Some(segment) }
    }
}

/// Executable form of [`spec_toggle_group_click`].
pub fn toggle_group_click(segment: usize, focused: usize, disabled: bool) -> (r: RovingOutcome)
    ensures
        r == spec_toggle_group_click(segment, focused, disabled),
{
    if disabled {
        RovingOutcome { focused, toggle: None }
    } else {
        RovingOutcome { focused: segment, toggle: Some(segment) }
    }
}

/// A disabled toggle group toggles nothing and keeps its focus under every key and click.
pub proof fn lemma_disabled_toggle_group_is_inert(focused: usize, n: usize, key: Key, repeat: bool, segment: usize)
    ensures
        spec_toggle_group_key(focused, n, key, repeat, true) == (RovingOutcome { focused, toggle: None }),
        spec_toggle_group_click(segment, focused, true) == (RovingOutcome { focused, toggle: None }),
{
}

/// `p` is the first position of `x` in `s`.
pub open spec fn is_first_position(s: Seq<usize>, x: usize, p: int) -> bool {
    0 <= p < s.len() && s[p] == x && forall|j: int| 0 <= j < p ==> s[j] != x
}

/// The first position of `x` in `s`, if `x` occurs.
pub fn position_of(s: &Vec<usize>, x: usize) -> (r: Option<usize>)
    ensures
        r matches Some(p) ==> is_first_position(s@, x, p as int),
        r is None <==> !s@.contains(x),
{
    let mut i: usize = 0;
    while i < s.len()
        invariant
            i <= s.len(),
            forall|j: int| 0 <= j < i ==> s@[j] != x,
        decreases s.len() - i,
    {
        if s[i] == x {
            return Some(i);
        }
        i += 1;
    }
    None
}

/// The next highlighted entry when stepping through the `visible` entries from `current`: one place
/// forward or backward, stopping at the ends. A `current` that is not visible jumps to the first
/// visible entry; with nothing visible the highlight stays.
pub open spec fn spec_step_visible(visible: Seq<usize>, current: usize, forward: bool, p: int) -> usize {
    if forward {
        if p + 1 < visible.len() {
            visible[p + 1]
        } else {
            visible[visible.len() - 1]
        }
    } else {
        if p > 0 {
            visible[p - 1]
        } else {
            visible[0]
        }
    }
}

/// Steps a highlight through the `visible` entries (see [`spec_step_visible`]).
pub fn step_visible(visible: &Vec<usize>, current: usize, forward: bool) -> (r: usize)
    ensures
        visible@.len() == 0 ==> r == current,
        visible@.len() > 0 && !visible@.contains(current) ==> r == visible@[0],
        forall|p: int|
            is_first_position(visible@, current, p) ==> r == spec_step_visible(visible@, current, forward, p),
        visible@.len() > 0 ==> visible@.contains(r),
{
    if visible.len() == 0 {
        return current;
    }
    match position_of(visible, current) {
        Some(p) => {
            let np = if forward {
                if p + 1 < visible.len() {
                    p + 1
                } else {
                    visible.len() - 1
                }
            } else {
                if p > 0 {
                    p - 1
                } else {
                    0
                }
            };
            proof {
                assert forall|q: int| is_first_position(visible@, current, q) implies q == p by {
                    if q < p {
                    } else if q > p {
                    }
                }
            }
            visible[np]
        },
        None => visible[0],
    }
}

/// Stepping through the visible entries moves one entry at a time and stops at the ends: from the
/// visible entry at position `p`, forward lands on position `p + 1` (staying only on the last), backward
/// on position `p - 1` (staying only on the first).
pub proof fn lemma_step_visible_clamps(visible: Seq<usize>, current: usize, p: int)
    requires
        is_first_position(visible, current, p),
    ensures
        ({
            let f = spec_step_visible(visible, current, true, p);
            &&& (p + 1 < visible.len() ==> f == visible[p + 1])
            &&& (p + 1 == visible.len() ==> f == current)
        }),
        ({
            let b = spec_step_visible(visible, current, false, p);
            &&& (p > 0 ==> b == visible[p - 1])
            &&& (p == 0 ==> b == current)
        }),
{
}

} // verus!
