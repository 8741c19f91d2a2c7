use vstd::prelude::*;

use crate::keys::Key;

verus! {

/// One row of a menu: a selectable item, with its label and the action run when it is chosen, or a
/// divider.
#[derive(Debug)]
pub enum MenuEntry<A> {
    Item { label: String, action: A },
    Separator,
}

impl<A> MenuEntry<A> {
    /// Whether this row is a selectable item.
    pub open spec fn spec_is_item(&self) -> bool {
        self is Item
    }

    /// Whether this row is a selectable item.
    pub fn is_item(&self) -> (r: bool)
        ensures
            r == self.spec_is_item(),
    {
        match self {
            MenuEntry::Item { .. } => true,
            MenuEntry::Separator => false,
        }
    }
}

/// The index of the first selectable entry, or 0 when there is none.
pub open spec fn spec_first_selectable<A>(entries: Seq<MenuEntry<A>>) -> int {
    if exists|i: int| 0 <= i < entries.len() && entries[i].spec_is_item() {
        choose|i: int|
            0 <= i < entries.len() && entries[i].spec_is_item() && forall|j: int|
                0 <= j < i ==> !entries[j].spec_is_item()
    } else {
        0
    }
}

/// The index of the first selectable (non-separator) entry, or 0 if there are none.
pub fn first_selectable<A>(entries: &Vec<MenuEntry<A>>) -> (r: usize)
    ensures
        r == spec_first_selectable(entries@),
        (exists|i: int| 0 <= i < entries@.len() && entries@[i].spec_is_item()) ==> {
            &&& r < entries@.len()
            &&& entries@[r as int].spec_is_item()
            &&& forall|j: int| 0 <= j < r ==> !entries@[j].spec_is_item()
        },
{
    let mut i: usize = 0;
    while i < entries.len()
        invariant
            i <= entries.len(),
            forall|j: int| 0 <= j < i ==> !entries@[j].spec_is_item(),
        decreases entries.len() - i,
    {
        if entries[i].is_item() {
            proof {
                let c = choose|c: int|
                    0 <= c < entries@.len() && entries@[c].spec_is_item() && forall|j: int|
                        0 <= j < c ==> !entries@[j].spec_is_item();
                if c < i {
                } else if c > i {
                }
            }
            return i;
        }
        i += 1;
    }
    0
}

/// The entry `k` steps from `from` (`0 < k <= n`, `from < n`) in a wrapping list of `n` entries, forward
/// or backward.
pub open spec fn step_target(from: int, k: int, n: int, forward: bool) -> int {
    if forward {
        if from + k < n {
            from + k
        } else {
            from + k - n
        }
    } else {
        if from >= k {
            from - k
        } else {
            from - k + n
        }
    }
}

/// `r` is where stepping from `from` lands: with entries, the first item met walking one step at a time
/// (wrapping) in the given direction, or `from` itself when no step meets an item; `0` for an empty menu.
/// A `from` past the end (a stale highlight) steps as its remainder modulo the number of entries, as
/// `(from + 1) % n` and `(from + n - 1) % n` do.
pub open spec fn is_step_selectable<A>(entries: Seq<MenuEntry<A>>, from: int, forward: bool, r: int) -> bool {
    let n = entries.len() as int;
    let f = from % n;
    if n == 0 {
        r == 0
    } else {
        ||| (exists|k: int|
            1 <= k <= n && r == step_target(f, k, n, forward) && entries[r].spec_is_item() && forall|j: int|
                1 <= j < k ==> !(#[trigger] entries[step_target(f, j, n, forward)]).spec_is_item())
        ||| (r == from && forall|k: int|
            1 <= k <= n ==> !(#[trigger] entries[step_target(f, k, n, forward)]).spec_is_item())
    }
}

/// The next selectable index from `from`, skipping separators and wrapping around: the first item met
/// walking one step at a time in the given direction, or `from` itself when no other item exists. The
/// first step is `(from + 1) % n` forward and `(from + n - 1) % n` backward, so those sums must not
/// overflow.
pub fn step_selectable<A>(entries: &Vec<MenuEntry<A>>, from: usize, forward: bool) -> (r: usize)
    requires
        entries.len() > 0 && forward ==> from < usize::MAX,
        entries.len() > 0 && !forward ==> from + entries.len() - 1 <= usize::MAX,
    ensures
        is_step_selectable(entries@, from as int, forward, r as int),
        entries.len() > 0 ==> r < entries.len() || r == from,
{
    let n = entries.len();
    if n == 0 {
        return 0;
    }
    let f = from % n;
    let mut i = f;
    let mut k: usize = 0;
    while k < n
        invariant
            n == entries.len(),
            f == from as int % n as int,
            f < n,
            k <= n,
            i < n,
            k == 0 ==> i == f,
            k > 0 ==> i == step_target(f as int, k as int, n as int, forward),
            forall|j: int| 1 <= j <= k ==> !(#[trigger] entries@[step_target(f as int, j, n as int, forward)]).spec_is_item(),
        decreases n - k,
    {
        i = if forward {
            if i + 1 == n {
                0
            } else {
                i + 1
            }
        } else {
            if i == 0 {
                n - 1
            } else {
                i - 1
            }
        };
        k += 1;
        assert(i == step_target(f as int, k as int, n as int, forward));
        if entries[i].is_item() {
            return i;
        }
    }
    from
}

/// What a key press in an open menu does: the new highlight, the item to run (its select callback runs
/// and the menu closes), and whether the menu closes.
#[derive(Clone, Copy, Debug)]
pub struct MenuKeyOutcome {
    pub highlight: usize,
    pub run: Option<usize>,
    pub close: bool,
}

/// The open menu's key handler: Down / Up move the highlight to the next / previous item (skipping
/// separators, wrapping; a highlight past the end steps from its remainder); Enter runs the highlighted
/// item and closes; Escape closes. Auto-repeats and other keys do nothing.
pub fn menu_key<A>(entries: &Vec<MenuEntry<A>>, highlight: usize, key: Key, repeat: bool) -> (r: MenuKeyOutcome)
    requires
        entries.len() > 0 && !repeat && key == Key::ArrowDown ==> highlight < usize::MAX,
        entries.len() > 0 && !repeat && key == Key::ArrowUp ==> highlight + entries.len() - 1 <= usize::MAX,
    ensures
        repeat ==> r.highlight == highlight && r.run is None && !r.close,
        !repeat && key == Key::ArrowDown ==> r.run is None && !r.close && is_step_selectable(entries@, highlight as int, true, r.highlight as int),
        !repeat && key == Key::ArrowUp ==> r.run is None && !r.close && is_step_selectable(entries@, highlight as int, false, r.highlight as int),
        !repeat && key == Key::Enter ==> r.highlight == highlight && (if highlight < entries@.len()
            && entries@[highlight as int].spec_is_item() {
            r.run == Some(highlight) && r.close
        } else {
            r.run is None && !r.close
        }),
        !repeat && key == Key::Escape ==> r.highlight == highlight && r.run is None && r.close,
        !repeat && key != Key::ArrowDown && key != Key::ArrowUp && key != Key::Enter && key
            != Key::Escape ==> r.highlight == highlight && r.run is None && !r.close,
{
    let idle = MenuKeyOutcome { highlight, run: None, close: false };
    if repeat {
        return idle;
    }
    match key {
        Key::ArrowDown => MenuKeyOutcome {
            highlight: step_selectable(entries, highlight, true),
            run: None,
            close: false,
        },
        Key::ArrowUp => MenuKeyOutcome {
            highlight: step_selectable(entries, highlight, false),
            run: None,
            close: false,
        },
        Key::Enter => {
            if highlight < entries.len() && entries[highlight].is_item() {
                MenuKeyOutcome { highlight, run: Some(highlight), close: true }
            } else {
                idle
            }
        },
        Key::Escape => MenuKeyOutcome { highlight, run: None, close: true },
        _ => idle,
    }
}

/// A click on row `row` of the open menu: an item row runs that item and closes the menu (the row is
/// highlighted, as the pointer is over it); a separator does nothing.
pub fn menu_click<A>(entries: &Vec<MenuEntry<A>>, highlight: usize, row: usize) -> (r: MenuKeyOutcome)
    ensures
        if row < entries@.len() && entries@[row as int].spec_is_item() {
            r.highlight == row && r.run == Some(row) && r.close
        } else {
            r.highlight == highlight && r.run is None && !r.close
        },
{
    if row < entries.len() && entries[row].is_item() {
        MenuKeyOutcome { highlight: row, run: Some(row), close: true }
    } else {
        MenuKeyOutcome { highlight, run: None, close: false }
    }
}

} // verus!
