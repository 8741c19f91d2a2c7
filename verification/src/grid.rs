use vstd::prelude::*;

use crate::keys::{Key, is_activation_key};

verus! {

/// A grid's item selection: a single item index, or nothing.
#[derive(Clone, Copy, PartialEq, Eq, Structural, Debug)]
pub struct GridSelection(Option<usize>);

impl View for GridSelection {
    type V = Option<usize>;

    closed spec fn view(&self) -> Option<usize> {
        self.0
    }
}

impl GridSelection {
    /// Nothing selected.
    pub fn none() -> (r: Self)
        ensures
            r@ == None::<usize>,
    {
        GridSelection(None)
    }

    /// Selects the single item `i`.
    pub fn single(i: usize) -> (r: Self)
        ensures
            r@ == Some(i),
    {
        GridSelection(Some(i))
    }

    /// The selected item index, if any.
    pub fn selected(&self) -> (r: Option<usize>)
        ensures
            r == self@,
    {
        self.0
    }

    /// Whether item `i` is the selected one.
    pub fn is_selected(&self, i: usize) -> (r: bool)
        ensures
            r == (self@ == Some(i)),
    {
        match self.0 {
            Some(s) => s == i,
            None => false,
        }
    }
}

impl Default for GridSelection {
    fn default() -> (r: Self)
        ensures
            r@ == None::<usize>,
    {
        GridSelection(None)
    }
}

/// What a key press on a grid does.
#[derive(Clone, Copy, PartialEq, Eq, Structural, Debug)]
pub enum GridKeyOutcome {
    /// Nothing changes.
    Ignore,
    /// Activate the selected item (Enter / Space / NumpadEnter on a selected item, not an auto-repeat).
    Activate(usize),
    /// Select this item and scroll its row (`item / cols`) into view.
    Select(usize),
}

/// The item an arrow key moves the selection `i` to in a grid of `count` items laid out `cols` per row:
/// Right / Left move within the row without wrapping past its edge, Down / Up move a whole row and stay
/// put when there is no item directly below / above.
pub open spec fn spec_grid_move(i: usize, key: Key, count: usize, cols: usize) -> usize {
    if key == Key::ArrowRight {
        if i % cols != cols - 1 && i + 1 < count {
            (i + 1) as usize
        } else {
            i
        }
    } else if key == Key::ArrowLeft {
        if i % cols != 0 {
            (i - 1) as usize
        } else {
            i
        }
    } else if key == Key::ArrowDown {
        if i + cols < count {
            (i + cols) as usize
        } else {
            i
        }
    } else {
        if i >= cols {
            (i - cols) as usize
        } else {
            i
        }
    }
}

/// Whether `key` is one of the four arrows.
pub open spec fn is_arrow(key: Key) -> bool {
    key == Key::ArrowUp || key == Key::ArrowDown || key == Key::ArrowLeft || key == Key::ArrowRight
}

/// The grid key handler: on an empty grid nothing happens. With a selected item, an activation key
/// activates it (a held, auto-repeating key does not re-activate) and an arrow moves it
/// ([`spec_grid_move`]). With no selection, an arrow or an activation key selects the first item. A move
/// that lands where the selection already is does nothing.
pub open spec fn spec_grid_key(cur: Option<usize>, key: Key, repeat: bool, count: usize, cols: usize) -> GridKeyOutcome {
    if count == 0 {
        GridKeyOutcome::Ignore
    } else {
        match cur {
            Some(i) => if is_activation_key(key) {
                if repeat {
                    GridKeyOutcome::Ignore
                } else {
                    GridKeyOutcome::Activate(i)
                }
            } else if is_arrow(key) {
                let next = spec_grid_move(i, key, count, cols);
                if next == i {
                    GridKeyOutcome::Ignore
                } else {
                    GridKeyOutcome::Select(next)
                }
            } else {
                GridKeyOutcome::Ignore
            },
            None => if is_arrow(key) || is_activation_key(key) {
                GridKeyOutcome::Select(0)
            } else {
                GridKeyOutcome::Ignore
            },
        }
    }
}

/// Executable form of [`spec_grid_key`].
pub fn grid_key(cur: Option<usize>, key: Key, repeat: bool, count: usize, cols: usize) -> (r: GridKeyOutcome)
    requires
        cols > 0,
        cur matches Some(i) ==> (key == Key::ArrowDown ==> i + cols <= usize::MAX),
        cur matches Some(i) ==> (key == Key::ArrowRight && i % cols != cols - 1 ==> i < usize::MAX),
    ensures
        r == spec_grid_key(cur, key, repeat, count, cols),
{
    if count == 0 {
        return GridKeyOutcome::Ignore;
    }
    match cur {
        Some(i) => {
            if key == Key::Enter || key == Key::NumpadEnter || key == Key::Space {
                return if repeat {
                    GridKeyOutcome::Ignore
                } else {
                    GridKeyOutcome::Activate(i)
                };
            }
            let next = match key {
                Key::ArrowRight => if i % cols != cols - 1 && i + 1 < count {
                    i + 1
                } else {
                    i
                },
                Key::ArrowLeft => if i % cols != 0 {
                    proof {
                        if i == 0 {
                            vstd::arithmetic::div_mod::lemma_small_mod(0, cols as nat);
                        }
                    }
                    i - 1
                } else {
                    i
                },
                Key::ArrowDown => if i + cols < count {
                    i + cols
                } else {
                    i
                },
                Key::ArrowUp => if i >= cols {
                    i - cols
                } else {
                    i
                },
                _ => return GridKeyOutcome::Ignore,
            };
            if next == i {
                GridKeyOutcome::Ignore
            } else {
                GridKeyOutcome::Select(next)
            }
        },
        None => match key {
            Key::ArrowRight | Key::ArrowLeft | Key::ArrowDown | Key::ArrowUp | Key::Enter
            | Key::NumpadEnter | Key::Space => GridKeyOutcome::Select(0),
            _ => GridKeyOutcome::Ignore,
        },
    }
}

/// Navigation never leaves the grid: from an item inside it, every selection a key makes is an item
/// inside it (no `usize` underflow, no phantom cell past the last item).
pub proof fn lemma_grid_key_in_range(cur: Option<usize>, key: Key, repeat: bool, count: usize, cols: usize)
    requires
        cols > 0,
        cur matches Some(i) ==> i < count,
    ensures
        spec_grid_key(cur, key, repeat, count, cols) matches GridKeyOutcome::Select(j) ==> j < count,
        spec_grid_key(cur, key, repeat, count, cols) matches GridKeyOutcome::Activate(j) ==> cur == Some(j),
{
    vstd::arithmetic::div_mod::lemma_small_mod(0, cols as nat);
}

/// Opposite moves undo each other: when Right (Down) moves the selection, Left (Up) brings it back.
pub proof fn lemma_grid_moves_undo(i: usize, count: usize, cols: usize)
    requires
        cols > 0,
        i < count,
    ensures
        spec_grid_move(i, Key::ArrowRight, count, cols) != i ==> spec_grid_move(
            spec_grid_move(i, Key::ArrowRight, count, cols),
            Key::ArrowLeft,
            count,
            cols,
        ) == i,
        spec_grid_move(i, Key::ArrowDown, count, cols) != i ==> spec_grid_move(
            spec_grid_move(i, Key::ArrowDown, count, cols),
            Key::ArrowUp,
            count,
            cols,
        ) == i,
{
    let q = i as int / cols as int;
    let r = i as int % cols as int;
    vstd::arithmetic::div_mod::lemma_fundamental_div_mod(i as int, cols as int);
    vstd::arithmetic::div_mod::lemma_mod_pos_bound(i as int, cols as int);
    vstd::arithmetic::mul::lemma_mul_is_commutative(cols as int, q);
    if spec_grid_move(i, Key::ArrowRight, count, cols) != i {
        assert(r + 1 < cols);
        vstd::arithmetic::div_mod::lemma_fundamental_div_mod_converse_mod(i + 1, cols as int, q, r + 1);
    }
}

/// The number of rows `count` items fill at `cols` per row (a partial last row counts; no phantom row).
pub open spec fn spec_row_count(count: usize, cols: usize) -> int {
    (count + cols - 1) / (cols as int)
}

/// The number of grid rows for `count` items at `cols` per row.
pub fn row_count(count: usize, cols: usize) -> (r: usize)
    requires
        cols > 0,
    ensures
        r == spec_row_count(count, cols),
{
    let q = count / cols;
    let r = count % cols;
    proof {
        vstd::arithmetic::div_mod::lemma_fundamental_div_mod(count as int, cols as int);
        vstd::arithmetic::div_mod::lemma_mod_pos_bound(count as int, cols as int);
        vstd::arithmetic::mul::lemma_mul_is_commutative(cols as int, q as int);
        vstd::arithmetic::mul::lemma_mul_is_distributive_add(cols as int, q as int, 1);
    }
    if r == 0 {
        proof {
            vstd::arithmetic::div_mod::lemma_fundamental_div_mod_converse_div(
                count + cols - 1,
                cols as int,
                q as int,
                cols - 1,
            );
        }
        q
    } else {
        proof {
            assert(count + cols - 1 == (q + 1) * cols + (r - 1)) by (nonlinear_arith)
                requires
                    count == cols * q + r,
            ;
            vstd::arithmetic::div_mod::lemma_fundamental_div_mod_converse_div(
                count + cols - 1,
                cols as int,
                q + 1,
                r - 1,
            );
            assert(q * cols <= count) by (nonlinear_arith)
                requires
                    count == cols * q + r,
                    r >= 0,
            ;
            assert(q + 1 <= count) by (nonlinear_arith)
                requires
                    q * cols <= count,
                    cols >= 1,
                    r >= 1,
                    count == cols * q + r,
            ;
        }
        q + 1
    }
}

/// The items of grid row `row`: `row * cols` up to (not including) `min(count, row * cols + cols)`; a
/// partial last row holds only its real items.
pub fn row_items(row: usize, cols: usize, count: usize) -> (r: (usize, usize))
    requires
        row * cols + cols <= usize::MAX,
    ensures
        r.0 == row * cols,
        r.1 == if row * cols + cols < count {
            row * cols + cols
        } else {
            count as int
        },
{
    let start = row * cols;
    let end = if start + cols < count {
        start + cols
    } else {
        count
    };
    (start, end)
}

/// Arrow keys move a grid selection along its row or its column and never wrap: with item `i` of
/// `count` selected in a grid of `cols` columns, Left / Right select the neighbour in the same row
/// (`i - 1` / `i + 1`) and do nothing at the row's first / last column (or past the last item); Up /
/// Down select the item in the same column one row up / down (`i - cols` / `i + cols`) and do nothing
/// on the first row / when no item lies below.
pub proof fn lemma_grid_arrows_stay_in_line(i: usize, count: usize, cols: usize)
    requires
        cols > 0,
        i < count,
    ensures
        ({
            let o = spec_grid_key(Some(i), Key::ArrowLeft, false, count, cols);
            &&& (i % cols == 0 <==> o == GridKeyOutcome::Ignore)
            &&& (o matches GridKeyOutcome::Select(j) ==> j + 1 == i && j / cols == i / cols)
        }),
        ({
            let o = spec_grid_key(Some(i), Key::ArrowRight, false, count, cols);
            &&& (i % cols == cols - 1 || i + 1 == count <==> o == GridKeyOutcome::Ignore)
            &&& (o matches GridKeyOutcome::Select(j) ==> j == i + 1 && j / cols == i / cols)
        }),
        ({
            let o = spec_grid_key(Some(i), Key::ArrowUp, false, count, cols);
            &&& (i < cols <==> o == GridKeyOutcome::Ignore)
            &&& (o matches GridKeyOutcome::Select(j) ==> j + cols == i && j % cols == i % cols)
        }),
        ({
            let o = spec_grid_key(Some(i), Key::ArrowDown, false, count, cols);
            &&& (i + cols >= count <==> o == GridKeyOutcome::Ignore)
            &&& (o matches GridKeyOutcome::Select(j) ==> j == i + cols && j % cols == i % cols)
        }),
{
    let q = i as int / cols as int;
    let r = i as int % cols as int;
    vstd::arithmetic::div_mod::lemma_fundamental_div_mod(i as int, cols as int);
    vstd::arithmetic::div_mod::lemma_mod_pos_bound(i as int, cols as int);
    vstd::arithmetic::mul::lemma_mul_is_commutative(cols as int, q);
    if r > 0 {
        vstd::arithmetic::div_mod::lemma_fundamental_div_mod_converse(i - 1, cols as int, q, r - 1);
    }
    if r + 1 < cols {
        vstd::arithmetic::div_mod::lemma_fundamental_div_mod_converse(i + 1, cols as int, q, r + 1);
    }
    if i >= cols {
        assert(q >= 1) by {
            if q <= 0 {
                assert(q * cols <= 0) by (nonlinear_arith)
                    requires
                        q <= 0,
                        cols > 0,
                ;
            }
        }
        assert((q - 1) * cols == q * cols - cols) by (nonlinear_arith);
        vstd::arithmetic::div_mod::lemma_fundamental_div_mod_converse(i - cols, cols as int, q - 1, r);
    } else {
        assert(q == 0) by {
            if q >= 1 {
                assert(q * cols >= cols) by (nonlinear_arith)
                    requires
                        q >= 1,
                        cols > 0,
                ;
            }
        }
    }
    assert((q + 1) * cols == q * cols + cols) by (nonlinear_arith);
    vstd::arithmetic::div_mod::lemma_fundamental_div_mod_converse(i + cols, cols as int, q + 1, r);
    if i == 0 {
        vstd::arithmetic::div_mod::lemma_small_mod(0, cols as nat);
    }
}

} // verus!
