use vstd::prelude::*;

use crate::sort::{is_index_permutation, is_stable_order, lemma_permutation_covers, stable_order};

verus! {

/// A table's row selection: a single logical row index, or nothing.
#[derive(Clone, Copy, PartialEq, Eq, Structural, Debug)]
pub struct Selection(Option<usize>);

impl View for Selection {
    type V = Option<usize>;

    closed spec fn view(&self) -> Option<usize> {
        self.0
    }
}

impl Selection {
    /// Nothing selected.
    pub fn none() -> (r: Self)
        ensures
            r@ == None::<usize>,
    {
        Selection(None)
    }

    /// Selects the single logical row `row`.
    pub fn single(row: usize) -> (r: Self)
        ensures
            r@ == Some(row),
    {
        Selection(Some(row))
    }

    /// The selected logical row index, if any.
    pub fn selected(&self) -> (r: Option<usize>)
        ensures
            r == self@,
    {
        self.0
    }

    /// Whether `row` is the selected row.
    pub fn is_selected(&self, row: usize) -> (r: bool)
        ensures
            r == (self@ == Some(row)),
    {
        match self.0 {
            Some(s) => s == row,
            None => false,
        }
    }
}

impl Default for Selection {
    fn default() -> (r: Self)
        ensures
            r@ == None::<usize>,
    {
        Selection(None)
    }
}

/// A column's sort direction.
#[derive(Clone, Copy, PartialEq, Eq, Structural, Debug)]
pub enum SortDir {
    Asc,
    Desc,
}

/// The sort state after a click on the header of sortable column `col`: a column that is not the sorted
/// one starts ascending, ascending turns descending, descending turns the sort off.
pub open spec fn spec_next_sort(current: Option<(usize, SortDir)>, col: usize) -> Option<(usize, SortDir)> {
    match current {
        Some((c, SortDir::Asc)) if c == col => Some((col, SortDir::Desc)),
        Some((c, SortDir::Desc)) if c == col => None,
        _ => Some((col, SortDir::Asc)),
    }
}

/// The header-click cycle of a sortable column (asc → desc → none).
pub fn next_sort(current: Option<(usize, SortDir)>, col: usize) -> (r: Option<(usize, SortDir)>)
    ensures
        r == spec_next_sort(current, col),
{
    match current {
        Some((c, SortDir::Asc)) if c == col => Some((col, SortDir::Desc)),
        Some((c, SortDir::Desc)) if c == col => None,
        _ => Some((col, SortDir::Asc)),
    }
}

/// Three clicks on the same header bring an unsorted table back to its original (unsorted) state,
/// passing through ascending and then descending.
pub proof fn lemma_sort_cycle(col: usize)
    ensures
        spec_next_sort(None, col) == Some((col, SortDir::Asc)),
        spec_next_sort(spec_next_sort(None, col), col) == Some((col, SortDir::Desc)),
        spec_next_sort(spec_next_sort(spec_next_sort(None, col), col), col) == None::<(usize, SortDir)>,
{
}

/// The identity row order `0..count`.
pub open spec fn identity_order(count: nat) -> Seq<usize> {
    Seq::new(count, |i: int| i as usize)
}

/// Whether `sort` names a sortable column (one that carries sort keys).
pub open spec fn sorts_by(column_keys: Seq<Option<Vec<i64>>>, sort: Option<(usize, SortDir)>) -> bool {
    match sort {
        Some((c, _)) => c < column_keys.len() && column_keys[c as int] is Some,
        None => false,
    }
}

/// A sortable column's keys cover exactly `count` rows.
pub open spec fn keys_fit(keys: Option<Vec<i64>>, count: nat) -> bool {
    match keys {
        Some(k) => k@.len() == count,
        None => true,
    }
}

/// The row keys of the column that `sort` names.
pub open spec fn sort_keys(column_keys: Seq<Option<Vec<i64>>>, sort: Option<(usize, SortDir)>) -> Seq<i64> {
    match sort {
        Some((c, _)) => match column_keys[c as int] {
            Some(k) => k@,
            None => Seq::empty(),
        },
        None => Seq::empty(),
    }
}

/// Whether `sort` is descending.
pub open spec fn sort_is_desc(sort: Option<(usize, SortDir)>) -> bool {
    match sort {
        Some((_, d)) => d == SortDir::Desc,
        None => false,
    }
}

/// The display → logical row permutation for `sort`. `column_keys[c]` holds the sort key of every row
/// for a sortable column `c` (and is `None` for a column that does not sort). With a sortable column the
/// rows are ordered stably by its keys (reversed for `Desc`, equal keys keeping their input order);
/// otherwise the order is the identity, which is also what turning the sort off restores.
pub fn sort_order(
    sort: Option<(usize, SortDir)>,
    column_keys: &Vec<Option<Vec<i64>>>,
    count: usize,
) -> (order: Vec<usize>)
    requires
        forall|c: int| 0 <= c < column_keys.len() ==> keys_fit(#[trigger] column_keys@[c], count as nat),
    ensures
        is_index_permutation(order@, count as int),
        sorts_by(column_keys@, sort) ==> is_stable_order(
            sort_keys(column_keys@, sort),
            sort_is_desc(sort),
            order@,
        ),
        !sorts_by(column_keys@, sort) ==> order@ == identity_order(count as nat),
{
    if let Some((col, dir)) = sort {
        if col < column_keys.len() {
            if let Some(keys) = &column_keys[col] {
                proof {
                    assert(keys_fit(column_keys@[col as int], count as nat));
                }
                return stable_order(keys, dir == SortDir::Desc);
            }
        }
    }
    let mut order: Vec<usize> = Vec::new();
    for i in 0..count
        invariant
            order@ == identity_order(i as nat),
    {
        order.push(i);
    }
    order
}

/// The sort state after a click on the header of column `col`: a sortable column cycles its sort (see
/// [`spec_next_sort`]); a column without sort keys has no click handler, so the state stays.
pub fn header_click(current: Option<(usize, SortDir)>, col: usize, sortable: bool) -> (r: Option<(usize, SortDir)>)
    ensures
        r == if sortable {
            spec_next_sort(current, col)
        } else {
            current
        },
{
    if sortable {
        next_sort(current, col)
    } else {
        current
    }
}

/// The indicator after a sortable column's header: an up triangle while the table sorts ascending by
/// it, a down triangle while descending, none otherwise.
pub fn sort_indicator(current: Option<(usize, SortDir)>, col: usize) -> (r: Option<char>)
    ensures
        r == match current {
            Some((c, SortDir::Asc)) if c == col => Some('\u{25B2}'),
            Some((c, SortDir::Desc)) if c == col => Some('\u{25BC}'),
            _ => None::<char>,
        },
{
    match current {
        Some((c, SortDir::Asc)) if c == col => Some('\u{25B2}'),
        Some((c, SortDir::Desc)) if c == col => Some('\u{25BC}'),
        _ => None,
    }
}

/// The selection names a logical row, so it rides every re-sort: in any row order the table shows (a
/// permutation of its rows, as [`sort_order`] gives for every sort state), the selected row sits in
/// exactly one slot, and that slot is the only one that shows as selected. With nothing selected no
/// slot does.
pub proof fn lemma_selection_follows_the_row(order: Seq<usize>, count: int, sel: Selection)
    requires
        is_index_permutation(order, count),
        sel@ matches Some(row) ==> row < count,
    ensures
        sel@ matches Some(row) ==> exists|slot: int|
            0 <= slot < count && order[slot] == row && forall|other: int|
                0 <= other < count && other != slot ==> sel@ != Some(#[trigger] order[other]),
        sel@ is None ==> forall|slot: int| 0 <= slot < count ==> sel@ != Some(#[trigger] order[slot]),
{
    if let Some(row) = sel@ {
        lemma_permutation_covers(order, count, row as int);
        let slot = choose|k: int| 0 <= k < count && order[k] == row;
        assert forall|other: int| 0 <= other < count && other != slot implies sel@ != Some(
            #[trigger] order[other],
        ) by {
            if other < slot {
            } else {
            }
        }
    }
}

} // verus!
