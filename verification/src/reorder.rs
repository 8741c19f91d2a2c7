use vstd::prelude::*;

use crate::keys::Key;

verus! {

broadcast use vstd::seq_lib::group_seq_properties;

/// The position the moved item takes once it has been removed: one less than `insert_before` when it came
/// from above that position.
pub open spec fn landing(from: int, insert_before: int) -> int {
    if from < insert_before {
        insert_before - 1
    } else {
        insert_before
    }
}

/// `s` with `s[from]` moved to sit before the original position `insert_before` (`0..=len`): the item is
/// removed and re-inserted at [`landing`], clipped to the end. An out-of-range `from` leaves `s` as is.
pub open spec fn moved<T>(s: Seq<T>, from: int, insert_before: int) -> Seq<T> {
    if 0 <= from < s.len() {
        let rest = s.remove(from);
        let to = landing(from, insert_before);
        let at = if to < rest.len() {
            to
        } else {
            rest.len() as int
        };
        rest.insert(at, s[from])
    } else {
        s
    }
}

/// Moves `v[from]` so it sits before the original position `insert_before`; see [`moved`].
pub fn move_item<T>(v: &mut Vec<T>, from: usize, insert_before: usize)
    ensures
        final(v)@ == moved(old(v)@, from as int, insert_before as int),
{
    if from >= v.len() {
        return;
    }
    let item = v.remove(from);
    let to = if from < insert_before {
        insert_before - 1
    } else {
        insert_before
    };
    let at = if to < v.len() {
        to
    } else {
        v.len()
    };
    v.insert(at, item);
}

/// The indices `0..len` in order.
pub open spec fn index_range(len: nat) -> Seq<usize> {
    Seq::new(len, |i: int| i as usize)
}

/// The tentative visual order of the original indices during a drag: `0..len` with `from` relocated
/// exactly as [`move_item`] relocates an item.
pub fn reflow_order(len: usize, from: usize, to: usize) -> (r: Vec<usize>)
    ensures
        r@ == moved(index_range(len as nat), from as int, to as int),
{
    let mut order: Vec<usize> = Vec::new();
    for i in 0..len
        invariant
            order@ == index_range(i as nat),
    {
        order.push(i);
    }
    move_item(&mut order, from, to);
    order
}

/// Where the moved item ends up in a list of `len` items (`len > 0` after the move): the highlight
/// follows it there once a drop commits.
pub open spec fn spec_final_index(from: int, insert_before: int, len: int) -> int {
    let to = landing(from, insert_before);
    if to < len - 1 {
        to
    } else {
        len - 1
    }
}

/// The index the keyboard highlight takes after a drop of `from` before `insert_before` commits, for a
/// list of `len` items.
pub fn committed_index(from: usize, insert_before: usize, len: usize) -> (r: usize)
    requires
        len > 0,
    ensures
        r == spec_final_index(from as int, insert_before as int, len as int),
{
    let to = if from < insert_before {
        insert_before - 1
    } else {
        insert_before
    };
    if to < len - 1 {
        to
    } else {
        len - 1
    }
}

/// A move keeps every item: the result has the same length and the same items, counted with
/// multiplicity.
pub proof fn lemma_moved_is_permutation<T>(s: Seq<T>, from: int, insert_before: int)
    requires
        0 <= insert_before,
    ensures
        moved(s, from, insert_before).len() == s.len(),
        moved(s, from, insert_before).to_multiset() == s.to_multiset(),
{
    broadcast use vstd::multiset::group_multiset_axioms;

    if 0 <= from < s.len() {
        let rest = s.remove(from);
        let to = landing(from, insert_before);
        let at = if to < rest.len() {
            to
        } else {
            rest.len() as int
        };
        rest.insert_ensures(at, s[from]);
        s.to_multiset_ensures();
        rest.to_multiset_ensures();
        rest.insert(at, s[from]).to_multiset_ensures();
        assert(rest.insert(at, s[from]) =~= rest.subrange(0, at).push(s[from]) + rest.subrange(
            at,
            rest.len() as int,
        ));
        vstd::seq_lib::lemma_multiset_commutative(rest.subrange(0, at).push(s[from]), rest.subrange(at, rest.len() as int));
        vstd::seq_lib::lemma_multiset_commutative(rest.subrange(0, at), rest.subrange(at, rest.len() as int));
        assert(rest =~= rest.subrange(0, at) + rest.subrange(at, rest.len() as int));
        assert(s.remove(from).to_multiset() == s.to_multiset().remove(s[from]));
    }
}

/// After a committed move the highlighted index holds the moved item.
pub proof fn lemma_final_index_holds_item<T>(s: Seq<T>, from: int, insert_before: int)
    requires
        0 <= from < s.len(),
        0 <= insert_before,
    ensures
        moved(s, from, insert_before)[spec_final_index(from, insert_before, s.len() as int)] == s[from],
{
}

/// The live preview shows exactly what a drop commits: the items taken in the reflowed order of their
/// indices are the items after the move, and the placeholder gap (the dragged index's slot) is where the
/// moved item lands.
pub proof fn lemma_preview_matches_commit<T>(s: Seq<T>, from: int, insert_before: int)
    requires
        0 <= from < s.len(),
        0 <= insert_before,
        s.len() <= usize::MAX,
    ensures
        moved(index_range(s.len()), from, insert_before).len() == s.len(),
        moved(s, from, insert_before) == moved(index_range(s.len()), from, insert_before).map_values(
            |k: usize| s[k as int],
        ),
        moved(index_range(s.len()), from, insert_before)[spec_final_index(
            from,
            insert_before,
            s.len() as int,
        )] == from,
{
    let idx = index_range(s.len());
    let rest = s.remove(from);
    let irest = idx.remove(from);
    assert forall|j: int| 0 <= j < irest.len() implies irest[j] as int == if j < from {
        j
    } else {
        j + 1
    } by {}
    assert(irest.map_values(|k: usize| s[k as int]) =~= rest);
    assert(moved(s, from, insert_before) =~= moved(idx, from, insert_before).map_values(
        |k: usize| s[k as int],
    ));
}

/// Dropping an item onto its own edges (before itself, or just after itself) changes nothing.
pub proof fn lemma_move_onto_own_edges<T>(s: Seq<T>, from: int)
    requires
        0 <= from < s.len(),
    ensures
        moved(s, from, from) == s,
        moved(s, from, from + 1) == s,
{
    assert(moved(s, from, from) =~= s);
    assert(moved(s, from, from + 1) =~= s);
}

/// A keyboard move down (before `i + 2`) followed by a move back up (before `i`) restores the list.
pub proof fn lemma_move_down_then_up<T>(s: Seq<T>, i: int)
    requires
        0 <= i,
        i + 1 < s.len(),
    ensures
        moved(moved(s, i, i + 2), i + 1, i) == s,
{
    assert(moved(moved(s, i, i + 2), i + 1, i) =~= s);
}

/// What a key press on a reorderable list does: an optional move `(from, insert_before)` to apply to
/// the items, the new keyboard highlight, and whether the key is consumed (stops propagating).
#[derive(Clone, Copy, Debug)]
pub struct ListKeyOutcome {
    pub reorder: Option<(usize, usize)>,
    pub active: Option<usize>,
    pub consumed: bool,
}

/// The reaction of a reorderable list of `len` items, highlighting `active`, to a key event. Only key
/// presses count. Alt+Up / Alt+Down move the highlighted item one place (and the highlight follows it);
/// a plain Up / Down moves the highlight, starting from the last / first row when nothing is highlighted
/// and stopping at the ends; a highlight left past the end after the items shrank comes back to the
/// last row on Down. An empty list ignores keys.
pub open spec fn spec_list_key(len: usize, active: Option<usize>, key: Key, alt: bool, pressed: bool) -> ListKeyOutcome {
    let idle = ListKeyOutcome { reorder: None, active, consumed: false };
    if !pressed || len == 0 {
        idle
    } else if key == Key::ArrowUp && alt {
        match active {
            Some(i) if i > 0 => ListKeyOutcome {
                reorder: Some((i, (i - 1) as usize)),
                active: Some((i - 1) as usize),
                consumed: true,
            },
            _ => ListKeyOutcome { reorder: None, active, consumed: true },
        }
    } else if key == Key::ArrowDown && alt {
        match active {
            Some(i) if i + 1 < len => ListKeyOutcome {
                reorder: Some((i, (i + 2) as usize)),
                active: Some((i + 1) as usize),
                consumed: true,
            },
            _ => ListKeyOutcome { reorder: None, active, consumed: true },
        }
    } else if key == Key::ArrowUp {
        let next = match active {
            Some(i) => if i > 0 {
                (i - 1) as usize
            } else {
                0
            },
            None => (len - 1) as usize,
        };
        ListKeyOutcome { reorder: None, active: Some(next), consumed: true }
    } else if key == Key::ArrowDown {
        let next = match active {
            Some(i) => if i + 1 < len {
                (i + 1) as usize
            } else {
                (len - 1) as usize
            },
            None => 0,
        };
        ListKeyOutcome { reorder: None, active: Some(next), consumed: true }
    } else {
        idle
    }
}

/// Executable form of [`spec_list_key`].
pub fn list_key(len: usize, active: Option<usize>, key: Key, alt: bool, pressed: bool) -> (r: ListKeyOutcome)
    requires
        active matches Some(i) ==> i < usize::MAX,
    ensures
        r == spec_list_key(len, active, key, alt, pressed),
        (active matches Some(i) ==> i < len) ==> (r.active matches Some(j) ==> j < len),
{
    let idle = ListKeyOutcome { reorder: None, active, consumed: false };
    if !pressed || len == 0 {
        return idle;
    }
    match key {
        Key::ArrowUp if alt => match active {
            Some(i) if i > 0 => ListKeyOutcome {
                reorder: Some((i, i - 1)),
                active: Some(i - 1),
                consumed: true,
            },
            _ => ListKeyOutcome { reorder: None, active, consumed: true },
        },
        Key::ArrowDown if alt => match active {
            Some(i) if i + 1 < len => ListKeyOutcome {
                reorder: Some((i, i + 2)),
                active: Some(i + 1),
                consumed: true,
            },
            _ => ListKeyOutcome { reorder: None, active, consumed: true },
        },
        Key::ArrowUp => {
            let next = match active {
                Some(i) => if i > 0 {
                    i - 1
                } else {
                    0
                },
                None => len - 1,
            };
            ListKeyOutcome { reorder: None, active: Some(next), consumed: true }
        },
        Key::ArrowDown => {
            let next = match active {
                Some(i) => if i + 1 < len {
                    i + 1
                } else {
                    len - 1
                },
                None => 0,
            };
            ListKeyOutcome { reorder: None, active: Some(next), consumed: true }
        },
        _ => idle,
    }
}

/// The insert-before index a drop or drag-over on row `row` resolves to: before the row when the pointer
/// is in its top half (or unknown), after it when in its bottom half.
pub fn drop_slot(row: usize, lower_half: bool) -> (r: usize)
    requires
        lower_half ==> row < usize::MAX,
    ensures
        r == if lower_half { row + 1 } else { row as int },
{
    if lower_half { row + 1 } else { row }
}

/// The live-reflow state of a reorderable list: the dragged row's index (recorded when a drag starts)
/// and the tentative insert-before index (while the drag hovers the list).
#[derive(Clone, Copy, PartialEq, Eq, Structural, Debug)]
pub struct DragState {
    pub from: Option<usize>,
    pub preview_to: Option<usize>,
}

/// A drag-and-drop event on a reorderable list.
#[derive(Clone, Copy, PartialEq, Eq, Structural, Debug)]
pub enum DragEvent {
    /// A drag starts from row `0`.
    Start(usize),
    /// The drag hovers the list with insert-before index `0`.
    Over(usize),
    /// The drag leaves the list, or is cancelled.
    Leave,
    /// The row `from` is dropped with insert-before index `to`.
    Drop { from: usize, to: usize },
}

/// A move of the item at `from` to sit before the original position `insert_before`.
#[derive(Clone, Copy, PartialEq, Eq, Structural, Debug)]
pub struct Move {
    pub from: usize,
    pub insert_before: usize,
}

/// The next drag state, and the move to commit to the items, if any.
#[derive(Clone, Copy, PartialEq, Eq, Structural, Debug)]
pub struct DragStep {
    pub state: DragState,
    pub commit: Option<Move>,
}

/// The reaction of the list to a drag event: a start records the dragged row; hovering sets the
/// preview (nothing is committed); leaving clears the preview (the dragged row is kept for the next
/// hover); a drop commits the move and clears both.
pub open spec fn spec_drag_step(state: DragState, event: DragEvent) -> DragStep {
    match event {
        DragEvent::Start(row) => DragStep { state: DragState { from: Some(row), preview_to: state.preview_to }, commit: None },
        DragEvent::Over(to) => DragStep { state: DragState { from: state.from, preview_to: Some(to) }, commit: None },
        DragEvent::Leave => DragStep { state: DragState { from: state.from, preview_to: None }, commit: None },
        DragEvent::Drop { from, to } => DragStep {
            state: DragState { from: None, preview_to: None },
            commit: Some(Move { from, insert_before: to }),
        },
    }
}

/// Executable form of [`spec_drag_step`].
pub fn drag_step(state: DragState, event: DragEvent) -> (r: DragStep)
    ensures
        r == spec_drag_step(state, event),
{
    match event {
        DragEvent::Start(row) => DragStep { state: DragState { from: Some(row), preview_to: state.preview_to }, commit: None },
        DragEvent::Over(to) => DragStep { state: DragState { from: state.from, preview_to: Some(to) }, commit: None },
        DragEvent::Leave => DragStep { state: DragState { from: state.from, preview_to: None }, commit: None },
        DragEvent::Drop { from, to } => DragStep {
            state: DragState { from: None, preview_to: None },
            commit: Some(Move { from, insert_before: to }),
        },
    }
}

/// One slot of the rendered list: the row of an item (by its index in the items), or the placeholder
/// gap that marks where the dragged item will land, carrying that insert-before index.
#[derive(Clone, Copy, PartialEq, Eq, Structural, Debug)]
pub enum Slot {
    Row(usize),
    Gap(usize),
}

/// The slots of a list of `len` items in drag state `state`: while a drag of an in-range row previews
/// a drop, the reflowed order with the dragged row's slot as the gap; otherwise every row in order.
pub open spec fn spec_slots(len: usize, state: DragState) -> Seq<Slot> {
    match (state.from, state.preview_to) {
        (Some(from), Some(to)) if from < len => moved(index_range(len as nat), from as int, to as int).map_values(
            |k: usize| if k == from { Slot::Gap(to) } else { Slot::Row(k) },
        ),
        _ => index_range(len as nat).map_values(|k: usize| Slot::Row(k)),
    }
}

/// The slots to render for `len` items in drag state `state` (see [`spec_slots`]).
pub fn slots(len: usize, state: DragState) -> (r: Vec<Slot>)
    ensures
        r@ == spec_slots(len, state),
{
    let mut out: Vec<Slot> = Vec::new();
    match (state.from, state.preview_to) {
        (Some(from), Some(to)) if from < len => {
            let order = reflow_order(len, from, to);
            let ghost s = moved(index_range(len as nat), from as int, to as int);
            proof {
                lemma_moved_is_permutation(index_range(len as nat), from as int, to as int);
            }
            for i in 0..order.len()
                invariant
                    order@ == s,
                    out@ =~= s.subrange(0, i as int).map_values(
                        |k: usize| if k == from { Slot::Gap(to) } else { Slot::Row(k) },
                    ),
            {
                let k = order[i];
                out.push(if k == from { Slot::Gap(to) } else { Slot::Row(k) });
            }
            assert(s.subrange(0, order@.len() as int) =~= s);
        },
        _ => {
            for k in 0..len
                invariant
                    out@ =~= index_range(k as nat).map_values(|j: usize| Slot::Row(j)),
            {
                out.push(Slot::Row(k));
            }
        },
    }
    out
}

/// While a drag previews a drop, the rendered list shows every other item in exactly the order the drop
/// would commit, with a single placeholder gap at the slot the dragged item lands in; when no drag
/// previews (before a drag, after a cancel or a drop), every item shows in order with no gap.
pub proof fn lemma_slots_preview_the_drop<T>(items: Seq<T>, state: DragState)
    requires
        items.len() <= usize::MAX,
    ensures
        spec_slots(items.len() as usize, state).len() == items.len(),
        ({
            let n = items.len() as usize;
            match (state.from, state.preview_to) {
                (Some(from), Some(to)) if from < n => {
                    let land = spec_final_index(from as int, to as int, n as int);
                    &&& spec_slots(n, state)[land] == Slot::Gap(to)
                    &&& forall|i: int|
                        0 <= i < n && i != land ==> #[trigger] spec_slots(n, state)[i] is Row
                            && items[spec_slots(n, state)[i]->Row_0 as int] == moved(items, from as int, to as int)[i]
                },
                _ => forall|i: int| 0 <= i < n ==> #[trigger] spec_slots(n, state)[i] == Slot::Row(i as usize),
            }
        }),
{
    let n = items.len() as usize;
    match (state.from, state.preview_to) {
        (Some(from), Some(to)) if from < n => {
            let idx = index_range(n as nat);
            assert(idx.len() == items.len());
            lemma_moved_is_permutation(idx, from as int, to as int);
            lemma_preview_matches_commit(items, from as int, to as int);
            let m = moved(idx, from as int, to as int);
            let land = spec_final_index(from as int, to as int, n as int);
            let irest = idx.remove(from as int);
            assert forall|j: int| 0 <= j < irest.len() implies irest[j] != from by {}
            assert forall|i: int| 0 <= i < n && i != land implies m[i] != from by {
                if i < land {
                    assert(m[i] == irest[i]);
                } else {
                    assert(m[i] == irest[i - 1]);
                }
            }
        },
        _ => {},
    }
}

/// Keys on a reorderable list with row `i` of `items` highlighted. A plain arrow moves the highlight one
/// row and stops at the ends: Up never moves it down and stays only on the first row, Down never moves it
/// up and stays only on the last. Alt+Up / Alt+Down move the highlighted item one place towards that
/// end (not past it), and the highlight follows the item: after the move the highlighted row holds the
/// same item. Nothing highlighted, Up starts at the last row and Down at the first.
pub proof fn lemma_list_keys_step_and_follow<T>(items: Seq<T>, i: usize)
    requires
        i < items.len() <= usize::MAX,
    ensures
        ({
            let n = items.len() as usize;
            let up = spec_list_key(n, Some(i), Key::ArrowUp, false, true);
            let down = spec_list_key(n, Some(i), Key::ArrowDown, false, true);
            &&& up.reorder is None && up.consumed
            &&& up.active matches Some(j) && j <= i <= j + 1 && (j == i <==> i == 0)
            &&& down.reorder is None && down.consumed
            &&& down.active matches Some(j) && i <= j <= i + 1 && j < n && (j == i <==> i + 1 == n)
        }),
        ({
            let n = items.len() as usize;
            let up = spec_list_key(n, Some(i), Key::ArrowUp, true, true);
            let down = spec_list_key(n, Some(i), Key::ArrowDown, true, true);
            &&& up.consumed && down.consumed
            &&& (i > 0 <==> up.reorder is Some)
            &&& up.active matches Some(j) && j <= i <= j + 1
            &&& (up.reorder matches Some((f, t)) ==> f == i && moved(items, f as int, t as int)[up.active->0
                as int] == items[i as int])
            &&& (i + 1 < n <==> down.reorder is Some)
            &&& down.active matches Some(j) && i <= j <= i + 1 && j < n
            &&& (down.reorder matches Some((f, t)) ==> f == i && moved(items, f as int, t as int)[down.active->0
                as int] == items[i as int])
        }),
        spec_list_key(items.len() as usize, None, Key::ArrowUp, false, true).active == Some(
            (items.len() - 1) as usize,
        ),
        spec_list_key(items.len() as usize, None, Key::ArrowDown, false, true).active == Some(0usize),
{
}

} // verus!
