//! Rows and items: a view keeps its items in the order in which they came and
//! shows them in rows, each row naming the place of its item.

use crate::seqs::{
    distinct, first_place, lemma_contains_push, lemma_distinct_drop_last, lemma_distinct_push,
    lemma_first_place_is,
};
use vstd::prelude::*;

verus! {

/// A key that a view of rows reacts to.
#[derive(Clone, Copy, Debug, PartialEq, Eq, Structural)]
pub enum RowKey {
    Up,
    Down,
    PageUp,
    PageDown,
    Home,
    End,
    Enter,
    Left,
    Right,
}

/// What happens to a view of rows.
#[derive(Clone, Copy, Debug, PartialEq, Eq, Structural)]
pub enum RowEvent {
    /// A key was pressed.
    Key(RowKey),
    /// A button of the mouse was pressed on the view: whether it was the left
    /// one, and where, in characters from the left and in rows from the first
    /// row.
    Press { left_button: bool, x: usize, y: usize },
    /// Anything else.
    Other,
}

/// What a view of rows makes of an event.
#[derive(Clone, Copy, Debug, PartialEq, Eq, Structural)]
pub enum RowOutcome {
    /// The event is not for the view.
    Ignored,
    /// The event is used up; nothing follows.
    Consumed,
    /// Another row has the focus: the row, and the place of its item.
    Selected { row: usize, item: Option<usize> },
    /// The row with the focus is submitted: the row, and the place of its item.
    Submitted { row: usize, item: Option<usize> },
}

/// The rows show `count` items: there are as many rows as items, every row
/// names an item, no two rows name the same, and every item has a row.
pub open spec fn rows_consistent(rows: Seq<usize>, count: nat) -> bool {
    &&& rows.len() == count
    &&& forall|r: int| 0 <= r < rows.len() ==> (#[trigger] rows[r]) < count
    &&& distinct(rows)
    &&& forall|item: usize| item < count ==> #[trigger] rows.contains(item)
}

/// The rows that show `count` items in the order in which they came.
pub open spec fn identity_rows(count: nat) -> Seq<usize> {
    Seq::new(count, |r: int| r as usize)
}

/// The place of an item once the item at place `item` is taken away: the
/// places behind it are one less.
pub open spec fn place_without(place: usize, item: usize) -> usize {
    if place > item {
        (place - 1) as usize
    } else {
        place
    }
}

/// The rows that are left when the item at place `item` is taken away: its row
/// is gone, and the rows of the items behind it name places that are one less.
pub open spec fn rows_without(rows: Seq<usize>, item: usize) -> Seq<usize>
    decreases rows.len(),
{
    if rows.len() == 0 {
        Seq::empty()
    } else {
        let before = rows_without(rows.drop_last(), item);
        if rows.last() == item {
            before
        } else {
            before.push(place_without(rows.last(), item))
        }
    }
}

/// The focus after it has moved up by `n` rows: it stops at the first row.
pub open spec fn focus_up_by(focus: usize, n: usize) -> usize {
    if n >= focus {
        0
    } else {
        (focus - n) as usize
    }
}

/// The focus after it has moved down by `n` rows in a view of `count` items:
/// it stops at the last row.
pub open spec fn focus_down_by(focus: usize, n: usize, count: nat) -> usize {
    let last = if count == 0 {
        0
    } else {
        count - 1
    };
    if focus + n <= last {
        (focus + n) as usize
    } else {
        last as usize
    }
}

/// Rows in the order in which the items came are consistent.
pub proof fn lemma_identity_rows_consistent(count: nat)
    requires
        count <= usize::MAX,
    ensures
        rows_consistent(identity_rows(count), count),
{
    let rows = identity_rows(count);
    assert forall|item: usize| item < count implies #[trigger] rows.contains(item) by {
        assert(rows[item as int] == item);
    }
}

/// Rows stay consistent when a new item gets a row anywhere among them.
pub proof fn lemma_rows_insert_consistent(rows: Seq<usize>, count: nat, at: int)
    requires
        rows_consistent(rows, count),
        0 <= at <= count,
        count < usize::MAX,
    ensures
        rows_consistent(rows.insert(at, count as usize), count + 1),
{
    let grown = rows.insert(at, count as usize);
    rows.insert_ensures(at, count as usize);
    assert forall|item: usize| item < count + 1 implies #[trigger] grown.contains(item) by {
        if item < count {
            assert(rows.contains(item));
            let r = choose|r: int| 0 <= r < rows.len() && rows[r] == item;
            let moved = if r < at {
                r
            } else {
                r + 1
            };
            assert(grown[moved] == item);
        } else {
            assert(grown[at] == item);
        }
    }
}

/// What `rows_without` holds: the places below the item that the rows hold,
/// and for every place above the item that the rows hold the place that is
/// one less.
pub proof fn lemma_rows_without_members(rows: Seq<usize>, item: usize)
    ensures
        forall|k: usize| #[trigger]
            rows_without(rows, item).contains(k) <==> (k < item && rows.contains(k)) || (k >= item
                && k < usize::MAX && rows.contains((k + 1) as usize)),
    decreases rows.len(),
{
    if rows.len() > 0 {
        let before = rows.drop_last();
        let last = rows.last();
        lemma_rows_without_members(before, item);
        assert(rows =~= before.push(last));
        assert forall|k: usize| #[trigger]
            rows_without(rows, item).contains(k) <==> (k < item && rows.contains(k)) || (k >= item
                && k < usize::MAX && rows.contains((k + 1) as usize)) by {
            let left_before = rows_without(before, item);
            assert(left_before.contains(k) <==> (k < item && before.contains(k)) || (k >= item
                && k < usize::MAX && before.contains((k + 1) as usize)));
            lemma_contains_push(before, last, k);
            if k < usize::MAX {
                lemma_contains_push(before, last, (k + 1) as usize);
            }
            if last != item {
                lemma_contains_push(left_before, place_without(last, item), k);
            }
        }
    }
}

/// Of rows that name no place twice, the rows that are left name no place
/// twice, and they are fewer by one if a row named the item.
proof fn lemma_rows_without_shape(rows: Seq<usize>, item: usize)
    requires
        distinct(rows),
    ensures
        distinct(rows_without(rows, item)),
        rows_without(rows, item).len() == if rows.contains(item) {
            rows.len() - 1
        } else {
            rows.len() as int
        },
    decreases rows.len(),
{
    if rows.len() > 0 {
        let before = rows.drop_last();
        let last = rows.last();
        lemma_distinct_drop_last(rows);
        lemma_rows_without_shape(before, item);
        lemma_rows_without_members(before, item);
        assert(rows =~= before.push(last));
        lemma_contains_push(before, last, item);
        if last != item {
            lemma_distinct_push(rows_without(before, item), place_without(last, item));
        }
    }
}

/// Rows stay consistent when an item is taken away.
pub proof fn lemma_rows_without_consistent(rows: Seq<usize>, count: nat, item: usize)
    requires
        rows_consistent(rows, count),
        item < count,
        count <= usize::MAX,
    ensures
        rows_consistent(rows_without(rows, item), (count - 1) as nat),
{
    lemma_rows_without_shape(rows, item);
    lemma_rows_without_members(rows, item);
    let left = rows_without(rows, item);
    assert forall|r: int| 0 <= r < left.len() implies (#[trigger] left[r]) < count - 1 by {
        assert(left.contains(left[r]));
    }
}

/// The rows for `count` items in the order in which they came.
pub fn fresh_rows(count: usize) -> (rows: Vec<usize>)
    ensures
        rows@ == identity_rows(count as nat),
{
    let mut rows: Vec<usize> = Vec::new();
    let mut r: usize = 0;
    while r < count
        invariant
            0 <= r <= count,
            rows@ == identity_rows(r as nat),
        decreases count - r,
    {
        rows.push(r);
        r = r + 1;
    }
    rows
}

/// The first row that names the item at place `item`, if there is one.
pub fn find_row(rows: &Vec<usize>, item: usize) -> (found: Option<usize>)
    ensures
        match found {
            Some(row) => row < rows@.len() && row == first_place(rows@, item),
            None => first_place(rows@, item) == rows@.len(),
        },
{
    let mut row: usize = 0;
    while row < rows.len()
        invariant
            0 <= row <= rows@.len(),
            forall|r: int| 0 <= r < row ==> rows@[r] != item,
        decreases rows@.len() - row,
    {
        if rows[row] == item {
            proof {
                lemma_first_place_is(rows@, item, row as int);
            }
            return Some(row);
        }
        row = row + 1;
    }
    proof {
        lemma_first_place_is(rows@, item, row as int);
    }
    None
}

/// The rows without the item at place `item`, as `rows_without` states them.
pub fn without_item(rows: &Vec<usize>, item: usize) -> (left: Vec<usize>)
    ensures
        left@ == rows_without(rows@, item),
{
    let mut left: Vec<usize> = Vec::new();
    let mut r: usize = 0;
    while r < rows.len()
        invariant
            0 <= r <= rows@.len(),
            left@ == rows_without(rows@.take(r as int), item),
        decreases rows@.len() - r,
    {
        let place = rows[r];
        proof {
            assert(rows@.take(r + 1).drop_last() =~= rows@.take(r as int));
        }
        if place > item {
            left.push(place - 1);
        } else if place < item {
            left.push(place);
        }
        r = r + 1;
    }
    assert(rows@.take(r as int) =~= rows@);
    left
}

/// The focus after it has moved up by `n` rows.
pub fn focus_above(focus: usize, n: usize) -> (moved: usize)
    ensures
        moved == focus_up_by(focus, n),
{
    if n >= focus {
        0
    } else {
        focus - n
    }
}

/// The focus after it has moved down by `n` rows in a view of `count` items.
pub fn focus_below(focus: usize, n: usize, count: usize) -> (moved: usize)
    ensures
        moved == focus_down_by(focus, n, count as nat),
{
    let last = if count == 0 {
        0
    } else {
        count - 1
    };
    if focus >= last {
        last
    } else if n >= last - focus {
        last
    } else {
        focus + n
    }
}

} // verus!
