//! A list of items in rows, of which one has the focus; and lines of text in
//! colour as the items of such a list.

use crate::seqs::first_place;
use crate::styles::Color;
use crate::text::{lemma_split_parts_some, split_parts, text_split, texts};
use crate::views::rows::{
    find_row, focus_above, focus_below, focus_down_by, focus_up_by,
    lemma_identity_rows_consistent, lemma_rows_insert_consistent, lemma_rows_without_consistent,
    rows_consistent, rows_without, without_item, RowEvent, RowKey, RowOutcome,
};
use vstd::prelude::*;

verus! {

/// A list: its items in the order in which they came, and its rows, of which
/// one has the focus.
#[derive(Debug, PartialEq, Eq)]
pub struct ListView<T> {
    enabled: bool,
    needs_relayout: bool,
    focus: usize,
    items: Vec<T>,
    rows_to_items: Vec<usize>,
}

/// What a list holds, as a value.
pub struct ListState<T> {
    pub enabled: bool,
    pub needs_relayout: bool,
    pub focus: usize,
    pub items: Seq<T>,
    pub rows_to_items: Seq<usize>,
}

impl<T> View for ListView<T> {
    type V = ListState<T>;

    closed spec fn view(&self) -> ListState<T> {
        ListState {
            enabled: self.enabled,
            needs_relayout: self.needs_relayout,
            focus: self.focus,
            items: self.items@,
            rows_to_items: self.rows_to_items@,
        }
    }
}

impl<T> ListState<T> {
    /// The rows show the items: every item has one row.
    pub open spec fn is_consistent(self) -> bool {
        rows_consistent(self.rows_to_items, self.items.len())
    }

    /// The row with the focus, if the list has items.
    pub open spec fn row(self) -> Option<usize> {
        if self.items.len() == 0 {
            None
        } else {
            Some(self.focus)
        }
    }

    /// The place of the item in the row with the focus, if the list has items
    /// and such a row.
    pub open spec fn item(self) -> Option<usize> {
        if self.items.len() > 0 && self.focus < self.rows_to_items.len() {
            Some(self.rows_to_items[self.focus as int])
        } else {
            None
        }
    }

    /// The list with the focus on the first row that shows the item at place
    /// `item`; the list as it is where no row shows it or the list has no
    /// such item.
    pub open spec fn with_selected_item(self, item: usize) -> ListState<T> {
        if item < self.items.len() && first_place(self.rows_to_items, item)
            < self.rows_to_items.len() {
            ListState { focus: first_place(self.rows_to_items, item) as usize, ..self }
        } else {
            self
        }
    }

    /// What the list makes of an event that has moved the focus away from the
    /// row `before`, or has not.
    pub open spec fn settled(self, before: usize) -> (ListState<T>, RowOutcome) {
        if self.items.len() > 0 && before != self.focus {
            (self, RowOutcome::Selected { row: self.focus, item: self.item() })
        } else {
            (self, RowOutcome::Ignored)
        }
    }

    /// The list after an event, and what it makes of the event.
    /// `has_on_submit` says whether anything is to happen when a row is
    /// submitted.
    pub open spec fn after_event(self, event: RowEvent, has_on_submit: bool) -> (
        ListState<T>,
        RowOutcome,
    ) {
        let count = self.items.len();
        match event {
            RowEvent::Key(RowKey::Right) => (self, RowOutcome::Ignored),
            RowEvent::Key(RowKey::Left) => (self, RowOutcome::Ignored),
            RowEvent::Key(RowKey::Up) => if self.focus > 0 {
                (ListState { focus: focus_up_by(self.focus, 1), ..self }).settled(self.focus)
            } else {
                (self, RowOutcome::Ignored)
            },
            RowEvent::Key(RowKey::Down) => if self.focus + 1 < count {
                (ListState { focus: focus_down_by(self.focus, 1, count), ..self }).settled(
                    self.focus,
                )
            } else {
                (self, RowOutcome::Ignored)
            },
            RowEvent::Key(RowKey::PageUp) => (ListState {
                focus: focus_up_by(self.focus, 10),
                ..self
            }).settled(self.focus),
            RowEvent::Key(RowKey::PageDown) => (ListState {
                focus: focus_down_by(self.focus, 10, count),
                ..self
            }).settled(self.focus),
            RowEvent::Key(RowKey::Home) => (ListState { focus: 0, ..self }).settled(self.focus),
            RowEvent::Key(RowKey::End) => (ListState {
                focus: focus_down_by(0, usize::MAX, count),
                ..self
            }).settled(self.focus),
            RowEvent::Key(RowKey::Enter) => if count > 0 && has_on_submit {
                (self, RowOutcome::Submitted { row: self.focus, item: self.item() })
            } else {
                (self, RowOutcome::Ignored)
            },
            RowEvent::Press { left_button, x, y } => if count == 0 {
                (self, RowOutcome::Ignored)
            } else if left_button && y == self.focus {
                (
                    self,
                    if has_on_submit {
                        RowOutcome::Submitted { row: self.focus, item: self.item() }
                    } else {
                        RowOutcome::Ignored
                    },
                )
            } else if y < self.rows_to_items.len() {
                (ListState { focus: y, ..self }).settled(self.focus)
            } else {
                (self, RowOutcome::Ignored)
            },
            RowEvent::Other => (self, RowOutcome::Ignored),
        }
    }
}

impl<T> ListView<T> {
    /// A list without items; it is enabled.
    pub fn new() -> (list: Self)
        ensures
            list@ == (ListState::<T> {
                enabled: true,
                needs_relayout: true,
                focus: 0,
                items: Seq::empty(),
                rows_to_items: Seq::empty(),
            }),
            list@.is_consistent(),
    {
        let list = ListView {
            enabled: true,
            needs_relayout: true,
            focus: 0,
            items: Vec::new(),
            rows_to_items: Vec::new(),
        };
        proof {
            lemma_identity_rows_consistent(0);
        }
        list
    }

    /// Disables the list.
    pub fn disable(&mut self)
        ensures
            final(self)@ == (ListState { enabled: false, ..old(self)@ }),
    {
        self.enabled = false;
    }

    /// Enables the list again.
    pub fn enable(&mut self)
        ensures
            final(self)@ == (ListState { enabled: true, ..old(self)@ }),
    {
        self.enabled = true;
    }

    /// Enables or disables the list.
    pub fn set_enabled(&mut self, enabled: bool)
        ensures
            final(self)@ == (ListState { enabled, ..old(self)@ }),
    {
        self.enabled = enabled;
    }

    /// Whether the list is enabled.
    pub fn is_enabled(&self) -> (enabled: bool)
        ensures
            enabled == self@.enabled,
    {
        self.enabled
    }

    /// Whether the list has to be laid out anew.
    pub fn needs_relayout(&self) -> (needed: bool)
        ensures
            needed == self@.needs_relayout,
    {
        self.needs_relayout
    }

    /// Takes note that the list is laid out.
    pub fn layout_content(&mut self)
        ensures
            final(self)@ == (ListState { needs_relayout: false, ..old(self)@ }),
    {
        self.needs_relayout = false;
    }

    /// Takes all items away; the focus is on the first row.
    pub fn clear(&mut self)
        ensures
            final(self)@ == (ListState {
                items: Seq::empty(),
                rows_to_items: Seq::empty(),
                focus: 0,
                needs_relayout: true,
                ..old(self)@
            }),
            final(self)@.is_consistent(),
    {
        self.items.clear();
        self.rows_to_items.clear();
        self.focus = 0;
        self.needs_relayout = true;
        proof {
            lemma_identity_rows_consistent(0);
        }
    }

    /// The number of items.
    pub fn len(&self) -> (len: usize)
        ensures
            len == self@.items.len(),
    {
        self.items.len()
    }

    /// Whether the list has no items.
    pub fn is_empty(&self) -> (empty: bool)
        ensures
            empty == (self@.items.len() == 0),
    {
        self.items.len() == 0
    }

    /// The number of rows.
    pub fn row_count(&self) -> (count: usize)
        ensures
            count == self@.rows_to_items.len(),
    {
        self.rows_to_items.len()
    }

    /// The row on which the focus is, whether or not the list has such a row.
    pub fn focus(&self) -> (focus: usize)
        ensures
            focus == self@.focus,
    {
        self.focus
    }

    /// The place of the item that the row shows, if there is such a row.
    pub fn item_at_row(&self, row: usize) -> (item: Option<usize>)
        ensures
            item == if row < self@.rows_to_items.len() {
                Some(self@.rows_to_items[row as int])
            } else {
                None
            },
    {
        if row < self.rows_to_items.len() {
            Some(self.rows_to_items[row])
        } else {
            None
        }
    }

    /// The row with the focus, if the list has items.
    pub fn row(&self) -> (row: Option<usize>)
        ensures
            row == self@.row(),
    {
        if self.items.len() == 0 {
            None
        } else {
            Some(self.focus)
        }
    }

    /// Puts the focus on the row.
    pub fn set_selected_row(&mut self, row_index: usize)
        ensures
            final(self)@ == (ListState { focus: row_index, ..old(self)@ }),
    {
        self.focus = row_index;
    }

    /// The list with the focus on the row.
    pub fn selected_row(self, row_index: usize) -> (list: Self)
        ensures
            list@ == (ListState { focus: row_index, ..self@ }),
    {
        let mut list = self;
        list.set_selected_row(row_index);
        list
    }

    /// The item at place `index`, if there is one.
    pub fn borrow_item(&self, index: usize) -> (item: Option<&T>)
        ensures
            index < self@.items.len() ==> item == Some(&self@.items[index as int]),
            index >= self@.items.len() ==> item is None,
    {
        if index < self.items.len() {
            Some(&self.items[index])
        } else {
            None
        }
    }

    /// The items, in the order in which they came.
    pub fn borrow_items(&self) -> (items: &Vec<T>)
        ensures
            items@ == self@.items,
    {
        &self.items
    }

    /// The items, to be changed in place.
    pub fn borrow_items_mut(&mut self) -> (items: &mut Vec<T>)
        ensures
            items@ == old(self)@.items,
            final(self)@ == (ListState { items: final(items)@, ..old(self)@ }),
    {
        &mut self.items
    }

    /// The item at place `index`, to be changed in place, if there is one.
    pub fn borrow_item_mut(&mut self, index: usize) -> (item: Option<&mut T>)
        ensures
            index >= old(self)@.items.len() ==> item is None && final(self)@ == old(self)@,
            index < old(self)@.items.len() ==> (item matches Some(it) && *it == old(
                self,
            )@.items[index as int] && final(self)@ == (ListState {
                items: old(self)@.items.update(index as int, *final(it)),
                ..old(self)@
            })),
    {
        if index < self.items.len() {
            Some(&mut self.items[index])
        } else {
            None
        }
    }

    /// The place of the item in the row with the focus, if the list has items
    /// and such a row.
    pub fn item(&self) -> (item: Option<usize>)
        ensures
            item == self@.item(),
    {
        if self.items.len() > 0 && self.focus < self.rows_to_items.len() {
            Some(self.rows_to_items[self.focus])
        } else {
            None
        }
    }

    /// Puts the focus on the first row that shows the item at place
    /// `item_index`, if the list has such an item and a row for it.
    pub fn set_selected_item(&mut self, item_index: usize)
        ensures
            final(self)@ == old(self)@.with_selected_item(item_index),
    {
        if item_index < self.items.len() {
            match find_row(&self.rows_to_items, item_index) {
                Some(row) => {
                    self.focus = row;
                },
                None => {},
            }
        }
    }

    /// The list with the focus on the row of the item at place `item_index`,
    /// as `set_selected_item` puts it.
    pub fn selected_item(self, item_index: usize) -> (list: Self)
        ensures
            list@ == self@.with_selected_item(item_index),
    {
        let mut list = self;
        list.set_selected_item(item_index);
        list
    }

    /// Puts an item behind the others, in a row behind the other rows.
    pub fn insert_item(&mut self, item: T)
        ensures
            final(self)@ == (ListState {
                items: old(self)@.items.push(item),
                rows_to_items: old(self)@.rows_to_items.push(old(self)@.items.len() as usize),
                needs_relayout: true,
                ..old(self)@
            }),
            old(self)@.is_consistent() ==> final(self)@.is_consistent(),
    {
        self.items.push(item);
        let place = self.items.len() - 1;
        self.rows_to_items.push(place);
        self.needs_relayout = true;
        proof {
            if old(self)@.is_consistent() {
                lemma_rows_insert_consistent(
                    old(self)@.rows_to_items,
                    old(self)@.items.len(),
                    place as int,
                );
                assert(old(self)@.rows_to_items.insert(place as int, place) =~= old(
                    self,
                )@.rows_to_items.push(place));
            }
        }
    }

    /// The list without the item at place `item_index`, which is the result:
    /// if its row has the focus, the focus moves up by one row; the row is
    /// gone. `None`, and no change, where there is no such item.
    pub fn remove_item(&mut self, item_index: usize) -> (removed: Option<T>)
        ensures
            item_index >= old(self)@.items.len() ==> removed is None && final(self)@ == old(
                self,
            )@,
            item_index < old(self)@.items.len() ==> removed == Some(
                old(self)@.items[item_index as int],
            ) && final(self)@ == (ListState {
                items: old(self)@.items.remove(item_index as int),
                rows_to_items: rows_without(old(self)@.rows_to_items, item_index),
                focus: if old(self)@.item() == Some(item_index) {
                    focus_up_by(old(self)@.focus, 1)
                } else {
                    old(self)@.focus
                },
                needs_relayout: true,
                ..old(self)@
            }),
            old(self)@.is_consistent() ==> final(self)@.is_consistent(),
    {
        if item_index < self.items.len() {
            match self.item() {
                Some(selected_index) => {
                    if selected_index == item_index {
                        self.focus_up(1);
                    }
                },
                None => {},
            }
            self.rows_to_items = without_item(&self.rows_to_items, item_index);
            self.needs_relayout = true;
            proof {
                if old(self)@.is_consistent() {
                    lemma_rows_without_consistent(
                        old(self)@.rows_to_items,
                        old(self)@.items.len(),
                        item_index,
                    );
                }
            }
            Some(self.items.remove(item_index))
        } else {
            None
        }
    }

    /// Takes all items out of the list, which are the result; the focus is on
    /// the first row.
    pub fn take_items(&mut self) -> (items: Vec<T>)
        ensures
            items@ == old(self)@.items,
            final(self)@ == (ListState {
                items: Seq::empty(),
                rows_to_items: Seq::empty(),
                focus: 0,
                needs_relayout: true,
                ..old(self)@
            }),
            final(self)@.is_consistent(),
    {
        self.set_selected_row(0);
        self.rows_to_items.clear();
        self.needs_relayout = true;
        let mut items: Vec<T> = Vec::new();
        items.append(&mut self.items);
        proof {
            lemma_identity_rows_consistent(0);
        }
        items
    }

    /// Moves the focus up by `n` rows, as far as there are rows.
    pub fn focus_up(&mut self, n: usize)
        ensures
            final(self)@ == (ListState { focus: focus_up_by(old(self)@.focus, n), ..old(self)@ }),
    {
        self.focus = focus_above(self.focus, n);
    }

    /// Moves the focus down by `n` rows, as far as there are items.
    pub fn focus_down(&mut self, n: usize)
        ensures
            final(self)@ == (ListState {
                focus: focus_down_by(old(self)@.focus, n, old(self)@.items.len()),
                ..old(self)@
            }),
    {
        self.focus = focus_below(self.focus, n, self.items.len());
    }

    /// What the list makes of an event whose focus was on the row `before`.
    fn settle(&self, before: usize) -> (outcome: RowOutcome)
        ensures
            (self@, outcome) == self@.settled(before),
    {
        if self.items.len() > 0 && before != self.focus {
            RowOutcome::Selected { row: self.focus, item: self.item() }
        } else {
            RowOutcome::Ignored
        }
    }

    /// Takes an event. `has_on_submit` says whether anything is to happen
    /// when a row is submitted.
    pub fn on_inner_event(&mut self, event: RowEvent, has_on_submit: bool) -> (outcome:
        RowOutcome)
        ensures
            (final(self)@, outcome) == old(self)@.after_event(event, has_on_submit),
    {
        let last_focus = self.focus;
        let count = self.items.len();
        match event {
            RowEvent::Key(RowKey::Right) => {
                return RowOutcome::Ignored;
            },
            RowEvent::Key(RowKey::Left) => {
                return RowOutcome::Ignored;
            },
            RowEvent::Key(RowKey::Up) => {
                if self.focus > 0 {
                    self.focus_up(1);
                } else {
                    return RowOutcome::Ignored;
                }
            },
            RowEvent::Key(RowKey::Down) => {
                if self.focus < usize::MAX && self.focus + 1 < count {
                    self.focus_down(1);
                } else {
                    return RowOutcome::Ignored;
                }
            },
            RowEvent::Key(RowKey::PageUp) => {
                self.focus_up(10);
            },
            RowEvent::Key(RowKey::PageDown) => {
                self.focus_down(10);
            },
            RowEvent::Key(RowKey::Home) => {
                self.focus = 0;
            },
            RowEvent::Key(RowKey::End) => {
                self.focus = focus_below(0, usize::MAX, count);
            },
            RowEvent::Key(RowKey::Enter) => {
                if count > 0 && has_on_submit {
                    return RowOutcome::Submitted { row: self.focus, item: self.item() };
                } else {
                    return RowOutcome::Ignored;
                }
            },
            RowEvent::Press { left_button, x, y } => {
                if count == 0 {
                    return RowOutcome::Ignored;
                } else if left_button && y == self.focus {
                    if has_on_submit {
                        return RowOutcome::Submitted { row: self.focus, item: self.item() };
                    } else {
                        return RowOutcome::Ignored;
                    }
                } else if y < self.rows_to_items.len() {
                    self.focus = y;
                } else {
                    return RowOutcome::Ignored;
                }
            },
            RowEvent::Other => {
                return RowOutcome::Ignored;
            },
        }
        self.settle(last_focus)
    }
}

/// A line of text and the colour in which it is shown; `None` is the colour
/// that the terminal has for text.
#[derive(Debug, PartialEq, Eq)]
pub struct ListItem {
    pub text: String,
    pub color: Option<Color>,
}

impl Clone for ListItem {
    fn clone(&self) -> (copy: ListItem)
        ensures
            copy == *self,
    {
        ListItem { text: self.text.clone(), color: self.color }
    }
}

/// A line of text and its colour, as a value.
pub struct Line {
    pub text: Seq<char>,
    pub color: Option<Color>,
}

impl View for ListItem {
    type V = Line;

    open spec fn view(&self) -> Line {
        Line { text: self.text@, color: self.color }
    }
}

/// The lines that the items show.
pub open spec fn shown(items: Seq<ListItem>) -> Seq<Line> {
    items.map_values(|item: ListItem| item@)
}

/// The texts as lines in one colour.
pub open spec fn colored(texts: Seq<Seq<char>>, color: Option<Color>) -> Seq<Line> {
    texts.map_values(|text: Seq<char>| Line { text, color })
}

/// The rows of `count` items that come behind `before` others, in the order
/// in which they come.
pub open spec fn rows_behind(before: nat, count: nat) -> Seq<usize> {
    Seq::new(count, |k: int| (before + k) as usize)
}

impl ListView<ListItem> {
    /// Puts the lines of a text behind the other items, one item for each
    /// line, in the given colour.
    fn insert_lines(&mut self, s: &str, color: Option<Color>)
        ensures
            final(self)@.enabled == old(self)@.enabled,
            final(self)@.needs_relayout,
            final(self)@.focus == old(self)@.focus,
            final(self)@.items.take(old(self)@.items.len() as int) == old(self)@.items,
            shown(final(self)@.items) == shown(old(self)@.items) + colored(
                split_parts(s@, '\n'),
                color,
            ),
            final(self)@.rows_to_items == old(self)@.rows_to_items + rows_behind(
                old(self)@.items.len(),
                split_parts(s@, '\n').len(),
            ),
            old(self)@.is_consistent() ==> final(self)@.is_consistent(),
    {
        let lines = text_split(s, '\n');
        let ghost parts = split_parts(s@, '\n');
        let ghost before = old(self)@.items.len();
        proof {
            lemma_split_parts_some(s@, '\n');
        }
        let mut k: usize = 0;
        while k < lines.len()
            invariant
                0 <= k <= lines@.len(),
                0 < lines@.len(),
                texts(lines@) == parts,
                before == old(self)@.items.len(),
                self@.enabled == old(self)@.enabled,
                k > 0 ==> self@.needs_relayout,
                self@.focus == old(self)@.focus,
                self@.items.len() == before + k,
                self@.items.take(before as int) == old(self)@.items,
                forall|j: int|
                    0 <= j < k ==> (#[trigger] self@.items[before + j]).text@ == parts[j]
                        && self@.items[before + j].color == color,
                self@.rows_to_items == old(self)@.rows_to_items + rows_behind(before, k as nat),
                old(self)@.is_consistent() ==> self@.is_consistent(),
            decreases lines@.len() - k,
        {
            self.insert_item(ListItem { text: lines[k].clone(), color });
            proof {
                assert(self@.rows_to_items =~= old(self)@.rows_to_items + rows_behind(
                    before,
                    (k + 1) as nat,
                ));
            }
            k = k + 1;
        }
        proof {
            let all = shown(final(self)@.items);
            let expected = shown(old(self)@.items) + colored(parts, color);
            assert forall|j: int| 0 <= j < all.len() implies all[j] == expected[j] by {
                if j >= before {
                    assert(final(self)@.items[before + (j - before)].text@ == parts[j - before]);
                }
            }
        }
    }

    /// Puts the lines of a text behind the other items, one item for each
    /// line, in the colour of the terminal.
    pub fn insert_string(&mut self, s: String)
        ensures
            final(self)@.enabled == old(self)@.enabled,
            final(self)@.needs_relayout,
            final(self)@.focus == old(self)@.focus,
            final(self)@.items.take(old(self)@.items.len() as int) == old(self)@.items,
            shown(final(self)@.items) == shown(old(self)@.items) + colored(
                split_parts(s@, '\n'),
                None,
            ),
            final(self)@.rows_to_items == old(self)@.rows_to_items + rows_behind(
                old(self)@.items.len(),
                split_parts(s@, '\n').len(),
            ),
            old(self)@.is_consistent() ==> final(self)@.is_consistent(),
    {
        self.insert_lines(s.as_str(), None);
    }

    /// Puts the lines of a text behind the other items, one item for each
    /// line, in the colour `c`.
    pub fn insert_colorful_string(&mut self, s: String, c: Color)
        ensures
            final(self)@.enabled == old(self)@.enabled,
            final(self)@.needs_relayout,
            final(self)@.focus == old(self)@.focus,
            final(self)@.items.take(old(self)@.items.len() as int) == old(self)@.items,
            shown(final(self)@.items) == shown(old(self)@.items) + colored(
                split_parts(s@, '\n'),
                Some(c),
            ),
            final(self)@.rows_to_items == old(self)@.rows_to_items + rows_behind(
                old(self)@.items.len(),
                split_parts(s@, '\n').len(),
            ),
            old(self)@.is_consistent() ==> final(self)@.is_consistent(),
    {
        self.insert_lines(s.as_str(), Some(c));
    }
}

} // verus!
