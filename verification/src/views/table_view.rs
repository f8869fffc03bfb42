//! A table of items in rows and columns: which items it holds, which row has
//! the focus, and what a key or a click changes. Drawing is left to the
//! program.

use crate::seqs::{first_place, lemma_first_place_is};
use crate::styles::Color;
use crate::text::{push_char, push_spaces, spaces};
use crate::views::rows::{
    RowEvent, RowKey, RowOutcome,
    find_row, focus_above, focus_below, focus_down_by, focus_up_by, fresh_rows, identity_rows,
    lemma_identity_rows_consistent, lemma_rows_insert_consistent, lemma_rows_without_consistent,
    rows_consistent, rows_without, without_item,
};
use std::cmp::Ordering;
use std::hash::Hash;
use vstd::prelude::*;
use vstd::std_specs::cmp::PartialEqSpec;
use vstd::string::{StrSliceExecFns, StringExecFns};

verus! {

/// An item that a table can show and sort: `H` names the columns.
pub trait TableViewItem<H>: Clone + Sized where H: Eq + Hash + Copy + Clone + 'static {
    /// The text of the item in the column.
    fn to_column(&self, column: H) -> String;

    /// Compares two items by the column.
    fn cmp(&self, other: &Self, column: H) -> Ordering where Self: Sized;
}

/// Where a text stands in a column that is wider than the text.
#[derive(Clone, Copy, Debug, PartialEq, Eq, Structural)]
pub enum HAlign {
    Left,
    Center,
    Right,
}

/// The width that a column asks for.
#[derive(Clone, Copy, Debug, PartialEq, Eq, Structural)]
pub enum TableColumnWidth {
    /// A part of the width of the table, in hundredths.
    Percent(usize),
    /// A number of characters.
    Absolute(usize),
}

/// A column of a table.
#[derive(Debug, PartialEq, Eq)]
pub struct TableColumn<H> {
    pub column: H,
    pub title: String,
    pub selected: bool,
    pub alignment: HAlign,
    pub width: usize,
    pub requested_width: Option<TableColumnWidth>,
    /// The colour of the column; `None` is the colour that the terminal has
    /// for text.
    pub color: Option<Color>,
}

/// The text in a column of `width` characters: a text that is shorter is
/// filled up with spaces, behind it, before it, or on both sides with the odd
/// space behind; a text that is longer stays as it is.
pub open spec fn aligned(text: Seq<char>, width: nat, alignment: HAlign) -> Seq<char> {
    if text.len() >= width {
        text
    } else {
        let gap = (width - text.len()) as nat;
        match alignment {
            HAlign::Left => text + spaces(gap),
            HAlign::Right => spaces(gap) + text,
            HAlign::Center => spaces(gap / 2) + text + spaces((gap - gap / 2) as nat),
        }
    }
}

/// The text, filled up to `width` characters as `aligned` states.
pub fn align_text(text: &str, width: usize, alignment: HAlign) -> (shown: String)
    ensures
        shown@ == aligned(text@, width as nat, alignment),
{
    let len = text.unicode_len();
    let mut shown = String::new();
    if len >= width {
        shown.append(text);
    } else {
        let gap = width - len;
        match alignment {
            HAlign::Left => {
                shown.append(text);
                push_spaces(&mut shown, gap);
            },
            HAlign::Right => {
                push_spaces(&mut shown, gap);
                shown.append(text);
            },
            HAlign::Center => {
                push_spaces(&mut shown, gap / 2);
                shown.append(text);
                push_spaces(&mut shown, gap - gap / 2);
                assert(shown@ =~= spaces((gap / 2) as nat) + text@ + spaces(
                    (gap - gap / 2) as nat,
                ));
            },
        }
    }
    shown
}

impl<H: Copy + Clone + 'static> TableColumn<H> {
    /// A column that is new: not selected, its text on the left, no width
    /// yet and none asked for, in the colour of the terminal.
    pub open spec fn is_new(self, column: H, title: Seq<char>) -> bool {
        &&& self.column == column
        &&& self.title@ == title
        &&& !self.selected
        &&& self.alignment == HAlign::Left
        &&& self.width == 0
        &&& self.requested_width is None
        &&& self.color is None
    }

    /// A new column with the given title.
    pub fn new(column: H, title: String) -> (made: Self)
        ensures
            made.is_new(column, title@),
            made.title == title,
    {
        TableColumn {
            column,
            title,
            selected: false,
            alignment: HAlign::Left,
            width: 0,
            requested_width: None,
            color: None,
        }
    }

    /// Sets where the texts of the column stand.
    pub fn align(self, alignment: HAlign) -> (column: Self)
        ensures
            column == (TableColumn { alignment, ..self }),
    {
        let mut column = self;
        column.alignment = alignment;
        column
    }

    /// Sets how many characters of width the column asks for.
    pub fn width(self, width: usize) -> (column: Self)
        ensures
            column == (TableColumn {
                requested_width: Some(TableColumnWidth::Absolute(width)),
                ..self
            }),
    {
        let mut column = self;
        column.requested_width = Some(TableColumnWidth::Absolute(width));
        column
    }

    /// Sets how many hundredths of the width of the table the column asks for.
    pub fn width_percent(self, width: usize) -> (column: Self)
        ensures
            column == (TableColumn {
                requested_width: Some(TableColumnWidth::Percent(width)),
                ..self
            }),
    {
        let mut column = self;
        column.requested_width = Some(TableColumnWidth::Percent(width));
        column
    }

    /// Sets the colour of the column.
    pub fn color(self, color: Color) -> (column: Self)
        ensures
            column == (TableColumn { color: Some(color), ..self }),
    {
        let mut column = self;
        column.color = Some(color);
        column
    }

    /// The title as the head of the column shows it.
    pub fn header_text(&self) -> (text: String)
        ensures
            text@ == aligned(self.title@, self.width as nat, self.alignment),
    {
        align_text(self.title.as_str(), self.width, self.alignment)
    }

    /// A value as a row shows it in the column: filled up to the width of the
    /// column, and a space.
    pub fn row_text(&self, value: &str) -> (text: String)
        ensures
            text@ == aligned(value@, self.width as nat, self.alignment).push(' '),
    {
        let mut text = align_text(value, self.width, self.alignment);
        push_char(&mut text, ' ');
        text
    }
}

/// The column at `x` characters from the left, counted from the column at
/// place `from`: columns are set apart by three characters, which belong to
/// no column.
pub open spec fn column_at<H>(columns: Seq<TableColumn<H>>, x: int, from: int) -> Option<int>
    decreases columns.len() - from,
{
    if from < 0 || from >= columns.len() {
        None
    } else if x < columns[from].width {
        Some(from)
    } else if x - columns[from].width < 3 {
        None
    } else {
        column_at(columns, x - columns[from].width - 3, from + 1)
    }
}

/// The place of the first selected column from place `from` on, if a column
/// is selected.
pub open spec fn first_selected<H>(columns: Seq<TableColumn<H>>, from: int) -> Option<int>
    decreases columns.len() - from,
{
    if from < 0 || from >= columns.len() {
        None
    } else if columns[from].selected {
        Some(from)
    } else {
        first_selected(columns, from + 1)
    }
}

/// The place of the column that is active: the first selected column, or the
/// first column where none is selected.
pub open spec fn active_of<H>(columns: Seq<TableColumn<H>>) -> int {
    match first_selected(columns, 0) {
        Some(place) => place,
        None => 0,
    }
}

/// A table: its columns, its items in the order in which they came, and its
/// rows, of which one has the focus.
#[derive(Debug, PartialEq, Eq)]
pub struct TableView<T, H> {
    enabled: bool,
    needs_relayout: bool,
    column_select: bool,
    columns: Vec<TableColumn<H>>,
    focus: usize,
    items: Vec<T>,
    rows_to_items: Vec<usize>,
}

/// What a table holds, as a value.
pub struct TableState<T, H> {
    pub enabled: bool,
    pub needs_relayout: bool,
    pub column_select: bool,
    pub columns: Seq<TableColumn<H>>,
    pub focus: usize,
    pub items: Seq<T>,
    pub rows_to_items: Seq<usize>,
}

impl<T, H> View for TableView<T, H> {
    type V = TableState<T, H>;

    closed spec fn view(&self) -> TableState<T, H> {
        TableState {
            enabled: self.enabled,
            needs_relayout: self.needs_relayout,
            column_select: self.column_select,
            columns: self.columns@,
            focus: self.focus,
            items: self.items@,
            rows_to_items: self.rows_to_items@,
        }
    }
}

impl<T, H> TableState<T, H> {
    /// The rows show the items: every item has one row.
    pub open spec fn is_consistent(self) -> bool {
        rows_consistent(self.rows_to_items, self.items.len())
    }

    /// The row with the focus, if the table has items.
    pub open spec fn row(self) -> Option<usize> {
        if self.items.len() == 0 {
            None
        } else {
            Some(self.focus)
        }
    }

    /// The place of the item in the row with the focus, if there is such a
    /// row.
    pub open spec fn item(self) -> Option<usize> {
        if self.focus < self.rows_to_items.len() {
            Some(self.rows_to_items[self.focus as int])
        } else {
            None
        }
    }

    /// The table with the focus on the first row that shows the item at place
    /// `item`; the table as it is where no row shows it or the table has no
    /// such item.
    pub open spec fn with_selected_item(self, item: usize) -> TableState<T, H> {
        if item < self.items.len() && first_place(self.rows_to_items, item)
            < self.rows_to_items.len() {
            TableState { focus: first_place(self.rows_to_items, item) as usize, ..self }
        } else {
            self
        }
    }

    /// What the table makes of an event that has moved the focus away from
    /// the row `before`, or has not.
    pub open spec fn settled(self, before: usize) -> (TableState<T, H>, RowOutcome) {
        if self.column_select {
            (self, RowOutcome::Consumed)
        } else if self.items.len() > 0 && before != self.focus {
            (self, RowOutcome::Selected { row: self.focus, item: self.item() })
        } else {
            (self, RowOutcome::Ignored)
        }
    }

    /// The table after an event, and what it makes of the event.
    /// `has_on_submit` says whether anything is to happen when a row is
    /// submitted.
    pub open spec fn after_event(self, event: RowEvent, has_on_submit: bool) -> (
        TableState<T, H>,
        RowOutcome,
    ) {
        let count = self.items.len();
        let released = TableState { column_select: false, ..self };
        match event {
            RowEvent::Key(RowKey::Right) => (self, RowOutcome::Ignored),
            RowEvent::Key(RowKey::Left) => (self, RowOutcome::Ignored),
            RowEvent::Key(RowKey::Up) => if self.column_select {
                released.settled(self.focus)
            } else if self.focus > 0 {
                (TableState { focus: focus_up_by(self.focus, 1), ..self }).settled(self.focus)
            } else {
                (self, RowOutcome::Ignored)
            },
            RowEvent::Key(RowKey::Down) => if self.column_select {
                released.settled(self.focus)
            } else if self.focus + 1 < count {
                (TableState { focus: focus_down_by(self.focus, 1, count), ..self }).settled(
                    self.focus,
                )
            } else {
                (self, RowOutcome::Ignored)
            },
            RowEvent::Key(RowKey::PageUp) => (TableState {
                focus: focus_up_by(self.focus, 10),
                ..released
            }).settled(self.focus),
            RowEvent::Key(RowKey::PageDown) => (TableState {
                focus: focus_down_by(self.focus, 10, count),
                ..released
            }).settled(self.focus),
            RowEvent::Key(RowKey::Home) => (TableState { focus: 0, ..released }).settled(
                self.focus,
            ),
            RowEvent::Key(RowKey::End) => (TableState {
                focus: focus_down_by(0, usize::MAX, count),
                ..released
            }).settled(self.focus),
            RowEvent::Key(RowKey::Enter) => if self.column_select {
                (self, RowOutcome::Ignored)
            } else if count > 0 && has_on_submit {
                (self, RowOutcome::Submitted { row: self.focus, item: self.item() })
            } else {
                self.settled(self.focus)
            },
            RowEvent::Press { left_button, x, y } => if count == 0 {
                (self, RowOutcome::Ignored)
            } else if left_button && y == self.focus {
                (
                    released,
                    if has_on_submit {
                        RowOutcome::Submitted { row: self.focus, item: self.item() }
                    } else {
                        RowOutcome::Ignored
                    },
                )
            } else if y < self.rows_to_items.len() {
                (TableState { focus: y, ..released }).settled(self.focus)
            } else {
                (self, RowOutcome::Ignored)
            },
            RowEvent::Other => (self, RowOutcome::Ignored),
        }
    }

    /// The table after the left button was pressed on its head, `x`
    /// characters from the left: the column there is selected in place of the
    /// active one, unless a column is being selected and it is that one.
    /// Between the columns nothing changes.
    pub open spec fn after_header_press(self, x: usize) -> TableState<T, H> {
        match column_at(self.columns, x as int, 0) {
            Some(place) => if self.column_select && self.columns[place].selected {
                self
            } else {
                let active = active_of(self.columns);
                let cleared = self.columns.update(
                    active,
                    TableColumn { selected: false, ..self.columns[active] },
                );
                TableState {
                    column_select: true,
                    columns: cleared.update(place, TableColumn { selected: true, ..cleared[place] }),
                    ..self
                }
            },
            None => self,
        }
    }
}

impl<T, H> TableView<T, H> {
    /// A table without columns and without items; it is enabled.
    pub fn new() -> (table: Self)
        ensures
            table@ == (TableState::<T, H> {
                enabled: true,
                needs_relayout: true,
                column_select: false,
                columns: Seq::empty(),
                focus: 0,
                items: Seq::empty(),
                rows_to_items: Seq::empty(),
            }),
            table@.is_consistent(),
    {
        let table = TableView {
            enabled: true,
            needs_relayout: true,
            column_select: false,
            columns: Vec::new(),
            focus: 0,
            items: Vec::new(),
            rows_to_items: Vec::new(),
        };
        proof {
            lemma_identity_rows_consistent(0);
        }
        table
    }

    /// Disables the table.
    pub fn disable(&mut self)
        ensures
            final(self)@ == (TableState { enabled: false, ..old(self)@ }),
    {
        self.enabled = false;
    }

    /// Enables the table again.
    pub fn enable(&mut self)
        ensures
            final(self)@ == (TableState { enabled: true, ..old(self)@ }),
    {
        self.enabled = true;
    }

    /// Enables or disables the table.
    pub fn set_enabled(&mut self, enabled: bool)
        ensures
            final(self)@ == (TableState { enabled, ..old(self)@ }),
    {
        self.enabled = enabled;
    }

    /// Whether the table is enabled.
    pub fn is_enabled(&self) -> (enabled: bool)
        ensures
            enabled == self@.enabled,
    {
        self.enabled
    }

    /// Whether the widths of the columns have to be worked out anew.
    pub fn needs_relayout(&self) -> (needed: bool)
        ensures
            needed == self@.needs_relayout,
    {
        self.needs_relayout
    }

    /// Whether a column is being selected.
    pub fn column_select(&self) -> (selecting: bool)
        ensures
            selecting == self@.column_select,
    {
        self.column_select
    }

    /// The columns.
    pub fn columns(&self) -> (columns: &Vec<TableColumn<H>>)
        ensures
            columns@ == self@.columns,
    {
        &self.columns
    }

    /// Gives the column at place `i` its width.
    pub fn set_column_width(&mut self, i: usize, width: usize)
        requires
            i < old(self)@.columns.len(),
        ensures
            final(self)@ == (TableState {
                columns: old(self)@.columns.update(
                    i as int,
                    TableColumn { width, ..old(self)@.columns[i as int] },
                ),
                ..old(self)@
            }),
    {
        self.columns[i].width = width;
        assert(final(self)@.columns =~= old(self)@.columns.update(
            i as int,
            TableColumn { width, ..old(self)@.columns[i as int] },
        ));
    }

    /// Takes note that the widths of the columns are worked out.
    pub fn layout_done(&mut self)
        ensures
            final(self)@ == (TableState { needs_relayout: false, ..old(self)@ }),
    {
        self.needs_relayout = false;
    }

    /// Puts a column with the given title at place `i`. `callback` sets the
    /// new column up.
    pub fn insert_column<C: FnOnce(TableColumn<H>) -> TableColumn<H>>(
        &mut self,
        i: usize,
        column: H,
        title: &str,
        callback: C,
    ) where H: Copy + Clone + 'static
        requires
            i <= old(self)@.columns.len(),
            forall|fresh: TableColumn<H>| #[trigger]
                fresh.is_new(column, title@) ==> call_requires(callback, (fresh,)),
        ensures
            exists|fresh: TableColumn<H>, made: TableColumn<H>|
                fresh.is_new(column, title@) && #[trigger] call_ensures(callback, (fresh,), made)
                    && final(self)@ == (TableState {
                    columns: old(self)@.columns.insert(i as int, made),
                    needs_relayout: true,
                    ..old(self)@
                }),
    {
        let fresh = TableColumn::new(column, title.to_owned());
        let ghost fresh_value = fresh;
        let made = callback(fresh);
        self.columns.insert(i, made);
        self.needs_relayout = true;
        assert(fresh_value.is_new(column, title@) && call_ensures(callback, (fresh_value,), made)
            && final(self)@ == (TableState {
            columns: old(self)@.columns.insert(i as int, made),
            needs_relayout: true,
            ..old(self)@
        }));
    }

    /// Puts a column with the given title behind the others. `callback` sets
    /// the new column up.
    pub fn add_column<C: FnOnce(TableColumn<H>) -> TableColumn<H>>(
        &mut self,
        column: H,
        title: &str,
        callback: C,
    ) where H: Copy + Clone + 'static
        requires
            forall|fresh: TableColumn<H>| #[trigger]
                fresh.is_new(column, title@) ==> call_requires(callback, (fresh,)),
        ensures
            exists|fresh: TableColumn<H>, made: TableColumn<H>|
                fresh.is_new(column, title@) && #[trigger] call_ensures(callback, (fresh,), made)
                    && final(self)@ == (TableState {
                    columns: old(self)@.columns.push(made),
                    needs_relayout: true,
                    ..old(self)@
                }),
    {
        let at = self.columns.len();
        self.insert_column(at, column, title, callback);
        proof {
            let (fresh, made) = choose|fresh: TableColumn<H>, made: TableColumn<H>|
                fresh.is_new(column, title@) && #[trigger] call_ensures(callback, (fresh,), made)
                    && final(self)@ == (TableState {
                    columns: old(self)@.columns.insert(at as int, made),
                    needs_relayout: true,
                    ..old(self)@
                });
            assert(old(self)@.columns.insert(at as int, made) =~= old(self)@.columns.push(made));
        }
    }

    /// The table with one more column, behind the others. `callback` sets the
    /// new column up.
    pub fn column<C: FnOnce(TableColumn<H>) -> TableColumn<H>>(
        self,
        column: H,
        title: &str,
        callback: C,
    ) -> (table: Self) where H: Copy + Clone + 'static
        requires
            forall|fresh: TableColumn<H>| #[trigger]
                fresh.is_new(column, title@) ==> call_requires(callback, (fresh,)),
        ensures
            exists|fresh: TableColumn<H>, made: TableColumn<H>|
                fresh.is_new(column, title@) && #[trigger] call_ensures(callback, (fresh,), made)
                    && table@ == (TableState {
                    columns: self@.columns.push(made),
                    needs_relayout: true,
                    ..self@
                }),
    {
        let mut table = self;
        table.add_column(column, title, callback);
        table
    }

    /// Takes the column at place `i` away.
    pub fn remove_column(&mut self, i: usize)
        requires
            i < old(self)@.columns.len(),
        ensures
            final(self)@ == (TableState {
                columns: old(self)@.columns.remove(i as int),
                needs_relayout: true,
                ..old(self)@
            }),
    {
        let _ = self.columns.remove(i);
        self.needs_relayout = true;
    }

    /// Takes all items away; the focus is on the first row.
    pub fn clear(&mut self)
        ensures
            final(self)@ == (TableState {
                items: Seq::empty(),
                rows_to_items: Seq::empty(),
                focus: 0,
                needs_relayout: true,
                ..old(self)@
            }),
            final(self)@.is_consistent(),
    {
        self.items.clear();
        self.rows_to_items.clear();
        self.focus = 0;
        self.needs_relayout = true;
        proof {
            lemma_identity_rows_consistent(0);
        }
    }

    /// The number of items.
    pub fn len(&self) -> (len: usize)
        ensures
            len == self@.items.len(),
    {
        self.items.len()
    }

    /// Whether the table has no items.
    pub fn is_empty(&self) -> (empty: bool)
        ensures
            empty == (self@.items.len() == 0),
    {
        self.items.len() == 0
    }

    /// The number of rows.
    pub fn row_count(&self) -> (count: usize)
        ensures
            count == self@.rows_to_items.len(),
    {
        self.rows_to_items.len()
    }

    /// The row on which the focus is, whether or not the table has such a row.
    pub fn focus(&self) -> (focus: usize)
        ensures
            focus == self@.focus,
    {
        self.focus
    }

    /// The place of the item that the row shows, if there is such a row.
    pub fn item_at_row(&self, row: usize) -> (item: Option<usize>)
        ensures
            item == if row < self@.rows_to_items.len() {
                Some(self@.rows_to_items[row as int])
            } else {
                None
            },
    {
        if row < self.rows_to_items.len() {
            Some(self.rows_to_items[row])
        } else {
            None
        }
    }

    /// The row with the focus, if the table has items.
    pub fn row(&self) -> (row: Option<usize>)
        ensures
            row == self@.row(),
    {
        if self.items.len() == 0 {
            None
        } else {
            Some(self.focus)
        }
    }

    /// Puts the focus on the row.
    pub fn set_selected_row(&mut self, row_index: usize)
        ensures
            final(self)@ == (TableState { focus: row_index, ..old(self)@ }),
    {
        self.focus = row_index;
    }

    /// The table with the focus on the row.
    pub fn selected_row(self, row_index: usize) -> (table: Self)
        ensures
            table@ == (TableState { focus: row_index, ..self@ }),
    {
        let mut table = self;
        table.set_selected_row(row_index);
        table
    }

    /// Replaces the items: the rows show the new items in their order, and
    /// the focus is on the first row.
    pub fn set_items(&mut self, items: Vec<T>)
        ensures
            final(self)@ == (TableState {
                items: items@,
                rows_to_items: identity_rows(items@.len()),
                focus: if items@.len() > 0 {
                    0
                } else {
                    old(self)@.focus
                },
                needs_relayout: true,
                ..old(self)@
            }),
            final(self)@.is_consistent(),
    {
        self.set_items_and_focus(items, 0);
    }

    /// Replaces the items and puts the focus on the row of the item at place
    /// `new_location`, if there is such an item.
    pub fn set_items_and_focus(&mut self, items: Vec<T>, new_location: usize)
        ensures
            final(self)@ == (TableState {
                items: items@,
                rows_to_items: identity_rows(items@.len()),
                focus: if new_location < items@.len() {
                    new_location
                } else {
                    old(self)@.focus
                },
                needs_relayout: true,
                ..old(self)@
            }),
            final(self)@.is_consistent(),
    {
        self.rows_to_items = fresh_rows(items.len());
        self.items = items;
        proof {
            lemma_identity_rows_consistent(items@.len());
            if new_location < items@.len() {
                lemma_first_place_is(
                    identity_rows(items@.len()),
                    new_location,
                    new_location as int,
                );
            }
        }
        self.set_selected_item(new_location);
        self.needs_relayout = true;
    }

    /// The table with the items replaced, as `set_items` replaces them.
    pub fn items(self, items: Vec<T>) -> (table: Self)
        ensures
            table@ == (TableState {
                items: items@,
                rows_to_items: identity_rows(items@.len()),
                focus: if items@.len() > 0 {
                    0
                } else {
                    self@.focus
                },
                needs_relayout: true,
                ..self@
            }),
            table@.is_consistent(),
    {
        let mut table = self;
        table.set_items(items);
        table
    }

    /// The item at place `index`, if there is one.
    pub fn borrow_item(&self, index: usize) -> (item: Option<&T>)
        ensures
            index < self@.items.len() ==> item == Some(&self@.items[index as int]),
            index >= self@.items.len() ==> item is None,
    {
        if index < self.items.len() {
            Some(&self.items[index])
        } else {
            None
        }
    }

    /// The items, in the order in which they came.
    pub fn borrow_items(&self) -> (items: &[T])
        ensures
            items@ == self@.items,
    {
        self.items.as_slice()
    }

    /// The items, to be changed in place; the table works the widths of its
    /// columns out anew.
    pub fn borrow_items_mut(&mut self) -> (items: &mut [T])
        ensures
            items@ == old(self)@.items,
            final(self)@ == (TableState {
                items: final(items)@,
                needs_relayout: true,
                ..old(self)@
            }),
    {
        self.needs_relayout = true;
        self.items.as_mut_slice()
    }

    /// The item at place `index`, to be changed in place, if there is one.
    pub fn borrow_item_mut(&mut self, index: usize) -> (item: Option<&mut T>)
        ensures
            index >= old(self)@.items.len() ==> item is None && final(self)@ == old(self)@,
            index < old(self)@.items.len() ==> (item matches Some(it) && *it == old(
                self,
            )@.items[index as int] && final(self)@ == (TableState {
                items: old(self)@.items.update(index as int, *final(it)),
                ..old(self)@
            })),
    {
        if index < self.items.len() {
            Some(&mut self.items[index])
        } else {
            None
        }
    }

    /// The place of the item in the row with the focus, if there is such a
    /// row.
    pub fn item(&self) -> (item: Option<usize>)
        ensures
            item == self@.item(),
    {
        if self.focus < self.rows_to_items.len() {
            Some(self.rows_to_items[self.focus])
        } else {
            None
        }
    }

    /// Puts the focus on the first row that shows the item at place
    /// `item_index`, if the table has such an item and a row for it.
    pub fn set_selected_item(&mut self, item_index: usize)
        ensures
            final(self)@ == old(self)@.with_selected_item(item_index),
    {
        if item_index < self.items.len() {
            match find_row(&self.rows_to_items, item_index) {
                Some(row) => {
                    self.focus = row;
                },
                None => {},
            }
        }
    }

    /// The table with the focus on the row of the item at place `item_index`,
    /// as `set_selected_item` puts it.
    pub fn selected_item(self, item_index: usize) -> (table: Self)
        ensures
            table@ == self@.with_selected_item(item_index),
    {
        let mut table = self;
        table.set_selected_item(item_index);
        table
    }

    /// Puts an item behind the others, in a row behind the other rows.
    pub fn insert_item(&mut self, item: T)
        requires
            old(self)@.rows_to_items.len() >= old(self)@.items.len(),
        ensures
            final(self)@ == (TableState {
                items: old(self)@.items.push(item),
                rows_to_items: old(self)@.rows_to_items.insert(
                    old(self)@.items.len() as int,
                    old(self)@.items.len() as usize,
                ),
                needs_relayout: true,
                ..old(self)@
            }),
            old(self)@.is_consistent() ==> final(self)@.is_consistent(),
    {
        let at = self.items.len();
        self.insert_item_at(at, item);
    }

    /// Puts an item behind the others, in a row at place `index`.
    pub fn insert_item_at(&mut self, index: usize, item: T)
        requires
            index <= old(self)@.rows_to_items.len(),
        ensures
            final(self)@ == (TableState {
                items: old(self)@.items.push(item),
                rows_to_items: old(self)@.rows_to_items.insert(
                    index as int,
                    old(self)@.items.len() as usize,
                ),
                needs_relayout: true,
                ..old(self)@
            }),
            old(self)@.is_consistent() ==> final(self)@.is_consistent(),
    {
        self.items.push(item);
        let place = self.items.len() - 1;
        self.rows_to_items.insert(index, place);
        self.needs_relayout = true;
        proof {
            if old(self)@.is_consistent() {
                lemma_rows_insert_consistent(
                    old(self)@.rows_to_items,
                    old(self)@.items.len(),
                    index as int,
                );
            }
        }
    }

    /// The table without the item at place `item_index`, which is the
    /// result: if its row has the focus, the focus moves up by one row; the
    /// row is gone. `None`, and no change, where there is no such item.
    pub fn remove_item(&mut self, item_index: usize) -> (removed: Option<T>)
        ensures
            item_index >= old(self)@.items.len() ==> removed is None && final(self)@ == old(
                self,
            )@,
            item_index < old(self)@.items.len() ==> removed == Some(
                old(self)@.items[item_index as int],
            ) && final(self)@ == (TableState {
                items: old(self)@.items.remove(item_index as int),
                rows_to_items: rows_without(old(self)@.rows_to_items, item_index),
                focus: if old(self)@.item() == Some(item_index) {
                    focus_up_by(old(self)@.focus, 1)
                } else {
                    old(self)@.focus
                },
                needs_relayout: true,
                ..old(self)@
            }),
            old(self)@.is_consistent() ==> final(self)@.is_consistent(),
    {
        if item_index < self.items.len() {
            match self.item() {
                Some(selected_index) => {
                    if selected_index == item_index {
                        self.focus_up(1);
                    }
                },
                None => {},
            }
            self.rows_to_items = without_item(&self.rows_to_items, item_index);
            self.needs_relayout = true;
            proof {
                if old(self)@.is_consistent() {
                    lemma_rows_without_consistent(
                        old(self)@.rows_to_items,
                        old(self)@.items.len(),
                        item_index,
                    );
                }
            }
            Some(self.items.remove(item_index))
        } else {
            None
        }
    }

    /// Takes all items out of the table, which are the result; the focus is
    /// on the first row.
    pub fn take_items(&mut self) -> (items: Vec<T>)
        ensures
            items@ == old(self)@.items,
            final(self)@ == (TableState {
                items: Seq::empty(),
                rows_to_items: Seq::empty(),
                focus: 0,
                needs_relayout: true,
                ..old(self)@
            }),
            final(self)@.is_consistent(),
    {
        self.set_selected_row(0);
        self.rows_to_items.clear();
        self.needs_relayout = true;
        let mut items: Vec<T> = Vec::new();
        items.append(&mut self.items);
        proof {
            lemma_identity_rows_consistent(0);
        }
        items
    }

    /// Moves the focus up by `n` rows, as far as there are rows.
    pub fn focus_up(&mut self, n: usize)
        ensures
            final(self)@ == (TableState { focus: focus_up_by(old(self)@.focus, n), ..old(self)@ }),
    {
        self.focus = focus_above(self.focus, n);
    }

    /// Moves the focus down by `n` rows, as far as there are items.
    pub fn focus_down(&mut self, n: usize)
        ensures
            final(self)@ == (TableState {
                focus: focus_down_by(old(self)@.focus, n, old(self)@.items.len()),
                ..old(self)@
            }),
    {
        self.focus = focus_below(self.focus, n, self.items.len());
    }

    /// Ends the selecting of a column.
    pub fn column_cancel(&mut self)
        ensures
            final(self)@ == (TableState { column_select: false, ..old(self)@ }),
    {
        self.column_select = false;
    }
}

impl<T, H> TableView<T, H> {
    /// The place of the active column: the first selected column, or the
    /// first column where none is selected.
    pub fn active_column(&self) -> (place: usize)
        ensures
            place == active_of(self@.columns),
    {
        let mut at: usize = 0;
        while at < self.columns.len()
            invariant
                0 <= at <= self.columns@.len(),
                first_selected(self.columns@, 0) == first_selected(self.columns@, at as int),
            decreases self.columns@.len() - at,
        {
            if self.columns[at].selected {
                return at;
            }
            at = at + 1;
        }
        0
    }

    /// The place of the column at `x` characters from the left; `None`
    /// between two columns and behind the last.
    pub fn column_for_x(&self, x: usize) -> (place: Option<usize>)
        ensures
            match place {
                Some(p) => p < self@.columns.len() && column_at(self@.columns, x as int, 0)
                    == Some(p as int),
                None => column_at(self@.columns, x as int, 0) is None,
            },
    {
        let mut left: usize = x;
        let mut at: usize = 0;
        while at < self.columns.len()
            invariant
                0 <= at <= self.columns@.len(),
                column_at(self.columns@, x as int, 0) == column_at(
                    self.columns@,
                    left as int,
                    at as int,
                ),
            decreases self.columns@.len() - at,
        {
            let width = self.columns[at].width;
            if left < width {
                return Some(at);
            }
            if left - width < 3 {
                return None;
            }
            left = left - width - 3;
            at = at + 1;
        }
        None
    }

    /// What the table makes of an event whose focus was on the row `before`.
    fn settle(&self, before: usize) -> (outcome: RowOutcome)
        ensures
            (self@, outcome) == self@.settled(before),
    {
        if self.column_select {
            RowOutcome::Consumed
        } else if self.items.len() > 0 && before != self.focus {
            RowOutcome::Selected { row: self.focus, item: self.item() }
        } else {
            RowOutcome::Ignored
        }
    }

    /// Takes an event that goes to the rows of the table. `has_on_submit`
    /// says whether anything is to happen when a row is submitted.
    pub fn on_inner_event(&mut self, event: RowEvent, has_on_submit: bool) -> (outcome:
        RowOutcome)
        ensures
            (final(self)@, outcome) == old(self)@.after_event(event, has_on_submit),
    {
        let last_focus = self.focus;
        let count = self.items.len();
        match event {
            RowEvent::Key(RowKey::Right) => {
                return RowOutcome::Ignored;
            },
            RowEvent::Key(RowKey::Left) => {
                return RowOutcome::Ignored;
            },
            RowEvent::Key(RowKey::Up) => {
                if self.column_select {
                    self.column_cancel();
                } else if self.focus > 0 {
                    self.focus_up(1);
                } else {
                    return RowOutcome::Ignored;
                }
            },
            RowEvent::Key(RowKey::Down) => {
                if self.column_select {
                    self.column_cancel();
                } else if self.focus < usize::MAX && self.focus + 1 < count {
                    self.focus_down(1);
                } else {
                    return RowOutcome::Ignored;
                }
            },
            RowEvent::Key(RowKey::PageUp) => {
                self.column_cancel();
                self.focus_up(10);
            },
            RowEvent::Key(RowKey::PageDown) => {
                self.column_cancel();
                self.focus_down(10);
            },
            RowEvent::Key(RowKey::Home) => {
                self.column_cancel();
                self.focus = 0;
            },
            RowEvent::Key(RowKey::End) => {
                self.column_cancel();
                self.focus = focus_below(0, usize::MAX, self.items.len());
            },
            RowEvent::Key(RowKey::Enter) => {
                if self.column_select {
                    return RowOutcome::Ignored;
                } else if self.items.len() > 0 && has_on_submit {
                    return RowOutcome::Submitted { row: self.focus, item: self.item() };
                }
            },
            RowEvent::Press { left_button, x, y } => {
                if self.items.len() == 0 {
                    return RowOutcome::Ignored;
                } else if left_button && y == self.focus {
                    self.column_cancel();
                    if has_on_submit {
                        return RowOutcome::Submitted { row: self.focus, item: self.item() };
                    } else {
                        return RowOutcome::Ignored;
                    }
                } else if y < self.rows_to_items.len() {
                    self.column_cancel();
                    self.focus = y;
                } else {
                    return RowOutcome::Ignored;
                }
            },
            RowEvent::Other => {
                return RowOutcome::Ignored;
            },
        }
        self.settle(last_focus)
    }

    /// Takes a press of the left button on the head of the table, `x`
    /// characters from the left.
    pub fn on_header_press(&mut self, x: usize)
        ensures
            final(self)@ == old(self)@.after_header_press(x),
    {
        match self.column_for_x(x) {
            Some(place) => {
                if !(self.column_select && self.columns[place].selected) {
                    let active = self.active_column();
                    proof {
                        lemma_active_in_range(self.columns@);
                    }
                    self.columns[active].selected = false;
                    self.columns[place].selected = true;
                    self.column_select = true;
                    proof {
                        let cleared = old(self)@.columns.update(
                            active as int,
                            TableColumn { selected: false, ..old(self)@.columns[active as int] },
                        );
                        assert(final(self)@.columns =~= cleared.update(
                            place as int,
                            TableColumn { selected: true, ..cleared[place as int] },
                        ));
                    }
                }
            },
            None => {},
        }
    }
}

/// The active column of a table that has columns is one of them.
pub proof fn lemma_active_in_range<H>(columns: Seq<TableColumn<H>>)
    ensures
        columns.len() > 0 ==> 0 <= active_of(columns) < columns.len(),
        columns.len() == 0 ==> active_of(columns) == 0,
{
    lemma_first_selected_in_range(columns, 0);
}

/// The first selected column from a place on stands at or behind that place.
proof fn lemma_first_selected_in_range<H>(columns: Seq<TableColumn<H>>, from: int)
    requires
        0 <= from,
    ensures
        first_selected(columns, from) matches Some(place) ==> from <= place < columns.len(),
    decreases columns.len() - from,
{
    if from < columns.len() && !columns[from].selected {
        lemma_first_selected_in_range(columns, from + 1);
    }
}

/// The first place at which an item stands that equals `wanted`, or the
/// number of items where none does.
pub open spec fn first_equal<T: PartialEq>(items: Seq<T>, wanted: T) -> nat
    decreases items.len(),
{
    if items.len() == 0 || items[0].eq_spec(&wanted) {
        0
    } else {
        1 + first_equal(items.skip(1), wanted)
    }
}

/// The first place at which an item stands that equals `wanted`, or the
/// number of items where none does.
fn first_equal_place<T: PartialEq>(items: &Vec<T>, wanted: &T) -> (place: usize)
    ensures
        place <= items@.len(),
        T::obeys_eq_spec() ==> place == first_equal(items@, *wanted),
{
    let mut at: usize = 0;
    assert(items@.skip(0) =~= items@);
    while at < items.len()
        invariant
            0 <= at <= items@.len(),
            T::obeys_eq_spec() ==> first_equal(items@, *wanted) == at + first_equal(
                items@.skip(at as int),
                *wanted,
            ),
        decreases items@.len() - at,
    {
        proof {
            assert(items@.skip(at as int).skip(1) =~= items@.skip(at + 1));
        }
        if items[at].eq(wanted) {
            return at;
        }
        at = at + 1;
    }
    at
}

impl<T: PartialEq, H> TableView<T, H> {
    /// Replaces the items and keeps the selection: the focus goes to the
    /// first of the new items that equals the item that had the focus, and to
    /// the first row where there is none.
    pub fn set_items_stable(&mut self, items: Vec<T>)
        requires
            old(self)@.item() matches Some(place) ==> place < old(self)@.items.len(),
        ensures
            final(self)@.items == items@,
            final(self)@.rows_to_items == identity_rows(items@.len()),
            final(self)@.needs_relayout,
            final(self)@.enabled == old(self)@.enabled,
            final(self)@.column_select == old(self)@.column_select,
            final(self)@.columns == old(self)@.columns,
            final(self)@.is_consistent(),
            items@.len() == 0 ==> final(self)@.focus == old(self)@.focus,
            items@.len() > 0 ==> final(self)@.focus < items@.len(),
            T::obeys_eq_spec() && items@.len() > 0 ==> final(self)@.focus == match old(
                self,
            )@.item() {
                Some(place) => if first_equal(items@, old(self)@.items[place as int])
                    < items@.len() {
                    first_equal(items@, old(self)@.items[place as int]) as usize
                } else {
                    0
                },
                None => 0,
            },
    {
        let new_location = match self.item() {
            Some(place) => {
                let found = first_equal_place(&items, &self.items[place]);
                if found < items.len() {
                    found
                } else {
                    0
                }
            },
            None => 0,
        };
        self.set_items_and_focus(items, new_location);
    }
}

} // verus!
