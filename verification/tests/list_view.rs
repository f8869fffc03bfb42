use oper::commit_time::CommitTime;
use oper::model::{CommitMeta, RepoCommit};
use oper::styles::Color;
use oper::views::diff_view::DiffView;
use oper::views::list_view::{ListItem, ListView};
use oper::views::rows::{find_row, fresh_rows, without_item, RowEvent, RowKey, RowOutcome};

fn letters(count: u8) -> ListView<char> {
    let mut list = ListView::new();
    for n in 0..count {
        list.insert_item((b'a' + n) as char);
    }
    list
}

fn lines(list: &ListView<ListItem>) -> Vec<(String, Option<Color>)> {
    list.borrow_items().iter().map(|item| (item.text.clone(), item.color)).collect()
}

fn line(text: &str, color: Color) -> (String, Option<Color>) {
    (text.to_string(), Some(color))
}

#[test]
fn new_list_is_empty_and_enabled() {
    let mut list = ListView::<char>::new();
    assert_eq!(list.len(), 0);
    assert!(list.is_empty());
    assert!(list.is_enabled());
    assert!(list.needs_relayout());
    assert_eq!(list.row(), None);
    assert_eq!(list.item(), None);
    list.layout_content();
    assert!(!list.needs_relayout());
    list.disable();
    assert!(!list.is_enabled());
    list.enable();
    assert!(list.is_enabled());
    list.set_enabled(false);
    assert!(!list.is_enabled());
}

#[test]
fn list_items_have_rows_in_their_order() {
    let mut list = letters(3);
    assert_eq!(list.len(), 3);
    assert_eq!(list.row_count(), 3);
    assert_eq!(list.borrow_items(), &vec!['a', 'b', 'c']);
    assert_eq!(list.borrow_item(1), Some(&'b'));
    assert_eq!(list.borrow_item(3), None);
    assert_eq!(list.row(), Some(0));
    assert_eq!(list.item(), Some(0));
    list.set_selected_row(2);
    assert_eq!(list.item(), Some(2));
    list.set_selected_row(3);
    assert_eq!(list.row(), Some(3));
    assert_eq!(list.focus(), 3);
    assert_eq!(list.item(), None);
    assert_eq!(list.item_at_row(2), Some(2));
    assert_eq!(list.item_at_row(3), None);
    list.set_selected_item(1);
    assert_eq!(list.row(), Some(1));
    list.set_selected_item(3);
    assert_eq!(list.row(), Some(1));
    assert_eq!(letters(3).selected_row(2).row(), Some(2));
    assert_eq!(letters(3).selected_item(2).item(), Some(2));
}

#[test]
fn list_items_are_removed_taken_and_cleared() {
    let mut list = letters(4).selected_row(1);
    assert_eq!(list.remove_item(1), Some('b'));
    assert_eq!(list.row(), Some(0));
    assert_eq!(list.borrow_items(), &vec!['a', 'c', 'd']);
    assert_eq!(list.row_count(), 3);
    list.set_selected_row(2);
    assert_eq!(list.item(), Some(2));
    assert_eq!(list.remove_item(0), Some('a'));
    assert_eq!(list.row(), Some(2));
    assert_eq!(list.item(), None);
    assert_eq!(list.remove_item(2), None);
    assert_eq!(list.take_items(), vec!['c', 'd']);
    assert!(list.is_empty());
    assert_eq!(list.row_count(), 0);
    let mut list = letters(2);
    list.clear();
    assert!(list.is_empty());
    assert_eq!(list.row_count(), 0);
}

#[test]
fn keys_move_the_focus_of_a_list() {
    let mut list = letters(15);
    let key = |list: &mut ListView<char>, key| list.on_inner_event(RowEvent::Key(key), true);
    assert_eq!(key(&mut list, RowKey::Up), RowOutcome::Ignored);
    assert_eq!(key(&mut list, RowKey::Down), RowOutcome::Selected { row: 1, item: Some(1) });
    assert_eq!(key(&mut list, RowKey::PageDown), RowOutcome::Selected { row: 11, item: Some(11) });
    assert_eq!(key(&mut list, RowKey::PageDown), RowOutcome::Selected { row: 14, item: Some(14) });
    assert_eq!(key(&mut list, RowKey::Down), RowOutcome::Ignored);
    assert_eq!(key(&mut list, RowKey::Enter), RowOutcome::Submitted { row: 14, item: Some(14) });
    assert_eq!(key(&mut list, RowKey::PageUp), RowOutcome::Selected { row: 4, item: Some(4) });
    assert_eq!(key(&mut list, RowKey::Home), RowOutcome::Selected { row: 0, item: Some(0) });
    assert_eq!(key(&mut list, RowKey::End), RowOutcome::Selected { row: 14, item: Some(14) });
    assert_eq!(key(&mut list, RowKey::Left), RowOutcome::Ignored);
    assert_eq!(key(&mut list, RowKey::Right), RowOutcome::Ignored);
    assert_eq!(list.on_inner_event(RowEvent::Key(RowKey::Enter), false), RowOutcome::Ignored);
    assert_eq!(list.on_inner_event(RowEvent::Other, true), RowOutcome::Ignored);
    list.focus_up(3);
    assert_eq!(list.row(), Some(11));
    list.focus_down(1);
    assert_eq!(list.row(), Some(12));
}

#[test]
fn keys_on_an_empty_list() {
    let mut list = letters(0);
    for key in [RowKey::Up, RowKey::Down, RowKey::PageUp, RowKey::PageDown, RowKey::Home, RowKey::End, RowKey::Enter] {
        assert_eq!(list.on_inner_event(RowEvent::Key(key), true), RowOutcome::Ignored);
    }
    list.insert_item('a');
    assert_eq!(list.row(), Some(0));
}

#[test]
fn press_on_a_list() {
    let mut list = letters(3);
    let left = |y| RowEvent::Press { left_button: true, x: 0, y };
    let other = |y| RowEvent::Press { left_button: false, x: 0, y };
    assert_eq!(list.on_inner_event(left(1), true), RowOutcome::Selected { row: 1, item: Some(1) });
    assert_eq!(list.on_inner_event(left(1), true), RowOutcome::Submitted { row: 1, item: Some(1) });
    assert_eq!(list.on_inner_event(left(1), false), RowOutcome::Ignored);
    assert_eq!(list.on_inner_event(other(1), true), RowOutcome::Ignored);
    assert_eq!(list.on_inner_event(other(2), true), RowOutcome::Selected { row: 2, item: Some(2) });
    assert_eq!(list.on_inner_event(left(3), true), RowOutcome::Ignored);
}

#[test]
fn strings_are_inserted_line_by_line() {
    let mut list = ListView::<ListItem>::new();
    list.insert_string("one\ntwo".to_string());
    list.insert_colorful_string("three\n\nfour\n".to_string(), Color::Green);
    list.insert_string("".to_string());
    assert_eq!(
        lines(&list),
        vec![
            ("one".to_string(), None),
            ("two".to_string(), None),
            line("three", Color::Green),
            line("", Color::Green),
            line("four", Color::Green),
            line("", Color::Green),
            ("".to_string(), None),
        ]
    );
    assert_eq!(list.row_count(), 7);
    list.set_selected_row(6);
    assert_eq!(list.item(), Some(6));
    assert_eq!(list.borrow_item(2).unwrap().clone(), ListItem { text: "three".to_string(), color: Some(Color::Green) });
}

#[test]
fn rows_in_order_and_without_an_item() {
    assert_eq!(fresh_rows(0), Vec::new());
    assert_eq!(fresh_rows(4), vec![0, 1, 2, 3]);
    assert_eq!(without_item(&vec![2, 0, 3, 1], 1), vec![1, 0, 2]);
    assert_eq!(without_item(&vec![2, 0, 3, 1], 3), vec![2, 0, 1]);
    assert_eq!(without_item(&vec![2, 0, 3, 1], 4), vec![2, 0, 3, 1]);
    assert_eq!(without_item(&vec![1, 1, 5], 1), vec![4]);
    assert_eq!(find_row(&vec![2, 0, 3, 0], 0), Some(1));
    assert_eq!(find_row(&vec![2, 0, 3, 0], 2), Some(0));
    assert_eq!(find_row(&vec![2, 0, 3, 0], 1), None);
}

#[test]
fn description_of_a_commit() {
    let commit = RepoCommit::from(
        0,
        &CommitMeta {
            id: "0a1b2c".to_string(),
            time: CommitTime::new(0, 0),
            summary: None,
            author_name: None,
            author_email: None,
            committer_name: None,
            message: None,
        },
    );
    let mut view = DiffView::empty();
    assert_eq!(view.commit(), &None);
    assert!(view.with_view().is_empty());
    let show = "commit 0a1b2c\nAuthor: A <a@x>\r\n\n    message\n";
    let diff = "diff --git a/x b/x\n--- a/x\n+++ b/x\n@@ -1 +1 @@\n-old\n+new\n same\r";
    view.set_commit(&commit, "platform/art", show, diff);
    assert_eq!(view.commit(), &Some(commit.clone()));
    assert_eq!(
        lines(view.with_view()),
        vec![
            line("Repo:       platform/art", Color::Red),
            line("commit 0a1b2c", Color::Blue),
            line("Author: A <a@x>", Color::LightBlue),
            line("", Color::White),
            line("    message", Color::White),
            line("―――", Color::Yellow),
            line("diff --git a/x b/x", Color::Yellow),
            line("--- a/x", Color::Yellow),
            line("+++ b/x", Color::Yellow),
            line("@@ -1 +1 @@", Color::Magenta),
            line("-old", Color::Red),
            line("+new", Color::Green),
            line(" same\r", Color::White),
        ]
    );
    assert_eq!(view.with_view().row(), Some(0));
    let down = view.on_event(RowEvent::Key(RowKey::Down), false);
    assert_eq!(down, RowOutcome::Selected { row: 1, item: Some(1) });
    view.set_commit(&commit, "other", "", "");
    assert_eq!(
        lines(view.with_view()),
        vec![line("Repo:       other", Color::Red), line("―――", Color::Yellow)]
    );
    assert_eq!(view.with_view().row(), Some(0));
}

#[test]
fn list_items_are_changed_in_place() {
    let mut list = letters(3);
    *list.borrow_item_mut(1).unwrap() = 'x';
    assert_eq!(list.borrow_item_mut(3), None);
    assert_eq!(list.borrow_items(), &vec!['a', 'x', 'c']);
    list.borrow_items_mut()[2] = 'y';
    assert_eq!(list.borrow_items(), &vec!['a', 'x', 'y']);
    assert_eq!(list.row_count(), 3);
}
