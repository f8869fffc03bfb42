use oper::commit_time::CommitTime;
use oper::history::{MultiRepoHistory, RepoWalk};
use oper::model::{Classifier, CommitMeta, Repo};
use oper::scan::WalkItem;
use oper::styles::Color;
use oper::ui::{found_text, screen_layout, screen_size_text, status_gap, ScreenLayout};
use oper::views::main_view::{
    history_rows, new_table, update_commit_bar, Column, HistoryRow, COLUMN_WIDTH_COMITTER,
    COLUMN_WIDTH_COMMIT_DATE, COLUMN_WIDTH_REPO_NAME, COLUMN_WIDTH_SUBJECT,
};
use oper::views::table_view::{TableColumnWidth, TableViewItem};
use std::cmp::Ordering;

fn history_of(commits: &[(&str, i64, i32, usize)]) -> MultiRepoHistory {
    let repos = vec![
        Repo::from("/work/platform/art".to_string(), "platform/art".to_string()).unwrap(),
        Repo::from("/work/kernel".to_string(), "kernel".to_string()).unwrap(),
    ];
    let mut walks = vec![Vec::new(), Vec::new()];
    for (name, seconds, offset, repo) in commits {
        walks[*repo].push(WalkItem::Commit(CommitMeta {
            id: format!("id-{}", name),
            time: CommitTime::new(*seconds, *offset),
            summary: Some(format!("summary {}", name)),
            author_name: Some(format!("author {}", name)),
            author_email: None,
            committer_name: Some(format!("committer {}", name)),
            message: None,
        }));
    }
    let walks = walks.into_iter().map(RepoWalk::Walked).collect();
    let classifier = Classifier::new(u32::MAX, None, None);
    MultiRepoHistory::from(repos, &classifier, 1_700_000_000, Ok(walks)).unwrap()
}

#[test]
fn rows_of_the_history() {
    let history = history_of(&[("a", 1_431_648_000, 0, 0), ("b", 1_600_000_000, 120, 1)]);
    let rows = history_rows(&history).unwrap();
    assert_eq!(rows.len(), 2);
    assert_eq!(
        rows[0],
        HistoryRow {
            commit: history.commits[0].clone(),
            repo: history.repos[1].clone(),
            time: "2020-09-13 14:26 +0200".to_string(),
        }
    );
    assert_eq!(rows[1].commit.commit_id, "id-a");
    assert_eq!(rows[0].repo.rel_path, "kernel");
    assert_eq!(rows[1].repo.abs_path, "/work/platform/art");
    assert_eq!(rows[1].repo.rel_path, "platform/art");
    assert_eq!(rows[1].repo.description, "art");
    assert_eq!(rows[1].time, "2015-05-15 00:00 +0000");
    assert_eq!(rows[1].clone(), rows[1]);
}

#[test]
fn no_rows_where_a_commit_time_has_no_date() {
    let history = history_of(&[("a", 1_431_648_000, 0, 0), ("b", 1_600_000_000, 1440, 1)]);
    assert_eq!(history_rows(&history), None);
    assert_eq!(new_table(&history), None);
}

#[test]
fn columns_of_a_row() {
    let history = history_of(&[("a", 1_431_648_000, 0, 0)]);
    let row = &history_rows(&history).unwrap()[0];
    assert_eq!(row.to_column(Column::CommitDateTime), "2015-05-15 00:00 +0000");
    assert_eq!(row.to_column(Column::Comitter), "committer a");
    assert_eq!(row.to_column(Column::Repo), "art");
    assert_eq!(row.to_column(Column::Summary), "summary a");
}

#[test]
fn rows_are_compared_by_a_column() {
    let history = history_of(&[("a", 1_431_648_000, 0, 1), ("b", 1_600_000_000, 0, 0)]);
    let rows = history_rows(&history).unwrap();
    let (b, a) = (&rows[0], &rows[1]);
    assert_eq!(a.cmp(b, Column::CommitDateTime), Ordering::Less);
    assert_eq!(b.cmp(a, Column::CommitDateTime), Ordering::Greater);
    assert_eq!(a.cmp(a, Column::CommitDateTime), Ordering::Equal);
    assert_eq!(a.cmp(b, Column::Comitter), Ordering::Less);
    assert_eq!(a.cmp(b, Column::Repo), Ordering::Greater);
    assert_eq!(b.cmp(a, Column::Repo), Ordering::Less);
    assert_eq!(a.cmp(b, Column::Summary), Ordering::Less);
    assert_eq!(b.cmp(b, Column::Summary), Ordering::Equal);
}

#[test]
fn table_of_the_history() {
    let history = history_of(&[("a", 1_431_648_000, 0, 0), ("b", 1_600_000_000, 120, 1)]);
    let table = new_table(&history).unwrap();
    assert_eq!(table.len(), 2);
    assert_eq!(table.row(), Some(0));
    assert_eq!(table.item(), Some(0));
    assert_eq!(table.borrow_items(), history_rows(&history).unwrap().as_slice());
    assert!(table.is_enabled());
    let columns: Vec<(Column, &str, Option<TableColumnWidth>, Option<Color>)> = table
        .columns()
        .iter()
        .map(|c| (c.column, c.title.as_str(), c.requested_width, c.color))
        .collect();
    assert_eq!(
        columns,
        vec![
            (Column::CommitDateTime, "Commit", Some(TableColumnWidth::Absolute(22)), None),
            (Column::Repo, "Repo", Some(TableColumnWidth::Absolute(15)), Some(Color::Red)),
            (Column::Comitter, "Committer", Some(TableColumnWidth::Absolute(17)), Some(Color::Green)),
            (Column::Summary, "Summary", Some(TableColumnWidth::Absolute(50)), Some(Color::White)),
        ]
    );
    assert_eq!(
        (COLUMN_WIDTH_COMMIT_DATE, COLUMN_WIDTH_REPO_NAME, COLUMN_WIDTH_COMITTER, COLUMN_WIDTH_SUBJECT),
        (22, 15, 17, 50)
    );
    assert_eq!(new_table(&history_of(&[])).unwrap().row(), None);
}

#[test]
fn line_below_the_table() {
    assert_eq!(update_commit_bar(0, 12, "platform/art"), "Commit 1 of 12 - platform/art");
    assert_eq!(update_commit_bar(11, 12, ""), "Commit 12 of 12 - ");
    assert_eq!(update_commit_bar(99, 0, "x"), "Commit 100 of 0 - x");
}

#[test]
fn status_bar() {
    assert_eq!(found_text(3, 2, 0), "Found 3 commits across 2 repositories");
    assert_eq!(found_text(0, 0, 0), "Found 0 commits across 0 repositories");
    assert_eq!(
        found_text(3, 2, 1),
        "Found 3 commits across 2 repositories (1 commits could not be read)"
    );
    assert_eq!(
        found_text(0, 12, 345),
        "Found 0 commits across 12 repositories (345 commits could not be read)"
    );
    assert_eq!(screen_size_text(80, 24), " [80x24]");
    assert_eq!(status_gap(80, 37, 8), Some(35));
    assert_eq!(status_gap(46, 37, 8), Some(1));
    assert_eq!(status_gap(45, 37, 8), None);
    assert_eq!(status_gap(10, 37, 8), None);
    assert_eq!(status_gap(usize::MAX, usize::MAX, usize::MAX), None);
}

#[test]
fn wide_screen_is_shared_side_by_side() {
    assert_eq!(screen_layout(240, 80), ScreenLayout::Landscape { diff_width: 119 });
    assert_eq!(screen_layout(239, 80), ScreenLayout::Portrait { diff_height: 39 });
    assert_eq!(screen_layout(80, 24), ScreenLayout::Landscape { diff_width: 39 });
    assert_eq!(screen_layout(80, 27), ScreenLayout::Portrait { diff_height: 12 });
    assert_eq!(screen_layout(3, 1), ScreenLayout::Landscape { diff_width: 0 });
    assert_eq!(screen_layout(5, 2), ScreenLayout::Portrait { diff_height: 0 });
    assert_eq!(screen_layout(usize::MAX, usize::MAX), ScreenLayout::Portrait { diff_height: usize::MAX / 2 - 1 });
}

#[test]
fn commits_one_in_a_line() {
    let history = history_of(&[("a", 1_431_648_000, 0, 0), ("b", 1_600_000_000, 120, 1)]);
    assert_eq!(
        history.commits[0].line("kernel"),
        Some("2020-09-13 14:26 +0200 kernel     committer  summary b\n".to_string())
    );
    assert_eq!(
        history.commits[1].line("a-very-long-name"),
        Some("2015-05-15 00:00 +0000 a-very-lon committer  summary a\n".to_string())
    );
    assert_eq!(
        history.lines(),
        Some(
            "2020-09-13 14:26 +0200 kernel     committer  summary b\n\
             2015-05-15 00:00 +0000 art        committer  summary a\n"
                .to_string()
        )
    );
    assert_eq!(history_of(&[]).lines(), Some(String::new()));
    let history = history_of(&[("a", 1_431_648_000, 0, 0), ("b", 1_600_000_000, 1440, 1)]);
    assert_eq!(history.commits[0].line("kernel"), None);
    assert_eq!(history.lines(), None);
}
