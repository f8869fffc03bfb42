use oper::commit_time::CommitTime;
use oper::history::{
    scan_repository, FailureStage, MultiRepoHistory, Recovery, RepoWalk, ScanError,
};
use oper::model::{Classifier, CommitMeta, Repo, RepoCommit, RevWalkStrategy};
use oper::progress::{
    failure_line, idle_label, repository_begins, repository_ends, scan_begins, scanning_label,
    worker_count,
    ProgressOp,
};
use oper::scan::{RepoScan, WalkItem};
use oper::sorting::sort_newest_first;

const NOW: i64 = 1_700_000_000;
const DAY: i64 = 86_400;

fn repo(name: &str) -> Repo {
    Repo::described(format!("/work/{}", name), name.to_string(), name.to_string())
}

fn commit_by(id: &str, age_days: i64, author: &str, email: &str) -> WalkItem {
    WalkItem::Commit(CommitMeta {
        id: id.to_string(),
        time: CommitTime::new(NOW - age_days * DAY, 0),
        summary: Some(id.to_string()),
        author_name: Some(author.to_string()),
        author_email: Some(email.to_string()),
        committer_name: Some(author.to_string()),
        message: Some(id.to_string()),
    })
}

fn commit_aged(id: &str, age_days: i64) -> WalkItem {
    commit_by(id, age_days, "Dave", "dave@example.org")
}

fn commit_at(id: &str, seconds: i64, offset_minutes: i32) -> WalkItem {
    WalkItem::Commit(CommitMeta {
        id: id.to_string(),
        time: CommitTime::new(seconds, offset_minutes),
        summary: None,
        author_name: None,
        author_email: None,
        committer_name: None,
        message: None,
    })
}

fn ids(commits: &[RepoCommit]) -> Vec<String> {
    commits.iter().map(|c| c.commit_id.clone()).collect()
}

fn assert_newest_first(history: &MultiRepoHistory) {
    for pair in history.commits.windows(2) {
        assert!(pair[0].commit_time >= pair[1].commit_time);
    }
}

#[test]
fn old_commit_ends_the_walk_of_its_repository_only() {
    let classifier = Classifier::new(10, None, None);
    let walks = vec![
        RepoWalk::Walked(vec![
            commit_aged("R1@0", 0),
            commit_aged("R1@5", 5),
            commit_aged("R1@40", 40),
            commit_aged("R1@41", 41),
            WalkItem::Unresolvable,
        ]),
        RepoWalk::Walked(vec![commit_aged("R2@1", 1), commit_aged("R2@2", 2)]),
    ];
    let history =
        MultiRepoHistory::from(vec![repo("r1"), repo("r2")], &classifier, NOW, Ok(walks)).unwrap();
    assert_eq!(ids(&history.commits), vec!["R1@0", "R2@1", "R2@2", "R1@5"]);
    assert_eq!(
        history.commits.iter().map(|c| c.repo).collect::<Vec<usize>>(),
        vec![0, 1, 1, 0]
    );
    assert_eq!(history.locally_missing_commits, 0);
    assert_eq!(history.repos, vec![repo("r1"), repo("r2")]);
    assert_newest_first(&history);
}

#[test]
fn author_pattern_picks_commits_across_repositories() {
    let classifier = Classifier::new(10, Some("alice"), None);
    let walks = vec![
        RepoWalk::Walked(vec![
            commit_by("a1", 0, "Alice", "a@example.org"),
            commit_by("b1", 1, "Bob", "bob@example.org"),
            commit_by("a2", 2, "A. L.", "ALICE@example.org"),
        ]),
        RepoWalk::Walked(vec![
            commit_by("b2", 0, "Bob", "bob@example.org"),
            commit_by("a3", 3, "malice", "m@example.org"),
            commit_by("a4", 11, "alice", "alice@example.org"),
        ]),
    ];
    let history =
        MultiRepoHistory::from(vec![repo("r1"), repo("r2")], &classifier, NOW, Ok(walks)).unwrap();
    assert_eq!(ids(&history.commits), vec!["a1", "a2", "a3"]);
    assert_newest_first(&history);
}

#[test]
fn repository_that_cannot_be_opened_leaves_the_others() {
    let classifier = Classifier::new(10, None, None);
    let repos = vec![repo("broken"), repo("sound")];
    let cause = "could not find repository from '/work/broken'";
    let walks = vec![
        RepoWalk::Failed(FailureStage::Open, cause.to_string()),
        RepoWalk::Walked(vec![commit_aged("s1", 1), commit_aged("s2", 2)]),
    ];
    let line = failure_line(FailureStage::Open, &repos[0], cause);
    assert_eq!(line, "Failed to open: broken: could not find repository from '/work/broken'");
    let history = MultiRepoHistory::from(repos, &classifier, NOW, Ok(walks)).unwrap();
    assert_eq!(ids(&history.commits), vec!["s1", "s2"]);
    assert!(history.commits.iter().all(|c| c.repo == 1));
    assert_eq!(history.repos.len(), 2);
    assert_eq!(history.repos[0], repo("broken"));
    assert_eq!(history.locally_missing_commits, 0);
}

#[test]
fn repository_whose_walk_cannot_be_made_adds_nothing() {
    let classifier = Classifier::new(10, None, None);
    let walks = vec![
        RepoWalk::Walked(vec![commit_aged("s1", 1)]),
        RepoWalk::Failed(FailureStage::CreateWalk, "odb".to_string()),
        RepoWalk::Failed(FailureStage::SeedWalk, "no head".to_string()),
    ];
    let repos = vec![repo("a"), repo("b"), repo("c")];
    let history = MultiRepoHistory::from(repos, &classifier, NOW, Ok(walks)).unwrap();
    assert_eq!(ids(&history.commits), vec!["s1"]);
}

#[test]
fn missing_commits_of_all_walks_are_counted() {
    let classifier = Classifier::new(10, None, None);
    let walks = vec![
        RepoWalk::Walked(vec![WalkItem::Unresolvable, commit_aged("a", 1), WalkItem::Unresolvable]),
        RepoWalk::Failed(FailureStage::Open, "gone".to_string()),
        RepoWalk::Walked(vec![
            WalkItem::Unresolvable,
            commit_aged("old", 20),
            WalkItem::Unresolvable,
            WalkItem::Unresolvable,
        ]),
        RepoWalk::Walked(vec![WalkItem::Unresolvable]),
    ];
    let repos = vec![repo("a"), repo("b"), repo("c"), repo("d")];
    let history = MultiRepoHistory::from(repos, &classifier, NOW, Ok(walks)).unwrap();
    assert_eq!(history.locally_missing_commits, 4);
    assert_eq!(ids(&history.commits), vec!["a"]);
}

#[test]
fn no_history_without_a_pool_of_workers() {
    let classifier = Classifier::new(10, None, None);
    let history = MultiRepoHistory::from(
        vec![repo("a")],
        &classifier,
        NOW,
        Err("cannot spawn threads".to_string()),
    );
    assert_eq!(
        history,
        Err(ScanError::PoolConstructionFailed("cannot spawn threads".to_string()))
    );
}

#[test]
fn history_of_no_repositories_is_empty() {
    let classifier = Classifier::new(10, None, None);
    let history = MultiRepoHistory::from(Vec::new(), &classifier, NOW, Ok(Vec::new())).unwrap();
    assert_eq!(
        history,
        MultiRepoHistory { repos: Vec::new(), commits: Vec::new(), locally_missing_commits: 0 }
    );
}

#[test]
fn repositories_keep_the_order_in_which_they_were_given() {
    let classifier = Classifier::new(10, None, None);
    let repos = vec![repo("z"), repo("a"), repo("m")];
    let walks = vec![
        RepoWalk::Walked(vec![commit_aged("z1", 9)]),
        RepoWalk::Walked(vec![commit_aged("a1", 1)]),
        RepoWalk::Walked(Vec::new()),
    ];
    let history = MultiRepoHistory::from(repos, &classifier, NOW, Ok(walks)).unwrap();
    assert_eq!(history.repos, vec![repo("z"), repo("a"), repo("m")]);
    assert_eq!(ids(&history.commits), vec!["a1", "z1"]);
    assert_eq!(history.commits[0].repo, 1);
    assert_eq!(history.commits[1].repo, 0);
}

#[test]
fn commits_of_one_commit_time_keep_the_order_of_repositories_and_walks() {
    let classifier = Classifier::new(10, None, None);
    let repos = vec![repo("a"), repo("b"), repo("c")];
    let walks = vec![
        RepoWalk::Walked(vec![commit_at("a1", NOW, 0), commit_at("a2", NOW - 5, 0)]),
        RepoWalk::Walked(vec![
            commit_at("b1", NOW, 0),
            commit_at("b2", NOW, 0),
            commit_at("b3", NOW - 5, 0),
        ]),
        RepoWalk::Walked(vec![commit_at("c1", NOW - 5, 0), commit_at("c2", NOW, 0)]),
    ];
    let history = MultiRepoHistory::from(repos, &classifier, NOW, Ok(walks)).unwrap();
    assert_eq!(ids(&history.commits), vec!["a1", "b1", "b2", "c2", "a2", "b3", "c1"]);
}

#[test]
fn among_equal_seconds_the_greater_offset_comes_first() {
    let classifier = Classifier::new(10, None, None);
    let walks = vec![RepoWalk::Walked(vec![
        commit_at("west", NOW, -60),
        commit_at("east", NOW, 60),
        commit_at("later", NOW + 1, -600),
        commit_at("utc", NOW, 0),
    ])];
    let history = MultiRepoHistory::from(vec![repo("a")], &classifier, NOW, Ok(walks)).unwrap();
    assert_eq!(ids(&history.commits), vec!["later", "east", "utc", "west"]);
}

#[test]
fn walk_that_is_not_in_order_is_put_in_order() {
    let classifier = Classifier::new(100, None, None);
    let ages = [5, 3, 9, 1, 1, 7, 0, 8, 2, 6, 4, 10, 3];
    let items: Vec<WalkItem> =
        ages.iter().enumerate().map(|(i, age)| commit_aged(&format!("{}-{}", age, i), *age)).collect();
    let history =
        MultiRepoHistory::from(vec![repo("a")], &classifier, NOW, Ok(vec![RepoWalk::Walked(items)]))
            .unwrap();
    assert_eq!(
        ids(&history.commits),
        vec![
            "0-6", "1-3", "1-4", "2-8", "3-1", "3-12", "4-10", "5-0", "6-9", "7-5", "8-7", "9-2",
            "10-11"
        ]
    );
    assert_newest_first(&history);
}

#[test]
fn scanning_again_gives_the_same_history() {
    let classifier = Classifier::new(10, Some("a"), None);
    let walks = || {
        vec![
            RepoWalk::Walked(vec![
                commit_by("a", 0, "ann", "x"),
                WalkItem::Unresolvable,
                commit_by("b", 5, "bob", "x"),
                commit_by("c", 5, "cat", "x"),
            ]),
            RepoWalk::Failed(FailureStage::Open, "gone".to_string()),
            RepoWalk::Walked(vec![commit_by("d", 5, "dan", "x"), commit_by("e", 12, "eva", "x")]),
        ]
    };
    let repos = || vec![repo("a"), repo("b"), repo("c")];
    let first = MultiRepoHistory::from(repos(), &classifier, NOW, Ok(walks())).unwrap();
    let second = MultiRepoHistory::from(repos(), &classifier, NOW, Ok(walks())).unwrap();
    assert_eq!(first, second);
    assert_eq!(ids(&first.commits), vec!["a", "c", "d"]);
    let later = MultiRepoHistory::from(repos(), &classifier, NOW + 600, Ok(walks())).unwrap();
    assert_eq!(first, later);
}

#[test]
fn repository_that_cannot_be_walked_changes_no_commit_wherever_it_stands() {
    let classifier = Classifier::new(10, None, None);
    let walks = || {
        vec![
            RepoWalk::Walked(vec![commit_aged("a1", 1), WalkItem::Unresolvable, commit_aged("a2", 3)]),
            RepoWalk::Walked(vec![commit_aged("b1", 1), commit_aged("b2", 2), commit_aged("b3", 11)]),
            RepoWalk::Walked(vec![commit_aged("c1", 3), WalkItem::Unresolvable]),
        ]
    };
    let repos = || vec![repo("a"), repo("b"), repo("c")];
    let history = MultiRepoHistory::from(repos(), &classifier, NOW, Ok(walks())).unwrap();
    assert_eq!(ids(&history.commits), vec!["a1", "b1", "b2", "a2", "c1"]);
    for at in 0..=3 {
        let mut longer_repos = repos();
        longer_repos.insert(at, repo("broken"));
        let mut longer_walks = walks();
        longer_walks.insert(at, RepoWalk::Failed(FailureStage::Open, "gone".to_string()));
        let longer =
            MultiRepoHistory::from(longer_repos, &classifier, NOW, Ok(longer_walks)).unwrap();
        assert_eq!(longer.locally_missing_commits, history.locally_missing_commits);
        assert_eq!(longer.commits.len(), history.commits.len());
        for (moved, commit) in longer.commits.iter().zip(&history.commits) {
            let place = if commit.repo >= at { commit.repo + 1 } else { commit.repo };
            assert_eq!(*moved, RepoCommit { repo: place, ..commit.clone() });
            assert_eq!(longer.repos[moved.repo], history.repos[commit.repo]);
        }
    }
}

#[test]
fn history_from_scans_made_one_by_one() {
    let classifier = Classifier::new(10, None, None);
    let walks = vec![
        RepoWalk::Walked(vec![commit_aged("a", 4), WalkItem::Unresolvable]),
        RepoWalk::Failed(FailureStage::Open, "gone".to_string()),
        RepoWalk::Walked(vec![commit_aged("b", 2), commit_aged("c", 6), WalkItem::Unresolvable]),
    ];
    let scans: Vec<RepoScan> = walks
        .iter()
        .enumerate()
        .map(|(place, walk)| scan_repository(place, &classifier, NOW, walk))
        .collect();
    let repos = vec![repo("a"), repo("b"), repo("c")];
    let assembled = MultiRepoHistory::assemble(repos, scans);
    assert_eq!(ids(&assembled.commits), vec!["b", "a", "c"]);
    assert_eq!(assembled.locally_missing_commits, 2);
    let repos = vec![repo("a"), repo("b"), repo("c")];
    assert_eq!(MultiRepoHistory::from(repos, &classifier, NOW, Ok(walks)), Ok(assembled));
}

#[test]
fn sorting_keeps_every_commit() {
    let meta = |id: &str, seconds: i64| CommitMeta {
        id: id.to_string(),
        time: CommitTime::new(seconds, 0),
        summary: None,
        author_name: None,
        author_email: None,
        committer_name: None,
        message: None,
    };
    let commits = vec![
        RepoCommit::from(0, &meta("a", 3)),
        RepoCommit::from(1, &meta("b", 9)),
        RepoCommit::from(2, &meta("c", 3)),
        RepoCommit::from(3, &meta("d", -1)),
    ];
    let sorted = sort_newest_first(commits);
    assert_eq!(ids(&sorted), vec!["b", "a", "c", "d"]);
    assert_eq!(sorted.iter().map(|c| c.repo).collect::<Vec<usize>>(), vec![1, 0, 2, 3]);
    assert_eq!(sort_newest_first(Vec::new()), Vec::new());
}

#[test]
fn only_a_missing_pool_ends_the_scan() {
    assert_eq!(ScanError::RepositoryUnavailable.recovery(), Recovery::SkipRepository);
    assert_eq!(ScanError::WalkCreationFailed.recovery(), Recovery::SkipRepository);
    assert_eq!(ScanError::CommitUnresolvable.recovery(), Recovery::SkipCommit);
    assert_eq!(ScanError::PoolConstructionFailed("x".to_string()).recovery(), Recovery::Abort);
}

#[test]
fn errors_of_the_steps_of_a_walk() {
    assert_eq!(FailureStage::Open.error(), ScanError::RepositoryUnavailable);
    assert_eq!(FailureStage::CreateWalk.error(), ScanError::WalkCreationFailed);
    assert_eq!(FailureStage::SeedWalk.error(), ScanError::WalkCreationFailed);
}

#[test]
fn lines_that_report_a_failure() {
    let repo = repo("platform/art");
    assert_eq!(
        failure_line(FailureStage::CreateWalk, &repo, "odb gone"),
        "Failed create revwalk: platform/art: odb gone"
    );
    assert_eq!(
        failure_line(FailureStage::SeedWalk, &repo, "reference 'HEAD' not found"),
        "Failed query history: platform/art: reference 'HEAD' not found"
    );
}

#[test]
fn labels_of_a_worker() {
    assert_eq!(scanning_label(&repo("platform/art")), "Scanning platform/art");
    assert_eq!(idle_label(), "Idle");
}

#[test]
fn progress_of_a_repository() {
    assert_eq!(scan_begins(&vec![repo("a"), repo("b")]), ProgressOp::Begin(2));
    let repo = repo("platform/art");
    assert_eq!(
        repository_begins(&repo),
        vec![ProgressOp::Label("Scanning platform/art".to_string())]
    );
    assert_eq!(
        repository_ends(&repo, None),
        vec![ProgressOp::Tick, ProgressOp::Label("Idle".to_string())]
    );
    assert_eq!(
        repository_ends(&repo, Some((FailureStage::Open, "not a repository"))),
        vec![
            ProgressOp::Log("Failed to open: platform/art: not a repository".to_string()),
            ProgressOp::Tick,
            ProgressOp::Label("Idle".to_string()),
        ]
    );
}

#[test]
fn pool_has_at_most_eighteen_workers() {
    assert_eq!(worker_count(0), 0);
    assert_eq!(worker_count(4), 4);
    assert_eq!(worker_count(18), 18);
    assert_eq!(worker_count(19), 18);
    assert_eq!(worker_count(usize::MAX), 18);
}

#[test]
fn first_parent_strategy() {
    assert!(RevWalkStrategy::FirstParent.first_parent_only());
    assert!(!RevWalkStrategy::AllParents.first_parent_only());
}

#[test]
fn repository_is_named_after_the_last_part_of_its_path() {
    let repo = Repo::from("/work/platform/art".to_string(), "platform/art".to_string()).unwrap();
    assert_eq!(repo.abs_path, "/work/platform/art");
    assert_eq!(repo.rel_path, "platform/art");
    assert_eq!(repo.description, "art");
    assert_eq!(repo.clone(), repo);
    let repo = Repo::from("/work/.repo/manifests/".to_string(), ".repo/manifests".to_string());
    assert_eq!(repo.unwrap().description, "manifests");
}

#[test]
fn repository_from_the_last_part_of_its_path_as_given() {
    assert_eq!(
        Repo::with_final_component(
            "/work/platform/art".to_string(),
            "platform/art".to_string(),
            Some("art".to_string()),
        ),
        Some(Repo::described(
            "/work/platform/art".to_string(),
            "platform/art".to_string(),
            "art".to_string(),
        ))
    );
    assert_eq!(
        Repo::with_final_component("/work/..".to_string(), "..".to_string(), None),
        None
    );
    for path in ["/work/platform/art", "/work/kernel/", "kernel", "/work/a/./", "/", "/work/.."] {
        let named = Repo::from(path.to_string(), "r".to_string());
        match &named {
            Some(repo) => {
                assert_eq!(repo.abs_path, path);
                assert_eq!(repo.rel_path, "r");
                assert!(path.contains(repo.description.as_str()));
            }
            None => assert!(path == "/" || path.ends_with("..")),
        }
    }
}

#[test]
fn repository_without_a_last_part_of_its_path() {
    assert_eq!(Repo::from("/".to_string(), "".to_string()), None);
    assert_eq!(Repo::from("/work/..".to_string(), "..".to_string()), None);
}
