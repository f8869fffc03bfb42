//! The history of commits across all repositories: what the walks of the
//! repositories delivered, classified, gathered and put in order.

use crate::model::{
    commit_line, Classifier, ClassifierConfig, CommitRecord, Repo, RepoCommit,
};
use crate::scan::{
    evaluated, kept_records, records, scan_walk, unresolved_count, RepoScan, WalkItem,
};
use crate::seqs::lemma_contains_concat;
use crate::sorting::{
    is_history_order_of, is_newest_first, lemma_with_time_members, newest_first,
    sort_newest_first, with_time,
};
use vstd::prelude::*;
use vstd::string::StringExecFns;

verus! {

/// The step at which a repository turned out not to be walkable.
#[derive(Clone, Copy, Debug, PartialEq, Eq, Structural)]
pub enum FailureStage {
    /// The repository could not be opened.
    Open,
    /// No walk could be made for the repository.
    CreateWalk,
    /// The walk could not be started at the head of the repository.
    SeedWalk,
}

/// What came of the walk of one repository.
#[derive(Debug, PartialEq, Eq)]
pub enum RepoWalk {
    /// The repository could not be walked: the step that failed, and the cause
    /// as the repository reported it.
    Failed(FailureStage, String),
    /// The commit ids that the walk visited, in walk order.
    Walked(Vec<WalkItem>),
}

/// What can go wrong in a scan.
#[derive(Debug, PartialEq, Eq)]
pub enum ScanError {
    /// A path does not hold a repository that can be opened.
    RepositoryUnavailable,
    /// The walk of a repository could not be made or started at its head.
    WalkCreationFailed,
    /// A commit id that a walk visited could not be read as a commit.
    CommitUnresolvable,
    /// The pool of workers could not be made; the cause is added.
    PoolConstructionFailed(String),
}

/// What the scan does about an error.
#[derive(Clone, Copy, Debug, PartialEq, Eq, Structural)]
pub enum Recovery {
    /// The repository adds no commits to the history; the scan goes on.
    SkipRepository,
    /// The commit is counted as missing; the walk goes on.
    SkipCommit,
    /// The scan ends without a history.
    Abort,
}

impl ScanError {
    /// How the scan recovers from the error: only a pool of workers that
    /// cannot be made ends it.
    pub fn recovery(&self) -> (recovery: Recovery)
        ensures
            recovery == match *self {
                ScanError::RepositoryUnavailable => Recovery::SkipRepository,
                ScanError::WalkCreationFailed => Recovery::SkipRepository,
                ScanError::CommitUnresolvable => Recovery::SkipCommit,
                ScanError::PoolConstructionFailed(_) => Recovery::Abort,
            },
    {
        match self {
            ScanError::RepositoryUnavailable => Recovery::SkipRepository,
            ScanError::WalkCreationFailed => Recovery::SkipRepository,
            ScanError::CommitUnresolvable => Recovery::SkipCommit,
            ScanError::PoolConstructionFailed(_) => Recovery::Abort,
        }
    }
}

impl FailureStage {
    /// The error that a failure at this step is.
    pub fn error(&self) -> (error: ScanError)
        ensures
            error == match *self {
                FailureStage::Open => ScanError::RepositoryUnavailable,
                FailureStage::CreateWalk => ScanError::WalkCreationFailed,
                FailureStage::SeedWalk => ScanError::WalkCreationFailed,
            },
    {
        match self {
            FailureStage::Open => ScanError::RepositoryUnavailable,
            FailureStage::CreateWalk => ScanError::WalkCreationFailed,
            FailureStage::SeedWalk => ScanError::WalkCreationFailed,
        }
    }
}

/// The commit ids that the walk of a repository visited; none where the
/// repository could not be walked.
pub open spec fn walk_items(walk: RepoWalk) -> Seq<WalkItem> {
    match walk {
        RepoWalk::Walked(items) => items@,
        RepoWalk::Failed(_, _) => Seq::empty(),
    }
}

/// The commits that the repository at place `repo` adds to the history.
pub open spec fn repo_kept(repo: int, config: ClassifierConfig, now: int, walk: RepoWalk) -> Seq<
    CommitRecord,
> {
    kept_records(repo, config, now, evaluated(config, now, walk_items(walk)))
}

/// How many commit ids the walk of the repository visited that could not be
/// resolved.
pub open spec fn repo_unresolved(config: ClassifierConfig, now: int, walk: RepoWalk) -> nat {
    unresolved_count(evaluated(config, now, walk_items(walk)))
}

/// The commits that all repositories add to the history, repository by
/// repository in the order of the list, each in walk order.
pub open spec fn all_kept(config: ClassifierConfig, now: int, walks: Seq<RepoWalk>) -> Seq<
    CommitRecord,
>
    decreases walks.len(),
{
    if walks.len() == 0 {
        Seq::empty()
    } else {
        all_kept(config, now, walks.drop_last()) + repo_kept(
            walks.len() - 1,
            config,
            now,
            walks.last(),
        )
    }
}

/// How many commit ids all walks together visited that could not be resolved.
pub open spec fn all_unresolved(config: ClassifierConfig, now: int, walks: Seq<RepoWalk>) -> nat
    decreases walks.len(),
{
    if walks.len() == 0 {
        0
    } else {
        all_unresolved(config, now, walks.drop_last()) + repo_unresolved(config, now, walks.last())
    }
}

/// The commits of all scans, scan by scan in the order of the list.
pub open spec fn gathered(scans: Seq<RepoScan>) -> Seq<CommitRecord>
    decreases scans.len(),
{
    if scans.len() == 0 {
        Seq::empty()
    } else {
        gathered(scans.drop_last()) + records(scans.last().commits@)
    }
}

/// The number of commit ids that the scans together count as missing.
pub open spec fn missing_total(scans: Seq<RepoScan>) -> nat
    decreases scans.len(),
{
    if scans.len() == 0 {
        0
    } else {
        missing_total(scans.drop_last()) + scans.last().missing_commits as nat
    }
}

/// The scans are those of the repositories of a list of `count`
/// repositories, one for each in the order of the list, and every commit of
/// a scan belongs to the repository of the scan.
pub open spec fn scans_cover(scans: Seq<RepoScan>, count: int) -> bool {
    &&& scans.len() == count
    &&& forall|i: int| 0 <= i < scans.len() ==> (#[trigger] scans[i]).repo == i
    &&& forall|i: int| 0 <= i < scans.len() ==> (#[trigger] scans[i]).is_consistent()
}

/// The scan of the repository at place `repo`, given what came of its walk: a
/// repository that could not be walked adds nothing.
pub fn scan_repository(repo: usize, classifier: &Classifier, now: i64, walk: &RepoWalk) -> (scan:
    RepoScan)
    ensures
        scan.repo == repo,
        scan.is_consistent(),
        records(scan.commits@) == repo_kept(repo as int, classifier@, now as int, *walk),
        scan.missing_commits == repo_unresolved(classifier@, now as int, *walk),
{
    match walk {
        RepoWalk::Walked(items) => scan_walk(repo, classifier, now, items),
        RepoWalk::Failed(_, _) => RepoScan::new(repo),
    }
}

/// A history of commits across several repositories.
#[derive(Debug, PartialEq, Eq)]
pub struct MultiRepoHistory {
    /// The repositories, in the order in which they were handed in.
    pub repos: Vec<Repo>,
    /// The commits, the newest first.
    pub commits: Vec<RepoCommit>,
    /// How many commit ids the walks visited that could not be resolved.
    pub locally_missing_commits: usize,
}

impl MultiRepoHistory {
    /// The commits stand with the newest first, and each belongs to a
    /// repository of the list.
    pub open spec fn is_consistent(self) -> bool {
        &&& newest_first(records(self.commits@))
        &&& forall|k: int|
            0 <= k < self.commits@.len() ==> (#[trigger] self.commits@[k]).repo
                < self.repos@.len()
    }

    /// Whether the history is consistent.
    pub fn check_consistent(&self) -> (consistent: bool)
        ensures
            consistent == self.is_consistent(),
    {
        if !is_newest_first(&self.commits) {
            return false;
        }
        let mut k: usize = 0;
        while k < self.commits.len()
            invariant
                0 <= k <= self.commits@.len(),
                forall|j: int|
                    0 <= j < k ==> (#[trigger] self.commits@[j]).repo < self.repos@.len(),
            decreases self.commits@.len() - k,
        {
            if self.commits[k].repo >= self.repos.len() {
                return false;
            }
            k = k + 1;
        }
        true
    }

    /// The commits of the history, one in a line, in the order of the history;
    /// `None` where a commit has a commit time without a calendar date.
    pub fn lines(&self) -> (lines: Option<String>)
        requires
            self.is_consistent(),
        ensures
            lines is Some <==> forall|k: int|
                0 <= k < self.commits@.len() ==> (
                #[trigger] self.commits@[k]).commit_time.local_parts() is Some,
            lines matches Some(l) ==> l@ == self.commit_lines(self.commits@.len() as int),
    {
        let mut lines = String::new();
        let mut k: usize = 0;
        while k < self.commits.len()
            invariant
                0 <= k <= self.commits@.len(),
                self.is_consistent(),
                forall|j: int|
                    0 <= j < k ==> (#[trigger] self.commits@[j]).commit_time.local_parts() is Some,
                lines@ == self.commit_lines(k as int),
            decreases self.commits@.len() - k,
        {
            let commit = &self.commits[k];
            match commit.line(self.repos[commit.repo].description.as_str()) {
                Some(line) => {
                    lines.append(line.as_str());
                },
                None => {
                    return None;
                },
            }
            k = k + 1;
        }
        Some(lines)
    }

    /// The lines of the first `count` commits of the history, one after the
    /// other.
    pub open spec fn commit_lines(self, count: int) -> Seq<char>
        decreases count,
    {
        if count <= 0 {
            Seq::empty()
        } else {
            self.commit_lines(count - 1) + commit_line(
                self.commits@[count - 1],
                self.repos@[self.commits@[count - 1].repo as int].description@,
            )
        }
    }

    /// The history holds the commits `kept` in the order of a history, and
    /// counts `missing` commit ids as missing.
    pub open spec fn holds(self, kept: Seq<CommitRecord>, missing: nat) -> bool {
        &&& is_history_order_of(records(self.commits@), kept)
        &&& self.locally_missing_commits == missing
    }
}

/// Every commit of the scans of `count` repositories belongs to one of the
/// repositories.
pub proof fn lemma_gathered_repos(scans: Seq<RepoScan>)
    requires
        scans_cover(scans, scans.len() as int),
    ensures
        forall|c: CommitRecord| #[trigger] gathered(scans).contains(c) ==> 0 <= c.repo < scans.len(),
    decreases scans.len(),
{
    if scans.len() > 0 {
        let before = scans.drop_last();
        let last = scans.last();
        assert(scans_cover(before, before.len() as int));
        lemma_gathered_repos(before);
        assert forall|c: CommitRecord| #[trigger] gathered(scans).contains(c) implies 0 <= c.repo
            < scans.len() by {
            lemma_contains_concat(gathered(before), records(last.commits@), c);
            if records(last.commits@).contains(c) {
                let k = choose|k: int| 0 <= k < last.commits@.len() && last.commits@[k]@ == c;
                assert(last.commits@[k].repo == last.repo);
            }
        }
    }
}

/// Scans that hold, repository by repository, what the walks yield hold
/// together what all walks yield.
pub proof fn lemma_scans_of_walks(
    scans: Seq<RepoScan>,
    config: ClassifierConfig,
    now: int,
    walks: Seq<RepoWalk>,
)
    requires
        scans.len() == walks.len(),
        forall|i: int|
            0 <= i < scans.len() ==> records((#[trigger] scans[i]).commits@) == repo_kept(
                i,
                config,
                now,
                walks[i],
            ),
        forall|i: int|
            0 <= i < scans.len() ==> (#[trigger] scans[i]).missing_commits == repo_unresolved(
                config,
                now,
                walks[i],
            ),
    ensures
        gathered(scans) == all_kept(config, now, walks),
        missing_total(scans) == all_unresolved(config, now, walks),
    decreases scans.len(),
{
    if scans.len() > 0 {
        let scans_before = scans.drop_last();
        let walks_before = walks.drop_last();
        lemma_scans_of_walks(scans_before, config, now, walks_before);
    }
}

/// Whether the scans are those of `count` repositories, as `scans_cover`
/// states, and count no more commits as missing than a number can hold.
pub fn scans_fit(scans: &Vec<RepoScan>, count: usize) -> (fit: bool)
    ensures
        fit == (scans_cover(scans@, count as int) && missing_total(scans@) <= usize::MAX),
{
    if scans.len() != count {
        return false;
    }
    let mut missing: usize = 0;
    let mut i: usize = 0;
    while i < scans.len()
        invariant
            0 <= i <= scans@.len(),
            forall|j: int| 0 <= j < i ==> (#[trigger] scans@[j]).repo == j,
            forall|j: int| 0 <= j < i ==> (#[trigger] scans@[j]).is_consistent(),
            missing == missing_total(scans@.take(i as int)),
        decreases scans@.len() - i,
    {
        proof {
            lemma_missing_total_grows(scans@, i + 1);
            assert(scans@.take(i + 1).drop_last() =~= scans@.take(i as int));
        }
        if scans[i].repo != i || !scans[i].check_consistent() {
            return false;
        }
        if scans[i].missing_commits > usize::MAX - missing {
            return false;
        }
        missing = missing + scans[i].missing_commits;
        i = i + 1;
    }
    assert(scans@.take(i as int) =~= scans@);
    true
}

impl MultiRepoHistory {
    /// The history of the repositories `repos`, given the scan of each: the
    /// commits of all scans in the order of a history, and the sum of what
    /// the scans count as missing.
    pub fn assemble(repos: Vec<Repo>, scans: Vec<RepoScan>) -> (history: MultiRepoHistory)
        requires
            scans_cover(scans@, repos@.len() as int),
            missing_total(scans@) <= usize::MAX,
        ensures
            history.repos == repos,
            history.holds(gathered(scans@), missing_total(scans@)),
            history.is_consistent(),
    {
        let mut scans = scans;
        let ghost given = scans@;
        let mut all: Vec<RepoCommit> = Vec::new();
        let mut missing: usize = 0;
        let mut i: usize = 0;
        while i < scans.len()
            invariant
                0 <= i <= scans@.len(),
                scans@.len() == given.len(),
                forall|j: int| i <= j < scans@.len() ==> scans@[j] == given[j],
                records(all@) == gathered(given.take(i as int)),
                missing == missing_total(given.take(i as int)),
                missing_total(given) <= usize::MAX,
            decreases scans@.len() - i,
        {
            proof {
                lemma_missing_total_grows(given, i + 1);
                assert(given.take(i + 1).drop_last() =~= given.take(i as int));
            }
            missing = missing + scans[i].missing_commits;
            all.append(&mut scans[i].commits);
            i = i + 1;
        }
        let commits = sort_newest_first(all);
        proof {
            assert(given.take(i as int) =~= given);
            lemma_gathered_repos(given);
            assert forall|k: int| 0 <= k < commits@.len() implies (#[trigger] commits@[k]).repo
                < repos@.len() by {
                // a commit of the history is one of the commits that were gathered
                let c = records(commits@)[k];
                lemma_with_time_members(records(commits@), c.commit_time);
                lemma_with_time_members(gathered(given), c.commit_time);
                assert(records(commits@).contains(c));
                assert(with_time(records(commits@), c.commit_time) == with_time(
                    gathered(given),
                    c.commit_time,
                ));
                assert(gathered(given).contains(c));
            }
        }
        MultiRepoHistory { repos, commits, locally_missing_commits: missing }
    }

    /// The history of the repositories `repos` at the moment `now`, given
    /// what came of the walk of each. `walks` is `Err`, with the cause, where
    /// no pool of workers could be made to walk the repositories: then there
    /// is no history.
    pub fn from(
        repos: Vec<Repo>,
        classifier: &Classifier,
        now: i64,
        walks: Result<Vec<RepoWalk>, String>,
    ) -> (history: Result<MultiRepoHistory, ScanError>)
        requires
            walks matches Ok(w) ==> w@.len() == repos@.len() && all_unresolved(
                classifier@,
                now as int,
                w@,
            ) <= usize::MAX,
        ensures
            match walks {
                Ok(w) => history matches Ok(h) && h.repos == repos && h.holds(
                    all_kept(classifier@, now as int, w@),
                    all_unresolved(classifier@, now as int, w@),
                ) && h.is_consistent(),
                Err(cause) => history == Err::<MultiRepoHistory, ScanError>(
                    ScanError::PoolConstructionFailed(cause),
                ),
            },
    {
        let walks = match walks {
            Ok(walks) => walks,
            Err(cause) => {
                return Err(ScanError::PoolConstructionFailed(cause));
            },
        };
        let mut scans: Vec<RepoScan> = Vec::new();
        let mut i: usize = 0;
        while i < walks.len()
            invariant
                0 <= i <= walks@.len(),
                scans@.len() == i,
                forall|j: int| 0 <= j < i ==> (#[trigger] scans@[j]).repo == j,
                forall|j: int| 0 <= j < i ==> (#[trigger] scans@[j]).is_consistent(),
                forall|j: int|
                    0 <= j < i ==> records((#[trigger] scans@[j]).commits@) == repo_kept(
                        j,
                        classifier@,
                        now as int,
                        walks@[j],
                    ),
                forall|j: int|
                    0 <= j < i ==> (#[trigger] scans@[j]).missing_commits == repo_unresolved(
                        classifier@,
                        now as int,
                        walks@[j],
                    ),
            decreases walks@.len() - i,
        {
            let scan = scan_repository(i, classifier, now, &walks[i]);
            scans.push(scan);
            i = i + 1;
        }
        proof {
            lemma_scans_of_walks(scans@, classifier@, now as int, walks@);
        }
        Ok(MultiRepoHistory::assemble(repos, scans))
    }
}

/// What the first scans count as missing is no more than what all count.
pub proof fn lemma_missing_total_grows(scans: Seq<RepoScan>, n: int)
    requires
        0 <= n <= scans.len(),
    ensures
        missing_total(scans.take(n)) <= missing_total(scans),
    decreases scans.len(),
{
    if n < scans.len() {
        lemma_missing_total_grows(scans.drop_last(), n);
        assert(scans.drop_last().take(n) =~= scans.take(n));
    } else {
        assert(scans.take(n) =~= scans);
    }
}

} // verus!
