//! The scan of one repository: the commits of its walk are classified one by
//! one, in walk order, until the walk ends or a commit is too old.

use crate::model::{Classifier, ClassifierConfig, CommitMeta, CommitRecord, RepoCommit};
use vstd::prelude::*;

verus! {

/// What a walk delivers for one commit id that it visits.
#[derive(Debug, PartialEq, Eq)]
pub enum WalkItem {
    /// The commit was read.
    Commit(CommitMeta),
    /// The id could not be resolved to a commit.
    Unresolvable,
}

/// The records of the commits.
pub open spec fn records(commits: Seq<RepoCommit>) -> Seq<CommitRecord> {
    commits.map_values(|c: RepoCommit| c@)
}

/// The walk stops at the item: it is a commit that fails the age test.
pub open spec fn item_aborts(config: ClassifierConfig, now: int, item: WalkItem) -> bool {
    match item {
        WalkItem::Commit(commit) => config.aborts(now, commit),
        WalkItem::Unresolvable => false,
    }
}

/// The item is a commit that the classifier keeps.
pub open spec fn item_kept(config: ClassifierConfig, now: int, item: WalkItem) -> bool {
    match item {
        WalkItem::Commit(commit) => config.includes(now, commit),
        WalkItem::Unresolvable => false,
    }
}

/// The record of an item that is a commit.
pub open spec fn item_record(repo: int, item: WalkItem) -> CommitRecord {
    match item {
        WalkItem::Commit(commit) => commit.record(repo),
        WalkItem::Unresolvable => arbitrary(),
    }
}

/// How many items of the walk are evaluated: all up to and including the first
/// at which the walk stops, or all of them where it stops at none.
pub open spec fn evaluated_len(config: ClassifierConfig, now: int, walk: Seq<WalkItem>) -> nat
    decreases walk.len(),
{
    if walk.len() == 0 {
        0
    } else if item_aborts(config, now, walk[0]) {
        1
    } else {
        1 + evaluated_len(config, now, walk.drop_first())
    }
}

/// The items of the walk that are evaluated.
pub open spec fn evaluated(config: ClassifierConfig, now: int, walk: Seq<WalkItem>) -> Seq<
    WalkItem,
> {
    walk.take(evaluated_len(config, now, walk) as int)
}

/// The records, in the order of the items, of those items that are commits
/// which the classifier keeps.
pub open spec fn kept_records(
    repo: int,
    config: ClassifierConfig,
    now: int,
    items: Seq<WalkItem>,
) -> Seq<CommitRecord>
    decreases items.len(),
{
    if items.len() == 0 {
        Seq::empty()
    } else {
        let before = kept_records(repo, config, now, items.drop_last());
        if item_kept(config, now, items.last()) {
            before.push(item_record(repo, items.last()))
        } else {
            before
        }
    }
}

/// How many of the items are ids that could not be resolved.
pub open spec fn unresolved_count(items: Seq<WalkItem>) -> nat
    decreases items.len(),
{
    if items.len() == 0 {
        0
    } else {
        unresolved_count(items.drop_last()) + if items.last() is Unresolvable {
            1nat
        } else {
            0nat
        }
    }
}

/// The number of evaluated items is the place after the first item at which
/// the walk stops, and the length of the walk where it stops at none.
pub proof fn lemma_evaluated_len(config: ClassifierConfig, now: int, walk: Seq<WalkItem>, n: int)
    requires
        0 <= n <= walk.len(),
        forall|j: int| 0 <= j < n ==> !item_aborts(config, now, #[trigger] walk[j]),
    ensures
        n < walk.len() && item_aborts(config, now, walk[n]) ==> evaluated_len(config, now, walk)
            == n + 1,
        n == walk.len() ==> evaluated_len(config, now, walk) == n,
    decreases n,
{
    if n > 0 {
        let rest = walk.drop_first();
        lemma_evaluated_len(config, now, rest, n - 1);
    }
}

/// Of the evaluated items only the last can be one at which the walk stops,
/// and where items are left over the last evaluated one is such an item.
pub proof fn lemma_evaluated_prefix(config: ClassifierConfig, now: int, walk: Seq<WalkItem>)
    ensures
        evaluated_len(config, now, walk) <= walk.len(),
        forall|j: int|
            0 <= j < evaluated_len(config, now, walk) - 1 ==> !item_aborts(
                config,
                now,
                #[trigger] walk[j],
            ),
        evaluated_len(config, now, walk) < walk.len() ==> evaluated_len(config, now, walk) > 0
            && item_aborts(config, now, walk[evaluated_len(config, now, walk) - 1]),
    decreases walk.len(),
{
    if walk.len() > 0 && !item_aborts(config, now, walk[0]) {
        let rest = walk.drop_first();
        lemma_evaluated_prefix(config, now, rest);
        let n = evaluated_len(config, now, walk);
        assert forall|j: int| 0 <= j < n - 1 implies !item_aborts(
            config,
            now,
            #[trigger] walk[j],
        ) by {
            if j > 0 {
                assert(rest[j - 1] == walk[j]);
            }
        }
    }
}

/// What the scan of one repository has gathered: the commits that are kept,
/// in walk order, and the number of ids that could not be resolved.
#[derive(Debug, PartialEq, Eq)]
pub struct RepoScan {
    pub repo: usize,
    pub commits: Vec<RepoCommit>,
    pub missing_commits: usize,
}

impl RepoScan {
    /// Every commit of the scan belongs to the repository of the scan.
    pub open spec fn is_consistent(self) -> bool {
        forall|k: int|
            0 <= k < self.commits@.len() ==> (#[trigger] self.commits@[k]).repo == self.repo
    }

    /// Whether every commit of the scan belongs to the repository of the scan.
    pub fn check_consistent(&self) -> (consistent: bool)
        ensures
            consistent == self.is_consistent(),
    {
        let mut k: usize = 0;
        while k < self.commits.len()
            invariant
                0 <= k <= self.commits@.len(),
                forall|j: int| 0 <= j < k ==> (#[trigger] self.commits@[j]).repo == self.repo,
            decreases self.commits@.len() - k,
        {
            if self.commits[k].repo != self.repo {
                return false;
            }
            k = k + 1;
        }
        true
    }

    /// The scan of the repository at place `repo` before its walk begins. It
    /// is also the whole scan of a repository that cannot be walked.
    pub fn new(repo: usize) -> (scan: RepoScan)
        ensures
            scan.repo == repo,
            scan.commits@.len() == 0,
            scan.missing_commits == 0,
            scan.is_consistent(),
    {
        RepoScan { repo, commits: Vec::new(), missing_commits: 0 }
    }

    /// Takes the next item of the walk: a commit that the classifier keeps is
    /// appended, an id that could not be resolved is counted. The result says
    /// whether the walk stops here.
    pub fn visit(&mut self, classifier: &Classifier, now: i64, item: &WalkItem) -> (stop: bool)
        requires
            old(self).missing_commits < usize::MAX,
        ensures
            stop == item_aborts(classifier@, now as int, *item),
            final(self).repo == old(self).repo,
            old(self).is_consistent() ==> final(self).is_consistent(),
            records(final(self).commits@) == if item_kept(classifier@, now as int, *item) {
                records(old(self).commits@).push(item_record(old(self).repo as int, *item))
            } else {
                records(old(self).commits@)
            },
            final(self).missing_commits == old(self).missing_commits + if *item is Unresolvable {
                1int
            } else {
                0int
            },
    {
        match item {
            WalkItem::Commit(commit) => {
                let (keep, abort) = classifier.classify(now, commit);
                if keep {
                    let kept = RepoCommit::from(self.repo, commit);
                    self.commits.push(kept);
                }
                abort
            },
            WalkItem::Unresolvable => {
                self.missing_commits = self.missing_commits + 1;
                false
            },
        }
    }
}

/// Scans a walk that is at hand as a whole: its items are taken in order
/// until the walk stops or ends.
pub fn scan_walk(repo: usize, classifier: &Classifier, now: i64, walk: &Vec<WalkItem>) -> (scan:
    RepoScan)
    ensures
        scan.repo == repo,
        scan.is_consistent(),
        records(scan.commits@) == kept_records(
            repo as int,
            classifier@,
            now as int,
            evaluated(classifier@, now as int, walk@),
        ),
        scan.missing_commits == unresolved_count(evaluated(classifier@, now as int, walk@)),
{
    let mut scan = RepoScan::new(repo);
    let mut at: usize = 0;
    let mut stopped = false;
    while at < walk.len() && !stopped
        invariant
            0 <= at <= walk.len(),
            scan.repo == repo,
            scan.is_consistent(),
            scan.missing_commits <= at,
            !stopped ==> forall|j: int|
                0 <= j < at ==> !item_aborts(classifier@, now as int, #[trigger] walk@[j]),
            stopped ==> at > 0 && item_aborts(classifier@, now as int, walk@[at - 1]) && forall|
                j: int,
            |
                0 <= j < at - 1 ==> !item_aborts(classifier@, now as int, #[trigger] walk@[j]),
            records(scan.commits@) == kept_records(
                repo as int,
                classifier@,
                now as int,
                walk@.take(at as int),
            ),
            scan.missing_commits == unresolved_count(walk@.take(at as int)),
        decreases walk.len() - at,
    {
        let ghost before = walk@.take(at as int);
        stopped = scan.visit(classifier, now, &walk[at]);
        at = at + 1;
        proof {
            let taken = walk@.take(at as int);
            assert(taken.drop_last() =~= before);
        }
    }
    proof {
        if stopped {
            lemma_evaluated_len(classifier@, now as int, walk@, at - 1);
        } else {
            lemma_evaluated_len(classifier@, now as int, walk@, at as int);
        }
    }
    scan
}

} // verus!
