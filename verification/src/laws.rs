//! What holds of every classifier, every walk and every history.

use crate::commit_time::CommitTime;
use crate::history::{all_kept, all_unresolved, repo_kept, walk_items, MultiRepoHistory, RepoWalk};
use crate::model::{ClassifierConfig, CommitMeta, CommitRecord};
use crate::scan::{
    evaluated, evaluated_len, item_kept, item_record, kept_records, lemma_evaluated_prefix,
    records, WalkItem,
};
use crate::seqs::{lemma_contains_concat, lemma_contains_push};
use crate::sorting::{
    lemma_history_order_unique, lemma_with_time_members, newest_first, with_time,
};
use vstd::prelude::*;

verus! {

/// A commit made `days` whole days before `now`, and less than a day more, has
/// the age `days`.
pub proof fn lemma_age_of_elapsed_days(time: CommitTime, now: int, days: int)
    requires
        0 <= days,
        days * 86_400 <= now - time.seconds < (days + 1) * 86_400,
    ensures
        time.age_days_at(now) == days,
{
    let elapsed = now - time.seconds;
    vstd::arithmetic::div_mod::lemma_fundamental_div_mod_converse(
        elapsed,
        86_400,
        days,
        elapsed - days * 86_400,
    );
}

/// A commit that is dated ahead of `now` has an age that is not above 0, and
/// so passes the age test of every classifier.
pub proof fn lemma_commit_ahead_passes_age_test(config: ClassifierConfig, now: int, time: CommitTime)
    requires
        config.max_age_days >= 0,
        time.seconds >= now,
    ensures
        time.age_days_at(now) <= 0,
        config.age_ok(now, time),
{
    if time.seconds > now {
        vstd::arithmetic::div_mod::lemma_div_pos_is_pos(time.seconds - now, 86_400);
    }
}

/// A commit is kept only if its age is at most the greatest age of the
/// classifier. Where no pattern is set, a commit of exactly the greatest age is
/// kept, and a commit one day older is not.
pub proof fn lemma_kept_only_up_to_max_age(config: ClassifierConfig, now: int, commit: CommitMeta)
    ensures
        config.includes(now, commit) ==> commit.time.age_days_at(now) <= config.max_age_days,
        config.author_substring is None && config.message_substring is None
            && commit.time.age_days_at(now) == config.max_age_days ==> config.includes(
            now,
            commit,
        ),
        commit.time.age_days_at(now) == config.max_age_days + 1 ==> !config.includes(now, commit),
{
}

/// The walk stops at a commit exactly if the commit fails the age test. Author
/// and message have no part in it: two classifiers with one greatest age agree
/// on two commits with one commit time, whatever their patterns and whatever
/// the commits hold.
pub proof fn lemma_abort_is_the_age_test(
    config: ClassifierConfig,
    other: ClassifierConfig,
    now: int,
    commit: CommitMeta,
    another: CommitMeta,
)
    requires
        config.max_age_days == other.max_age_days,
        commit.time == another.time,
    ensures
        config.aborts(now, commit) <==> commit.time.age_days_at(now) > config.max_age_days,
        config.aborts(now, commit) == other.aborts(now, another),
        config.aborts(now, commit) ==> !config.includes(now, commit),
{
}

/// In a consistent history no commit is followed by a commit with a later
/// commit time.
pub proof fn lemma_adjacent_commits_in_order(history: MultiRepoHistory, i: int)
    requires
        history.is_consistent(),
        0 <= i,
        i + 1 < history.commits@.len(),
    ensures
        history.commits@[i].commit_time.at_or_after(history.commits@[i + 1].commit_time),
{
    let all = records(history.commits@);
    assert(all[i].commit_time.at_or_after(all[i + 1].commit_time));
}

/// Every commit that a scan keeps belongs to the repository that is scanned.
pub proof fn lemma_kept_records_repo(
    repo: int,
    config: ClassifierConfig,
    now: int,
    items: Seq<WalkItem>,
)
    ensures
        forall|c: CommitRecord| #[trigger]
            kept_records(repo, config, now, items).contains(c) ==> c.repo == repo,
    decreases items.len(),
{
    if items.len() > 0 {
        lemma_kept_records_repo(repo, config, now, items.drop_last());
        let before = kept_records(repo, config, now, items.drop_last());
        assert forall|c: CommitRecord| #[trigger]
            kept_records(repo, config, now, items).contains(c) implies c.repo == repo by {
            if item_kept(config, now, items.last()) {
                lemma_contains_push(before, item_record(repo, items.last()), c);
            }
        }
    }
}

/// What one repository adds to the history is among what all add.
pub proof fn lemma_repo_kept_in_all(
    config: ClassifierConfig,
    now: int,
    walks: Seq<RepoWalk>,
    repo: int,
    c: CommitRecord,
)
    requires
        0 <= repo < walks.len(),
        repo_kept(repo, config, now, walks[repo]).contains(c),
    ensures
        all_kept(config, now, walks).contains(c),
    decreases walks.len(),
{
    let before = walks.drop_last();
    lemma_contains_concat(
        all_kept(config, now, before),
        repo_kept(walks.len() - 1, config, now, walks.last()),
        c,
    );
    if repo < walks.len() - 1 {
        lemma_repo_kept_in_all(config, now, before, repo, c);
    }
}

/// What all repositories add to the history was added by one of them: the
/// result is the place of such a repository.
pub proof fn lemma_all_kept_origin(
    config: ClassifierConfig,
    now: int,
    walks: Seq<RepoWalk>,
    c: CommitRecord,
) -> (repo: int)
    requires
        all_kept(config, now, walks).contains(c),
    ensures
        0 <= repo < walks.len(),
        repo_kept(repo, config, now, walks[repo]).contains(c),
        c.repo == repo,
    decreases walks.len(),
{
    if walks.len() == 0 {
        0
    } else {
        let before = walks.drop_last();
        let last = walks.len() - 1;
        lemma_contains_concat(
            all_kept(config, now, before),
            repo_kept(last, config, now, walks.last()),
            c,
        );
        if repo_kept(last, config, now, walks.last()).contains(c) {
            lemma_kept_records_repo(
                last,
                config,
                now,
                evaluated(config, now, walk_items(walks.last())),
            );
            last
        } else {
            lemma_all_kept_origin(config, now, before, c)
        }
    }
}

/// A repository that could not be walked adds no commit to the history, and
/// takes none away: every commit that the scan of any repository keeps is in
/// the history.
pub proof fn lemma_failed_repository_is_isolated(
    history: MultiRepoHistory,
    config: ClassifierConfig,
    now: int,
    walks: Seq<RepoWalk>,
    failed: int,
)
    requires
        history.holds(all_kept(config, now, walks), all_unresolved(config, now, walks)),
        0 <= failed < walks.len(),
        walks[failed] is Failed,
    ensures
        repo_kept(failed, config, now, walks[failed]).len() == 0,
        forall|k: int|
            0 <= k < history.commits@.len() ==> (#[trigger] history.commits@[k]).repo != failed,
        forall|repo: int, c: CommitRecord|
            0 <= repo < walks.len() && #[trigger] repo_kept(
                repo,
                config,
                now,
                walks[repo],
            ).contains(c) ==> records(history.commits@).contains(c),
{
    let shown = records(history.commits@);
    let kept = all_kept(config, now, walks);
    assert forall|k: int| 0 <= k < history.commits@.len() implies (
    #[trigger] history.commits@[k]).repo != failed by {
        let c = shown[k];
        lemma_with_time_members(shown, c.commit_time);
        lemma_with_time_members(kept, c.commit_time);
        assert(shown.contains(c));
        let repo = lemma_all_kept_origin(config, now, walks, c);
        assert(repo != failed);
    }
    assert forall|repo: int, c: CommitRecord|
        0 <= repo < walks.len() && #[trigger] repo_kept(repo, config, now, walks[repo]).contains(
            c,
        ) implies shown.contains(c) by {
        lemma_repo_kept_in_all(config, now, walks, repo, c);
        lemma_with_time_members(shown, c.commit_time);
        lemma_with_time_members(kept, c.commit_time);
    }
}

/// The commit as it stands when one more repository is put into the list at
/// place `at`: the places of the repositories from `at` on are one more.
pub open spec fn moved_behind(c: CommitRecord, at: int) -> CommitRecord {
    CommitRecord {
        repo: if c.repo >= at {
            c.repo + 1
        } else {
            c.repo
        },
        ..c
    }
}

/// The commits as they stand when one more repository is put into the list
/// at place `at`.
pub open spec fn all_moved_behind(commits: Seq<CommitRecord>, at: int) -> Seq<CommitRecord> {
    commits.map_values(|c: CommitRecord| moved_behind(c, at))
}

/// What the scan of a walk keeps for the repository at one place is what it
/// keeps for the repository at the place before, with the place one more.
pub proof fn lemma_kept_records_at_next_place(
    repo: int,
    config: ClassifierConfig,
    now: int,
    items: Seq<WalkItem>,
    at: int,
)
    requires
        at <= repo,
    ensures
        kept_records(repo + 1, config, now, items) == all_moved_behind(
            kept_records(repo, config, now, items),
            at,
        ),
    decreases items.len(),
{
    if items.len() > 0 {
        lemma_kept_records_at_next_place(repo, config, now, items.drop_last(), at);
    }
    assert(kept_records(repo + 1, config, now, items) =~= all_moved_behind(
        kept_records(repo, config, now, items),
        at,
    ));
}

/// A repository that cannot be walked, put into the list at any place, leaves
/// what all repositories add to the history as it is, but for the places of
/// the repositories behind it; and it leaves the count of missing commits as
/// it is.
pub proof fn lemma_all_kept_with_failed_walk(
    config: ClassifierConfig,
    now: int,
    walks: Seq<RepoWalk>,
    at: int,
    failed: RepoWalk,
)
    requires
        0 <= at <= walks.len(),
        failed is Failed,
    ensures
        all_kept(config, now, walks.insert(at, failed)) == all_moved_behind(
            all_kept(config, now, walks),
            at,
        ),
        all_unresolved(config, now, walks.insert(at, failed)) == all_unresolved(
            config,
            now,
            walks,
        ),
    decreases walks.len() - at,
{
    let longer = walks.insert(at, failed);
    let kept = all_kept(config, now, walks);
    walks.insert_ensures(at, failed);
    assert(evaluated(config, now, walk_items(failed)) =~= Seq::empty());
    if at == walks.len() {
        assert(longer.drop_last() =~= walks);
        // none of the repositories stands behind the new one
        assert forall|i: int| 0 <= i < kept.len() implies moved_behind(#[trigger] kept[i], at)
            == kept[i] by {
            assert(kept.contains(kept[i]));
            lemma_all_kept_origin(config, now, walks, kept[i]);
        }
        assert(all_kept(config, now, longer) =~= all_moved_behind(kept, at));
    } else {
        let before = walks.drop_last();
        let last = walks.last();
        assert(longer.drop_last() =~= before.insert(at, failed));
        assert(longer.last() == last);
        lemma_all_kept_with_failed_walk(config, now, before, at, failed);
        lemma_kept_records_at_next_place(
            walks.len() - 1,
            config,
            now,
            evaluated(config, now, walk_items(last)),
            at,
        );
        assert(all_kept(config, now, longer) =~= all_moved_behind(kept, at));
    }
}

/// The commits of one commit time among the commits as they stand when one
/// more repository is put into the list are the commits of that commit time
/// as they stand then; and commits that stand with the newest first still do.
pub proof fn lemma_moved_behind_keeps_order(commits: Seq<CommitRecord>, at: int)
    ensures
        forall|time: CommitTime| #[trigger]
            with_time(all_moved_behind(commits, at), time) == all_moved_behind(
                with_time(commits, time),
                at,
            ),
        newest_first(commits) ==> newest_first(all_moved_behind(commits, at)),
    decreases commits.len(),
{
    if commits.len() > 0 {
        let before = commits.drop_last();
        lemma_moved_behind_keeps_order(before, at);
        assert(all_moved_behind(commits, at).drop_last() =~= all_moved_behind(before, at));
        assert forall|time: CommitTime| #[trigger]
            with_time(all_moved_behind(commits, at), time) == all_moved_behind(
                with_time(commits, time),
                at,
            ) by {
            assert(with_time(all_moved_behind(before, at), time) == all_moved_behind(
                with_time(before, time),
                at,
            ));
            assert(with_time(all_moved_behind(commits, at), time) =~= all_moved_behind(
                with_time(commits, time),
                at,
            ));
        }
    } else {
        assert forall|time: CommitTime| #[trigger]
            with_time(all_moved_behind(commits, at), time) == all_moved_behind(
                with_time(commits, time),
                at,
            ) by {
            assert(with_time(all_moved_behind(commits, at), time) =~= all_moved_behind(
                with_time(commits, time),
                at,
            ));
        }
    }
    if newest_first(commits) {
        let moved = all_moved_behind(commits, at);
        assert forall|i: int, j: int| 0 <= i <= j < moved.len() implies (
        #[trigger] moved[i]).commit_time.at_or_after((#[trigger] moved[j]).commit_time) by {
            assert(commits[i].commit_time.at_or_after(commits[j].commit_time));
        }
    }
}

/// A repository that cannot be walked, put into the list of repositories at
/// any place, changes nothing of the history but the places of the
/// repositories behind it: the history of the longer list holds the same
/// commits in the same order, and counts the same number of missing commits.
pub proof fn lemma_failed_repository_changes_no_commit(
    history: MultiRepoHistory,
    longer: MultiRepoHistory,
    config: ClassifierConfig,
    now: int,
    walks: Seq<RepoWalk>,
    at: int,
    failed: RepoWalk,
)
    requires
        0 <= at <= walks.len(),
        failed is Failed,
        history.holds(all_kept(config, now, walks), all_unresolved(config, now, walks)),
        longer.holds(
            all_kept(config, now, walks.insert(at, failed)),
            all_unresolved(config, now, walks.insert(at, failed)),
        ),
    ensures
        records(longer.commits@) == all_moved_behind(records(history.commits@), at),
        longer.locally_missing_commits == history.locally_missing_commits,
{
    lemma_all_kept_with_failed_walk(config, now, walks, at, failed);
    let kept = all_kept(config, now, walks);
    let moved = all_moved_behind(records(history.commits@), at);
    lemma_moved_behind_keeps_order(records(history.commits@), at);
    lemma_moved_behind_keeps_order(kept, at);
    assert forall|time: CommitTime| #[trigger]
        with_time(moved, time) == with_time(records(longer.commits@), time) by {
        assert(with_time(records(history.commits@), time) == with_time(kept, time));
        assert(with_time(all_moved_behind(kept, at), time) == all_moved_behind(
            with_time(kept, time),
            at,
        ));
    }
    lemma_history_order_unique(records(longer.commits@), moved);
}

/// Every commit of the walk has, at the two moments, one age.
pub open spec fn ages_agree(walk: Seq<WalkItem>, now: int, later: int) -> bool {
    forall|k: int|
        0 <= k < walk.len() ==> match #[trigger] walk[k] {
            WalkItem::Commit(commit) => commit.time.age_days_at(now) == commit.time.age_days_at(
                later,
            ),
            WalkItem::Unresolvable => true,
        }
}

/// A walk whose commits have one age at two moments is scanned alike at both.
pub proof fn lemma_scan_at_two_moments(
    repo: int,
    config: ClassifierConfig,
    now: int,
    later: int,
    walk: Seq<WalkItem>,
)
    requires
        ages_agree(walk, now, later),
    ensures
        evaluated_len(config, now, walk) == evaluated_len(config, later, walk),
        forall|n: int|
            0 <= n <= walk.len() ==> #[trigger] kept_records(repo, config, now, walk.take(n))
                == kept_records(repo, config, later, walk.take(n)),
    decreases walk.len(),
{
    if walk.len() > 0 {
        let rest = walk.drop_first();
        assert(ages_agree(rest, now, later));
        lemma_scan_at_two_moments(repo, config, now, later, rest);
    }
    assert forall|n: int| 0 <= n <= walk.len() implies #[trigger] kept_records(
        repo,
        config,
        now,
        walk.take(n),
    ) == kept_records(repo, config, later, walk.take(n)) by {
        lemma_kept_at_two_moments(repo, config, now, later, walk, n);
    }
}

/// The first `n` items of a walk whose commits have one age at two moments
/// yield the same commits at both.
proof fn lemma_kept_at_two_moments(
    repo: int,
    config: ClassifierConfig,
    now: int,
    later: int,
    walk: Seq<WalkItem>,
    n: int,
)
    requires
        ages_agree(walk, now, later),
        0 <= n <= walk.len(),
    ensures
        kept_records(repo, config, now, walk.take(n)) == kept_records(
            repo,
            config,
            later,
            walk.take(n),
        ),
    decreases n,
{
    if n > 0 {
        lemma_kept_at_two_moments(repo, config, now, later, walk, n - 1);
        assert(walk.take(n).drop_last() =~= walk.take(n - 1));
    }
}

/// Walks whose commits have one age at two moments yield the same commits,
/// and the same count of missing commits, at both.
pub proof fn lemma_walks_at_two_moments(
    config: ClassifierConfig,
    now: int,
    later: int,
    walks: Seq<RepoWalk>,
)
    requires
        forall|r: int| 0 <= r < walks.len() ==> ages_agree(walk_items(#[trigger] walks[r]), now, later),
    ensures
        all_kept(config, now, walks) == all_kept(config, later, walks),
        all_unresolved(config, now, walks) == all_unresolved(config, later, walks),
    decreases walks.len(),
{
    if walks.len() > 0 {
        let before = walks.drop_last();
        lemma_walks_at_two_moments(config, now, later, before);
        let last = walks.last();
        let items = walk_items(last);
        lemma_scan_at_two_moments(walks.len() - 1, config, now, later, items);
        lemma_evaluated_prefix(config, now, items);
        let n = evaluated_len(config, now, items) as int;
        assert(kept_records(walks.len() - 1, config, now, items.take(n)) == kept_records(
            walks.len() - 1,
            config,
            later,
            items.take(n),
        ));
    }
}

/// Scanning again gives the same history: two histories of the same walks
/// under one classifier hold the same commits in the same order and count the
/// same number of missing commits, also at two different moments as long as
/// every commit has the same age in days at both.
pub proof fn lemma_rescan_gives_same_history(
    first: MultiRepoHistory,
    second: MultiRepoHistory,
    config: ClassifierConfig,
    now: int,
    later: int,
    walks: Seq<RepoWalk>,
)
    requires
        first.holds(all_kept(config, now, walks), all_unresolved(config, now, walks)),
        second.holds(all_kept(config, later, walks), all_unresolved(config, later, walks)),
        forall|r: int| 0 <= r < walks.len() ==> ages_agree(walk_items(#[trigger] walks[r]), now, later),
    ensures
        records(first.commits@) == records(second.commits@),
        first.locally_missing_commits == second.locally_missing_commits,
{
    lemma_walks_at_two_moments(config, now, later, walks);
    lemma_history_order_unique(records(first.commits@), records(second.commits@));
}

} // verus!
