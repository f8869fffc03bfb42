//! The order of the history: the newest commit first, and among commits of
//! one commit time the order in which they were gathered.

use crate::commit_time::CommitTime;
use crate::model::{CommitRecord, RepoCommit};
use crate::scan::records;
use crate::seqs::lemma_contains_push;
use vstd::prelude::*;

verus! {

/// No commit stands before a commit with a later commit time.
pub open spec fn newest_first(commits: Seq<CommitRecord>) -> bool {
    forall|i: int, j: int|
        0 <= i <= j < commits.len() ==> (#[trigger] commits[i]).commit_time.at_or_after(
            (#[trigger] commits[j]).commit_time,
        )
}

/// The commits with the given commit time, in the order in which they stand.
pub open spec fn with_time(commits: Seq<CommitRecord>, time: CommitTime) -> Seq<CommitRecord>
    decreases commits.len(),
{
    if commits.len() == 0 {
        Seq::empty()
    } else {
        let before = with_time(commits.drop_last(), time);
        if commits.last().commit_time == time {
            before.push(commits.last())
        } else {
            before
        }
    }
}

/// One list holds the commits of the other in the order that the history
/// has: as many commits, the newest first, and the commits of one commit time
/// in the order in which the other list has them.
pub open spec fn is_history_order_of(sorted: Seq<CommitRecord>, gathered: Seq<CommitRecord>) -> bool {
    &&& sorted.len() == gathered.len()
    &&& newest_first(sorted)
    &&& forall|time: CommitTime| #[trigger] with_time(sorted, time) == with_time(gathered, time)
}

/// A commit that is appended joins the commits of its own commit time, at
/// their end, and no others.
pub proof fn lemma_with_time_push(commits: Seq<CommitRecord>, last: CommitRecord, time: CommitTime)
    ensures
        with_time(commits.push(last), time) == if last.commit_time == time {
            with_time(commits, time).push(last)
        } else {
            with_time(commits, time)
        },
{
    assert(commits.push(last).drop_last() =~= commits);
}

/// The commits of one commit time in two lists, one after the other, are
/// those of the first list followed by those of the second.
pub proof fn lemma_with_time_concat(
    first: Seq<CommitRecord>,
    second: Seq<CommitRecord>,
    time: CommitTime,
)
    ensures
        with_time(first + second, time) == with_time(first, time) + with_time(second, time),
    decreases second.len(),
{
    if second.len() > 0 {
        lemma_with_time_concat(first, second.drop_last(), time);
        assert((first + second).drop_last() =~= first + second.drop_last());
    }
}

/// A commit is among the commits of a commit time exactly if it is in the
/// list and has that commit time.
pub proof fn lemma_with_time_members(commits: Seq<CommitRecord>, time: CommitTime)
    ensures
        forall|c: CommitRecord|
            with_time(commits, time).contains(c) <==> commits.contains(c) && c.commit_time
                == time,
    decreases commits.len(),
{
    if commits.len() > 0 {
        let before = commits.drop_last();
        let last = commits.last();
        lemma_with_time_members(before, time);
        assert(commits =~= before.push(last));
        assert forall|c: CommitRecord|
            with_time(commits, time).contains(c) <==> commits.contains(c) && c.commit_time
                == time by {
            lemma_contains_push(before, last, c);
            lemma_contains_push(with_time(before, time), last, c);
        }
    }
}

/// Two lists in the order of the history that hold, for every commit time,
/// the same commits in the same order are one and the same list.
pub proof fn lemma_history_order_unique(first: Seq<CommitRecord>, second: Seq<CommitRecord>)
    requires
        newest_first(first),
        newest_first(second),
        forall|time: CommitTime| #[trigger] with_time(first, time) == with_time(second, time),
    ensures
        first == second,
    decreases first.len() + second.len(),
{
    if first.len() == 0 && second.len() == 0 {
        assert(first =~= second);
    } else if first.len() == 0 || second.len() == 0 {
        // The list that has a commit has a commit of that commit time, and
        // the other list has none: this cannot be.
        let full = if first.len() == 0 {
            second
        } else {
            first
        };
        let time = full.last().commit_time;
        assert(with_time(first, time) == with_time(second, time));
    } else {
        let f = first.last();
        let s = second.last();
        // The last commit of each list is in the other one, and no commit of a
        // list is earlier than its last: the two have one commit time, and are
        // one commit, the last of that commit time.
        lemma_with_time_members(first, f.commit_time);
        lemma_with_time_members(second, f.commit_time);
        lemma_with_time_members(first, s.commit_time);
        lemma_with_time_members(second, s.commit_time);
        assert(first.contains(f) && second.contains(f));
        assert(second.contains(s) && first.contains(s));
        let time = f.commit_time;
        assert(with_time(first, time).last() == f);
        assert(f == s);
        // What stands before the last commit is alike in both lists.
        let first_before = first.drop_last();
        let second_before = second.drop_last();
        assert forall|t: CommitTime| #[trigger]
            with_time(first_before, t) == with_time(second_before, t) by {
            if t == time {
                assert(with_time(first, t).drop_last() =~= with_time(first_before, t));
            }
        }
        lemma_history_order_unique(first_before, second_before);
        assert(first =~= first_before.push(f));
    }
}

/// Where no commit is followed by a commit with a later commit time, no
/// commit stands before such a commit.
pub proof fn lemma_newest_first_from_neighbours(commits: Seq<CommitRecord>)
    requires
        forall|i: int|
            0 <= i && i + 1 < commits.len() ==> (#[trigger] commits[i]).commit_time.at_or_after(
                commits[i + 1].commit_time,
            ),
    ensures
        newest_first(commits),
    decreases commits.len(),
{
    if commits.len() > 1 {
        let before = commits.drop_last();
        lemma_newest_first_from_neighbours(before);
        let last = commits.len() - 1;
        assert forall|i: int, j: int| 0 <= i <= j < commits.len() implies (
        #[trigger] commits[i]).commit_time.at_or_after((#[trigger] commits[j]).commit_time) by {
            if j < last {
                assert(before[i] == commits[i]);
                assert(before[j] == commits[j]);
            } else if i < last {
                assert(before[i] == commits[i]);
                assert(before[last - 1] == commits[last - 1]);
            }
        }
    }
}

/// Whether the commits stand with the newest first.
pub fn is_newest_first(commits: &Vec<RepoCommit>) -> (ordered: bool)
    ensures
        ordered == newest_first(records(commits@)),
{
    let mut k: usize = 1;
    while k < commits.len()
        invariant
            1 <= k,
            forall|i: int|
                0 <= i && i + 1 < k && i + 1 < commits@.len() ==> (#[trigger] records(
                    commits@,
                )[i]).commit_time.at_or_after(records(commits@)[i + 1].commit_time),
        decreases commits@.len() - k,
    {
        if !commits[k - 1].commit_time.is_at_or_after(&commits[k].commit_time) {
            proof {
                let all = records(commits@);
                assert(!all[k - 1].commit_time.at_or_after(all[k as int].commit_time));
            }
            return false;
        }
        k = k + 1;
    }
    proof {
        lemma_newest_first_from_neighbours(records(commits@));
    }
    true
}

/// The commits that the places name, in the order of the places.
pub open spec fn picked(commits: Seq<CommitRecord>, places: Seq<usize>) -> Seq<CommitRecord> {
    Seq::new(places.len(), |k: int| commits[places[k] as int])
}

/// Every place names a commit of the list.
pub open spec fn places_within(places: Seq<usize>, len: int) -> bool {
    forall|k: int| 0 <= k < places.len() ==> (#[trigger] places[k]) < len
}

/// The commits that the places name stand with the newest first.
pub open spec fn places_newest_first(commits: Seq<CommitRecord>, places: Seq<usize>) -> bool {
    forall|a: int, b: int|
        0 <= a <= b < places.len() ==> commits[(#[trigger] places[a]) as int].commit_time.at_or_after(
            commits[(#[trigger] places[b]) as int].commit_time,
        )
}

/// No commit of the list has the commit time: none is picked out for it.
proof fn lemma_with_time_none(commits: Seq<CommitRecord>, time: CommitTime)
    requires
        forall|k: int| 0 <= k < commits.len() ==> (#[trigger] commits[k]).commit_time != time,
    ensures
        with_time(commits, time) == Seq::<CommitRecord>::empty(),
    decreases commits.len(),
{
    if commits.len() > 0 {
        let before = commits.drop_last();
        lemma_with_time_none(before, time);
    }
}

/// Merges two runs of places, each with the newest commit first, into one.
/// Of two commits with one commit time, the one of the left run comes first.
fn merge(commits: &Vec<RepoCommit>, left: &Vec<usize>, right: &Vec<usize>) -> (merged: Vec<usize>)
    requires
        places_within(left@, commits@.len() as int),
        places_within(right@, commits@.len() as int),
        places_newest_first(records(commits@), left@),
        places_newest_first(records(commits@), right@),
    ensures
        merged@.len() == left@.len() + right@.len(),
        places_within(merged@, commits@.len() as int),
        places_newest_first(records(commits@), merged@),
        forall|time: CommitTime| #[trigger]
            with_time(picked(records(commits@), merged@), time) == with_time(
                picked(records(commits@), left@),
                time,
            ) + with_time(picked(records(commits@), right@), time),
{
    let ghost recs = records(commits@);
    let mut merged: Vec<usize> = Vec::new();
    let mut i: usize = 0;
    let mut j: usize = 0;
    while i < left.len() || j < right.len()
        invariant
            recs == records(commits@),
            0 <= i <= left@.len(),
            0 <= j <= right@.len(),
            merged@.len() == i + j,
            places_within(left@, commits@.len() as int),
            places_within(right@, commits@.len() as int),
            places_newest_first(recs, left@),
            places_newest_first(recs, right@),
            places_within(merged@, commits@.len() as int),
            places_newest_first(recs, merged@),
            i < left@.len() ==> forall|k: int|
                0 <= k < merged@.len() ==> recs[(#[trigger] merged@[k]) as int].commit_time.at_or_after(
                    recs[left@[i as int] as int].commit_time,
                ),
            j < right@.len() ==> forall|k: int|
                0 <= k < merged@.len() ==> recs[(#[trigger] merged@[k]) as int].commit_time.at_or_after(
                    recs[right@[j as int] as int].commit_time,
                ),
            i < left@.len() ==> forall|b: int|
                0 <= b < j ==> !recs[left@[i as int] as int].commit_time.at_or_after(
                    recs[(#[trigger] right@[b]) as int].commit_time,
                ),
            forall|time: CommitTime| #[trigger]
                with_time(picked(recs, merged@), time) == with_time(
                    picked(recs, left@.take(i as int)),
                    time,
                ) + with_time(picked(recs, right@.take(j as int)), time),
        decreases left@.len() - i + right@.len() - j,
    {
        let ghost merged_before = merged@;
        let from_left = if i >= left.len() {
            false
        } else if j >= right.len() {
            true
        } else {
            commits[left[i]].commit_time.is_at_or_after(&commits[right[j]].commit_time)
        };
        if from_left {
            let place = left[i];
            merged.push(place);
            proof {
                let added = recs[place as int];
                assert(picked(recs, merged@) =~= picked(recs, merged_before).push(added));
                assert(picked(recs, left@.take(i + 1)) =~= picked(recs, left@.take(i as int)).push(
                    added,
                ));
                assert forall|time: CommitTime| #[trigger]
                    with_time(picked(recs, merged@), time) == with_time(
                        picked(recs, left@.take(i + 1)),
                        time,
                    ) + with_time(picked(recs, right@.take(j as int)), time) by {
                    lemma_with_time_push(picked(recs, merged_before), added, time);
                    lemma_with_time_push(picked(recs, left@.take(i as int)), added, time);
                    if added.commit_time == time {
                        let taken = picked(recs, right@.take(j as int));
                        lemma_with_time_none(taken, time);
                    }
                }
                if i + 1 < left@.len() {
                    assert(recs[left@[i as int] as int].commit_time.at_or_after(
                        recs[left@[i + 1] as int].commit_time,
                    ));
                }
            }
            i = i + 1;
        } else {
            let place = right[j];
            merged.push(place);
            proof {
                let added = recs[place as int];
                assert(picked(recs, merged@) =~= picked(recs, merged_before).push(added));
                assert(picked(recs, right@.take(j + 1)) =~= picked(
                    recs,
                    right@.take(j as int),
                ).push(added));
                assert forall|time: CommitTime| #[trigger]
                    with_time(picked(recs, merged@), time) == with_time(
                        picked(recs, left@.take(i as int)),
                        time,
                    ) + with_time(picked(recs, right@.take(j + 1)), time) by {
                    lemma_with_time_push(picked(recs, merged_before), added, time);
                    lemma_with_time_push(picked(recs, right@.take(j as int)), added, time);
                }
                if j + 1 < right@.len() {
                    assert(recs[right@[j as int] as int].commit_time.at_or_after(
                        recs[right@[j + 1] as int].commit_time,
                    ));
                }
            }
            j = j + 1;
        }
    }
    proof {
        assert(left@.take(i as int) =~= left@);
        assert(right@.take(j as int) =~= right@);
    }
    merged
}

/// The places `from` up to `to` of the list, put into the order of the
/// history.
fn sort_places(commits: &Vec<RepoCommit>, from: usize, to: usize) -> (places: Vec<usize>)
    requires
        from <= to <= commits@.len(),
    ensures
        places@.len() == to - from,
        places_within(places@, commits@.len() as int),
        places_newest_first(records(commits@), places@),
        forall|time: CommitTime| #[trigger]
            with_time(picked(records(commits@), places@), time) == with_time(
                records(commits@).subrange(from as int, to as int),
                time,
            ),
    decreases to - from,
{
    let ghost recs = records(commits@);
    if to - from == 0 {
        Vec::new()
    } else if to - from == 1 {
        let mut places: Vec<usize> = Vec::new();
        places.push(from);
        proof {
            assert(picked(recs, places@) =~= recs.subrange(from as int, to as int));
        }
        places
    } else {
        let middle = from + (to - from) / 2;
        let left = sort_places(commits, from, middle);
        let right = sort_places(commits, middle, to);
        let places = merge(commits, &left, &right);
        proof {
            assert forall|time: CommitTime| #[trigger]
                with_time(picked(recs, places@), time) == with_time(
                    recs.subrange(from as int, to as int),
                    time,
                ) by {
                lemma_with_time_concat(
                    recs.subrange(from as int, middle as int),
                    recs.subrange(middle as int, to as int),
                    time,
                );
                assert(recs.subrange(from as int, middle as int) + recs.subrange(
                    middle as int,
                    to as int,
                ) =~= recs.subrange(from as int, to as int));
            }
        }
        places
    }
}

/// Puts the commits into the order of the history: the newest first, and
/// commits of one commit time in the order in which they were handed in.
pub fn sort_newest_first(commits: Vec<RepoCommit>) -> (sorted: Vec<RepoCommit>)
    ensures
        is_history_order_of(records(sorted@), records(commits@)),
{
    let ghost recs = records(commits@);
    let places = sort_places(&commits, 0, commits.len());
    let mut sorted: Vec<RepoCommit> = Vec::new();
    let mut k: usize = 0;
    while k < places.len()
        invariant
            0 <= k <= places@.len(),
            recs == records(commits@),
            places_within(places@, commits@.len() as int),
            sorted@.len() == k,
            forall|m: int| 0 <= m < k ==> (#[trigger] sorted@[m])@ == recs[places@[m] as int],
        decreases places@.len() - k,
    {
        let copy = commits[places[k]].clone();
        sorted.push(copy);
        k = k + 1;
    }
    proof {
        assert(records(sorted@) =~= picked(recs, places@));
        assert(recs.subrange(0, commits@.len() as int) =~= recs);
    }
    sorted
}

} // verus!
