//! Commits in the order of their times.

use vstd::prelude::*;

use crate::types::{commit_views, Commit, CommitView};

verus! {

/// Whether each commit is at or before the next in time.
pub open spec fn ordered_by_time(commits: Seq<CommitView>) -> bool {
    forall|i: int, j: int|
        0 <= i <= j < commits.len() ==> (#[trigger] commits[i]).timestamp.at_or_before(
            (#[trigger] commits[j]).timestamp,
        )
}

/// An ordered list with one more commit, placed behind every commit that is
/// at or before it in time.
pub open spec fn insert_by_time(sorted: Seq<CommitView>, c: CommitView) -> Seq<CommitView>
    decreases sorted.len(),
{
    if sorted.len() == 0 {
        seq![c]
    } else if sorted.last().timestamp.at_or_before(c.timestamp) {
        sorted.push(c)
    } else {
        insert_by_time(sorted.drop_last(), c).push(sorted.last())
    }
}

/// The commits in the order of their times; commits of the same time keep
/// the order in which they were given.
pub open spec fn sort_by_time(commits: Seq<CommitView>) -> Seq<CommitView>
    decreases commits.len(),
{
    if commits.len() == 0 {
        commits
    } else {
        insert_by_time(sort_by_time(commits.drop_last()), commits.last())
    }
}

/// Where a commit goes into an ordered list: behind the last commit that is
/// at or before it.
pub proof fn lemma_insert_place(sorted: Seq<CommitView>, c: CommitView, p: int)
    requires
        0 <= p <= sorted.len(),
        p > 0 ==> sorted[p - 1].timestamp.at_or_before(c.timestamp),
        forall|k: int| p <= k < sorted.len() ==> !(#[trigger] sorted[k]).timestamp.at_or_before(c.timestamp),
    ensures
        insert_by_time(sorted, c) == sorted.insert(p, c),
    decreases sorted.len() - p,
{
    if sorted.len() == 0 {
        assert(sorted.insert(p, c) =~= seq![c]);
    } else if p == sorted.len() {
        assert(sorted.insert(p, c) =~= sorted.push(c));
    } else {
        let rest = sorted.drop_last();
        assert(!sorted[sorted.len() - 1].timestamp.at_or_before(c.timestamp));
        assert forall|k: int| p <= k < rest.len() implies !(#[trigger] rest[k]).timestamp.at_or_before(
            c.timestamp,
        ) by {
            assert(rest[k] == sorted[k]);
        }
        if p > 0 {
            assert(rest[p - 1] == sorted[p - 1]);
        }
        lemma_insert_place(rest, c, p);
        assert(rest.insert(p, c).push(sorted.last()) =~= sorted.insert(p, c));
    }
}

/// Inserting keeps the order and adds one commit.
pub proof fn lemma_insert_ordered(sorted: Seq<CommitView>, c: CommitView)
    requires
        ordered_by_time(sorted),
    ensures
        ordered_by_time(insert_by_time(sorted, c)),
        insert_by_time(sorted, c).len() == sorted.len() + 1,
        insert_by_time(sorted, c).to_multiset() == sorted.to_multiset().insert(c),
    decreases sorted.len(),
{
    broadcast use vstd::seq_lib::group_to_multiset_ensures;

    if sorted.len() == 0 {
        assert(seq![c] =~= sorted.push(c));
    } else if sorted.last().timestamp.at_or_before(c.timestamp) {
        let out = sorted.push(c);
        assert forall|i: int, j: int| 0 <= i <= j < out.len() implies (#[trigger] out[i]).timestamp.at_or_before(
            (#[trigger] out[j]).timestamp,
        ) by {
            if j == sorted.len() {
                if i < sorted.len() {
                    assert(sorted[i].timestamp.at_or_before(sorted[sorted.len() - 1].timestamp));
                }
            } else {
                assert(sorted[i].timestamp.at_or_before(sorted[j].timestamp));
            }
        }
    } else {
        let rest = sorted.drop_last();
        let last = sorted.last();
        assert forall|i: int, j: int| 0 <= i <= j < rest.len() implies (#[trigger] rest[i]).timestamp.at_or_before(
            (#[trigger] rest[j]).timestamp,
        ) by {
            assert(sorted[i].timestamp.at_or_before(sorted[j].timestamp));
        }
        lemma_insert_ordered(rest, c);
        let inner = insert_by_time(rest, c);
        let out = inner.push(last);
        assert(sorted =~= rest.push(last));
        assert forall|i: int| 0 <= i < inner.len() implies (#[trigger] inner[i]).timestamp.at_or_before(
            last.timestamp,
        ) by {
            assert(inner.to_multiset().count(inner[i]) > 0);
            if inner[i] == c {
            } else {
                assert(rest.to_multiset().count(inner[i]) > 0);
                assert(rest.contains(inner[i]));
                let k = choose|k: int| 0 <= k < rest.len() && rest[k] == inner[i];
                assert(sorted[k].timestamp.at_or_before(sorted[sorted.len() - 1].timestamp));
            }
        }
        assert forall|i: int, j: int| 0 <= i <= j < out.len() implies (#[trigger] out[i]).timestamp.at_or_before(
            (#[trigger] out[j]).timestamp,
        ) by {
            if j == inner.len() {
                if i < inner.len() {
                    assert(inner[i].timestamp.at_or_before(last.timestamp));
                }
            } else {
                assert(inner[i].timestamp.at_or_before(inner[j].timestamp));
            }
        }
        assert(out.to_multiset() =~= sorted.to_multiset().insert(c));
    }
}

/// Sorting gives the same commits, each as often as before, in the order of
/// their times.
pub proof fn lemma_sort_by_time(commits: Seq<CommitView>)
    ensures
        ordered_by_time(sort_by_time(commits)),
        sort_by_time(commits).len() == commits.len(),
        sort_by_time(commits).to_multiset() == commits.to_multiset(),
    decreases commits.len(),
{
    broadcast use vstd::seq_lib::group_to_multiset_ensures;

    if commits.len() > 0 {
        lemma_sort_by_time(commits.drop_last());
        lemma_insert_ordered(sort_by_time(commits.drop_last()), commits.last());
        assert(commits =~= commits.drop_last().push(commits.last()));
    }
}

/// The commits in the order of their times; commits of the same time keep
/// the order in which they were given.
pub fn sort_commits(commits: &Vec<Commit>) -> (sorted: Vec<Commit>)
    ensures
        commit_views(sorted@) == sort_by_time(commit_views(commits@)),
{
    let mut out: Vec<Commit> = Vec::new();
    let mut i: usize = 0;
    assert(commit_views(commits@).take(0) =~= Seq::<CommitView>::empty());
    assert(commit_views(out@) =~= Seq::<CommitView>::empty());
    while i < commits.len()
        invariant
            i <= commits@.len(),
            out@.len() == i,
            commit_views(out@) == sort_by_time(commit_views(commits@).take(i as int)),
        decreases commits@.len() - i,
    {
        let c = commits[i].clone();
        let ghost before = commit_views(out@);
        let mut p: usize = out.len();
        while p > 0 && !out[p - 1].timestamp.is_at_or_before(&c.timestamp)
            invariant
                p <= out@.len(),
                before == commit_views(out@),
                forall|k: int| p <= k < before.len() ==> !(#[trigger] before[k]).timestamp.at_or_before(c@.timestamp),
            decreases p,
        {
            assert(before[p - 1] == out@[p - 1]@);
            p -= 1;
        }
        proof {
            if p > 0 {
                assert(before[p - 1] == out@[p - 1]@);
            }
            lemma_insert_place(before, c@, p as int);
            let all = commit_views(commits@);
            assert(all.take(i as int + 1).drop_last() =~= all.take(i as int));
            assert(all.take(i as int + 1).last() == commits@[i as int]@);
        }
        out.insert(p, c);
        assert(commit_views(out@) =~= before.insert(p as int, c@));
        i += 1;
    }
    assert(commit_views(commits@).take(i as int) =~= commit_views(commits@));
    out
}

} // verus!
