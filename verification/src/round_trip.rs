//! The changelog of a walk in which every commit that a pull request lists
//! surfaces: how many entries of each kind it holds.

use crate::assembly::{LookupView, Settings, is_merge};
use crate::laws::{
    count_entries, count_positions, is_block, is_header, is_plain, is_unattributed,
    lemma_assembled_prefix, lemma_assembled_unfold, lemma_contains_concat, lemma_entry_counts,
    lemma_shown_until_surfaced, lemma_skip_lenient, plain_at, progress_before, resolved_at,
    shown_by, shown_ids_at, suppressed_at, tagged_at, unresolved_at,
};
use crate::model::CommitView;
use crate::process::assembled;
use crate::render::EntryView;
use vstd::prelude::*;

verus! {

/// The identifiers that the pull requests of the first `n` commits of the
/// walk list, in the order in which the assembler meets them.
pub open spec fn all_shown_ids(
    commits: Seq<CommitView>,
    lookups: Seq<LookupView>,
    n: nat,
) -> Seq<Seq<char>>
    decreases n,
{
    if n == 0 {
        Seq::empty()
    } else {
        let before = all_shown_ids(commits, lookups, (n - 1) as nat);
        if resolved_at(commits, lookups, n - 1) {
            before + shown_ids_at(lookups, n - 1)
        } else {
            before
        }
    }
}

/// What holds of a walk of `n` commits that agrees with the pull requests
/// of its merge commits: no two commits share an identifier; no commit is
/// listed twice, by one pull request or by two; and every listed commit
/// surfaces after the merge commit of its pull request, and is no merge
/// commit.
pub open spec fn walk_agrees(commits: Seq<CommitView>, lookups: Seq<LookupView>, n: nat) -> bool {
    &&& forall|a: int, b: int| 0 <= a < b < n ==> commits[a].id != commits[b].id
    &&& all_shown_ids(commits, lookups, n).no_duplicates()
    &&& forall|j: int, id: Seq<char>|
        0 <= j < n && #[trigger] shown_by(commits, lookups, j, id) ==> exists|k: int|
            j < k < n && commits[k].id == id && !is_merge(commits[k])
}

/// A count is at most the number of positions.
pub proof fn lemma_count_bound(n: nat, wanted: spec_fn(int) -> bool)
    ensures
        count_positions(n, wanted) <= n,
        (forall|k: int| 0 <= k < n ==> #[trigger] wanted(k)) ==> count_positions(n, wanted) == n,
        (exists|k: int| 0 <= k < n && !#[trigger] wanted(k)) ==> count_positions(n, wanted) < n,
    decreases n,
{
    if n > 0 {
        lemma_count_bound((n - 1) as nat, wanted);
        if exists|k: int| 0 <= k < n && !#[trigger] wanted(k) {
            let k = choose|k: int| 0 <= k < n && !#[trigger] wanted(k);
            if k < n - 1 {
                assert(0 <= k < n - 1 && !wanted(k));
            }
        }
    }
}

/// Where every position meets exactly one of two conditions or neither, and
/// a third exactly where it meets one of the two, the third's count is the
/// sum of the two counts.
pub proof fn lemma_count_split(
    n: nat,
    whole: spec_fn(int) -> bool,
    left: spec_fn(int) -> bool,
    right: spec_fn(int) -> bool,
)
    requires
        forall|k: int| 0 <= k < n ==> (#[trigger] whole(k) <==> left(k) || right(k)),
        forall|k: int| 0 <= k < n ==> !(#[trigger] left(k) && right(k)),
    ensures
        count_positions(n, whole) == count_positions(n, left) + count_positions(n, right),
    decreases n,
{
    if n > 0 {
        lemma_count_split((n - 1) as nat, whole, left, right);
    }
}

/// Conditions that agree on every position have the same count.
pub proof fn lemma_count_same(n: nat, one: spec_fn(int) -> bool, other: spec_fn(int) -> bool)
    requires
        forall|k: int| 0 <= k < n ==> (#[trigger] one(k) <==> other(k)),
    ensures
        count_positions(n, one) == count_positions(n, other),
    decreases n,
{
    if n > 0 {
        lemma_count_same((n - 1) as nat, one, other);
    }
}

/// A condition that no position meets counts nothing; one that a single
/// position meets counts one.
pub proof fn lemma_count_single(n: nat, wanted: spec_fn(int) -> bool, at: int)
    requires
        forall|k: int| 0 <= k < n && #[trigger] wanted(k) ==> k == at,
    ensures
        count_positions(n, wanted) == (if 0 <= at < n && wanted(at) {
            1nat
        } else {
            0nat
        }),
    decreases n,
{
    if n > 0 {
        lemma_count_single((n - 1) as nat, wanted, at);
    }
}

/// A commit is listed by the pull request of one of the first `n` commits
/// exactly if it is among all the listed identifiers.
pub proof fn lemma_all_shown_contains(
    commits: Seq<CommitView>,
    lookups: Seq<LookupView>,
    n: nat,
    id: Seq<char>,
)
    ensures
        all_shown_ids(commits, lookups, n).contains(id) <==> exists|j: int|
            0 <= j < n && shown_by(commits, lookups, j, id),
    decreases n,
{
    if n > 0 {
        lemma_all_shown_contains(commits, lookups, (n - 1) as nat, id);
        let before = all_shown_ids(commits, lookups, (n - 1) as nat);
        lemma_contains_concat(before, shown_ids_at(lookups, n - 1), id);
        if all_shown_ids(commits, lookups, n).contains(id) {
            if before.contains(id) {
                let j = choose|j: int| 0 <= j < n - 1 && shown_by(commits, lookups, j, id);
                assert(0 <= j < n && shown_by(commits, lookups, j, id));
            } else {
                assert(shown_by(commits, lookups, n - 1, id));
            }
        }
        if exists|j: int| 0 <= j < n && shown_by(commits, lookups, j, id) {
            let j = choose|j: int| 0 <= j < n && shown_by(commits, lookups, j, id);
            if j < n - 1 {
                assert(before.contains(id));
            }
        }
    } else {
        assert(!Seq::<Seq<char>>::empty().contains(id));
    }
}

/// An identifier to pass over was listed by the pull request of an earlier
/// merge commit.
pub proof fn lemma_skip_was_shown(
    settings: Settings,
    commits: Seq<CommitView>,
    lookups: Seq<LookupView>,
    n: nat,
    id: Seq<char>,
)
    requires
        assembled(settings, commits, lookups, n) is Ok,
        progress_before(settings, commits, lookups, n as int).skip.contains(id),
    ensures
        exists|j: int| 0 <= j < n && shown_by(commits, lookups, j, id),
    decreases n,
{
    if n > 0 {
        lemma_assembled_unfold(settings, commits, lookups, n);
        let before = progress_before(settings, commits, lookups, n - 1);
        let after = progress_before(settings, commits, lookups, n as int);
        lemma_contains_concat(before.skip, shown_ids_at(lookups, n - 1), id);
        if before.skip.contains(id) {
            lemma_skip_was_shown(settings, commits, lookups, (n - 1) as nat, id);
            let j = choose|j: int| 0 <= j < n - 1 && shown_by(commits, lookups, j, id);
            assert(0 <= j < n && shown_by(commits, lookups, j, id));
        } else if resolved_at(commits, lookups, n - 1) {
            assert(shown_by(commits, lookups, n - 1, id));
        } else {
            let m = choose|m: int| 0 <= m < after.skip.len() && after.skip[m] == id;
            assert(before.skip[m + 1] == id);
        }
    } else {
        assert(!Seq::<Seq<char>>::empty().contains(id));
    }
}

/// In a walk that agrees with its pull requests, a commit that is no merge
/// commit is passed over exactly if a pull request lists it.
pub proof fn lemma_passed_over_iff_listed(
    settings: Settings,
    commits: Seq<CommitView>,
    lookups: Seq<LookupView>,
    n: nat,
    k: int,
)
    requires
        assembled(settings, commits, lookups, n) is Ok,
        walk_agrees(commits, lookups, n),
        0 <= k < n,
        !is_merge(commits[k]),
    ensures
        suppressed_at(settings, commits, lookups, k) <==> all_shown_ids(
            commits,
            lookups,
            n,
        ).contains(commits[k].id),
{
    let id = commits[k].id;
    lemma_assembled_prefix(settings, commits, lookups, n, k as nat);
    lemma_all_shown_contains(commits, lookups, n, id);
    if suppressed_at(settings, commits, lookups, k) {
        lemma_skip_was_shown(settings, commits, lookups, k as nat, id);
        let j = choose|j: int| 0 <= j < k && shown_by(commits, lookups, j, id);
        assert(0 <= j < n && shown_by(commits, lookups, j, id));
    }
    if all_shown_ids(commits, lookups, n).contains(id) {
        let j = choose|j: int| 0 <= j < n && shown_by(commits, lookups, j, id);
        let surfaced = choose|s: int| j < s < n && commits[s].id == id && !is_merge(commits[s]);
        assert(surfaced == k);
        if settings.strict {
            lemma_shown_until_surfaced(settings, commits, lookups, k as nat, j, id);
        } else {
            lemma_skip_lenient(settings, commits, lookups, k as nat, id);
        }
    }
}

/// The positions of the commits that are no merge commits and whose
/// identifier is among `ids`.
pub open spec fn listed_among(commits: Seq<CommitView>, ids: Seq<Seq<char>>) -> spec_fn(
    int,
) -> bool {
    |k: int| !is_merge(commits[k]) && ids.contains(commits[k].id)
}

/// The positions of the commits that are no merge commits and have the
/// identifier `id`.
pub open spec fn surfaces_as(commits: Seq<CommitView>, id: Seq<char>) -> spec_fn(int) -> bool {
    |k: int| !is_merge(commits[k]) && commits[k].id == id
}

/// In a walk that agrees with its pull requests, the first `m` listed
/// identifiers are those of `m` commits of the walk.
pub proof fn lemma_listed_count(
    commits: Seq<CommitView>,
    lookups: Seq<LookupView>,
    n: nat,
    m: nat,
)
    requires
        walk_agrees(commits, lookups, n),
        m <= all_shown_ids(commits, lookups, n).len(),
    ensures
        count_positions(
            n,
            listed_among(commits, all_shown_ids(commits, lookups, n).take(m as int)),
        ) == m,
    decreases m,
{
    let all = all_shown_ids(commits, lookups, n);
    if m == 0 {
        assert forall|k: int|
            0 <= k < n && #[trigger] listed_among(commits, all.take(0))(k) implies k == -1 by {
            assert(all.take(0).len() == 0);
        }
        lemma_count_single(n, listed_among(commits, all.take(0)), -1);
    } else {
        lemma_listed_count(commits, lookups, n, (m - 1) as nat);
        let id = all[m - 1];
        let whole = listed_among(commits, all.take(m as int));
        let left = listed_among(commits, all.take(m - 1));
        let right = surfaces_as(commits, id);
        assert(all.take(m as int) =~= all.take(m - 1) + seq![id]);
        assert forall|k: int| 0 <= k < n implies (#[trigger] whole(k) <==> left(k) || right(k)) by {
            lemma_contains_concat(all.take(m - 1), seq![id], commits[k].id);
            if seq![id].contains(commits[k].id) {
                let t = choose|t: int| 0 <= t < 1 && seq![id][t] == commits[k].id;
            }
            if commits[k].id == id {
                assert(seq![id][0] == commits[k].id);
            }
        }
        assert forall|k: int| 0 <= k < n implies !(#[trigger] left(k) && right(k)) by {
            if left(k) && right(k) {
                let shorter = all.take(m - 1);
                let t = choose|t: int| 0 <= t < shorter.len() && shorter[t] == id;
                assert(all[t] == all[m - 1]);
            }
        }
        lemma_count_split(n, whole, left, right);
        assert(all.contains(id));
        lemma_all_shown_contains(commits, lookups, n, id);
        let j = choose|j: int| 0 <= j < n && shown_by(commits, lookups, j, id);
        let surfaced = choose|s: int| j < s < n && commits[s].id == id && !is_merge(commits[s]);
        assert(right(surfaced));
        lemma_count_single(n, right, surfaced);
    }
}

/// The changelog of a walk that agrees with the pull requests of its merge
/// commits, and in which every merge commit resolves to a pull request.
/// Where the walk holds `n` commits, of which `tagged` bear a tag and
/// `merged` are merge commits, and the pull requests list `listed` commits
/// in all, and where an untagged commit, if there is one, comes first, the
/// changelog holds `tagged` headers, and one more if a commit is untagged;
/// `merged` pull requests; `n - merged - listed` commits on lines of their
/// own; and no marked merge commit.
pub proof fn lemma_round_trip(
    settings: Settings,
    commits: Seq<CommitView>,
    lookups: Seq<LookupView>,
    n: nat,
)
    requires
        assembled(settings, commits, lookups, n) is Ok,
        walk_agrees(commits, lookups, n),
        forall|i: int| 0 <= i < n && is_merge(#[trigger] commits[i]) ==> resolved_at(commits, lookups, i),
        n > 0 && tagged_at(settings, commits, 0) ==> forall|i: int|
            0 <= i < n ==> #[trigger] tagged_at(settings, commits, i),
    ensures
        ({
            let entries = assembled(settings, commits, lookups, n)->Ok_0.entries;
            let tagged = count_positions(n, |i: int| tagged_at(settings, commits, i));
            let merged = count_positions(n, |i: int| is_merge(commits[i]));
            let listed = all_shown_ids(commits, lookups, n).len();
            &&& count_entries(entries, |e: EntryView| is_header(e)) == tagged + (if tagged < n {
                1nat
            } else {
                0nat
            })
            &&& count_entries(entries, |e: EntryView| is_block(e)) == merged
            &&& count_entries(entries, |e: EntryView| is_unattributed(e)) == 0
            &&& merged + listed <= n
            &&& count_entries(entries, |e: EntryView| is_plain(e)) == n - merged - listed
        }),
{
    let all = all_shown_ids(commits, lookups, n);
    let tagged_here = |i: int| tagged_at(settings, commits, i);
    let merged_here = |i: int| is_merge(commits[i]);
    let resolved_here = |i: int| resolved_at(commits, lookups, i);
    let unresolved_here = |i: int| unresolved_at(commits, lookups, i);
    let plain_here = |i: int| plain_at(settings, commits, lookups, i);
    let passed_here = |i: int| suppressed_at(settings, commits, lookups, i);
    let other_here = |i: int| !is_merge(commits[i]);
    let every = |i: int| true;
    lemma_entry_counts(settings, commits, lookups, n);
    // headers
    lemma_count_bound(n, tagged_here);
    if n > 0 && !tagged_at(settings, commits, 0) {
        assert(!tagged_here(0));
    }
    // pull requests and marked merge commits
    assert forall|k: int| 0 <= k < n implies (#[trigger] resolved_here(k) <==> merged_here(k)) by {
        assert(is_merge(commits[k]) ==> resolved_at(commits, lookups, k));
    }
    lemma_count_same(n, resolved_here, merged_here);
    assert forall|k: int| 0 <= k < n && #[trigger] unresolved_here(k) implies k == -1 by {
        assert(is_merge(commits[k]) ==> resolved_at(commits, lookups, k));
    }
    lemma_count_single(n, unresolved_here, -1);
    // plain lines
    lemma_count_bound(n, every);
    lemma_count_split(n, every, merged_here, other_here);
    lemma_count_split(n, other_here, plain_here, passed_here);
    assert(all.take(all.len() as int) =~= all);
    assert forall|k: int| 0 <= k < n implies (#[trigger] passed_here(k) <==> listed_among(
        commits,
        all,
    )(k)) by {
        if !is_merge(commits[k]) {
            lemma_passed_over_iff_listed(settings, commits, lookups, n, k);
        }
    }
    lemma_count_same(n, passed_here, listed_among(commits, all));
    lemma_listed_count(commits, lookups, n, all.len());
}

} // verus!
