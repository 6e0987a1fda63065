//! What holds of every changelog that the assembler writes.

use crate::assembly::{
    LookupView, Progress, Settings, absorb, body_entries, commit_fault, contribution,
    first_pull_request, initial_progress, is_merge, is_resolved_merge, is_suppressed,
    listed_commits, nested_ids, section_entries, section_tag, shown_author, skip_after,
    walked_line,
};
use crate::date::date_text;
use crate::model::CommitView;
use crate::process::{assembled, lookup_at};
use crate::render::{CommitLineView, EntryView, changelog_text, entry_text};
use crate::text::short_id_text;
use vstd::prelude::*;

verus! {

/// Whether the entry is the header of a section.
pub open spec fn is_header(entry: EntryView) -> bool {
    entry is Section
}

/// Whether the entry is the header of the section of what is not released.
pub open spec fn is_unreleased_header(entry: EntryView) -> bool {
    entry matches EntryView::Section { tag, .. } && tag is None
}

/// Whether the entry is a commit on a line of its own.
pub open spec fn is_plain(entry: EntryView) -> bool {
    entry is Commit
}

/// Whether the entry is a merge commit that no pull request accounts for.
pub open spec fn is_unattributed(entry: EntryView) -> bool {
    entry is UnattributedMerge
}

/// Whether the entry is a pull request with its commits.
pub open spec fn is_block(entry: EntryView) -> bool {
    entry is PullRequest
}

/// How many of the entries meet `wanted`.
pub open spec fn count_entries(entries: Seq<EntryView>, wanted: spec_fn(EntryView) -> bool) -> nat
    decreases entries.len(),
{
    if entries.len() == 0 {
        0
    } else {
        count_entries(entries.drop_last(), wanted) + (if wanted(entries.last()) {
            1nat
        } else {
            0nat
        })
    }
}

/// The lines of the commits that stand on a line of their own, in order.
pub open spec fn plain_lines(entries: Seq<EntryView>) -> Seq<CommitLineView>
    decreases entries.len(),
{
    if entries.len() == 0 {
        Seq::empty()
    } else {
        match entries.last() {
            EntryView::Commit(line) => plain_lines(entries.drop_last()).push(line),
            _ => plain_lines(entries.drop_last()),
        }
    }
}

/// Counting goes through concatenation.
pub proof fn lemma_count_concat(
    left: Seq<EntryView>,
    right: Seq<EntryView>,
    wanted: spec_fn(EntryView) -> bool,
)
    ensures
        count_entries(left + right, wanted) == count_entries(left, wanted) + count_entries(
            right,
            wanted,
        ),
    decreases right.len(),
{
    if right.len() == 0 {
        assert(left + right =~= left);
    } else {
        assert((left + right).drop_last() =~= left + right.drop_last());
        assert((left + right).last() == right.last());
        lemma_count_concat(left, right.drop_last(), wanted);
    }
}

/// The plain lines of a concatenation are those of its parts.
pub proof fn lemma_plain_lines_concat(left: Seq<EntryView>, right: Seq<EntryView>)
    ensures
        plain_lines(left + right) == plain_lines(left) + plain_lines(right),
    decreases right.len(),
{
    if right.len() == 0 {
        assert(left + right =~= left);
        assert(plain_lines(left) + plain_lines(right) =~= plain_lines(left));
    } else {
        assert((left + right).drop_last() =~= left + right.drop_last());
        assert((left + right).last() == right.last());
        lemma_plain_lines_concat(left, right.drop_last());
        assert(plain_lines(left + right) =~= plain_lines(left) + plain_lines(right));
    }
}

/// An assembly that has come through `n` commits has come through the first
/// `n - 1`, and the last of the `n` did not stop it.
pub proof fn lemma_assembled_unfold(
    settings: Settings,
    commits: Seq<CommitView>,
    lookups: Seq<LookupView>,
    n: nat,
)
    requires
        n > 0,
        assembled(settings, commits, lookups, n) is Ok,
    ensures
        assembled(settings, commits, lookups, (n - 1) as nat) is Ok,
        commit_fault(
            settings,
            assembled(settings, commits, lookups, (n - 1) as nat)->Ok_0,
            commits[n - 1],
        ) is None,
        assembled(settings, commits, lookups, n)->Ok_0 == absorb(
            settings,
            assembled(settings, commits, lookups, (n - 1) as nat)->Ok_0,
            commits[n - 1],
            lookup_at(lookups, n - 1),
        ),
{
}

/// An assembly that has come through `n` commits has come through every
/// shorter start of the walk.
pub proof fn lemma_assembled_prefix(
    settings: Settings,
    commits: Seq<CommitView>,
    lookups: Seq<LookupView>,
    n: nat,
    m: nat,
)
    requires
        m <= n,
        assembled(settings, commits, lookups, n) is Ok,
    ensures
        assembled(settings, commits, lookups, m) is Ok,
    decreases n,
{
    if m < n {
        lemma_assembled_unfold(settings, commits, lookups, n);
        lemma_assembled_prefix(settings, commits, lookups, (n - 1) as nat, m);
    }
}

/// A merge commit that resolves to no pull request contributes, after its
/// header, its marked line and nothing else: no pull request, no line of a
/// pull request's commit; and it marks no commit as shown.
pub proof fn lemma_unresolved_merge(
    settings: Settings,
    progress: Progress,
    commit: CommitView,
    lookup: LookupView,
)
    requires
        is_merge(commit),
        first_pull_request(lookup.pull_requests) is None,
    ensures
        body_entries(progress, commit, lookup) == seq![
            EntryView::UnattributedMerge(
                walked_line(commit, shown_author(progress, commit, lookup.author)),
            ),
        ],
        count_entries(contribution(settings, progress, commit, lookup), |e: EntryView| is_block(e))
            == 0,
        count_entries(
            contribution(settings, progress, commit, lookup),
            |e: EntryView| is_unattributed(e),
        ) == 1,
        skip_after(settings, progress, commit, lookup) == progress.skip,
{
    let header = section_entries(settings, progress, commit);
    let body = body_entries(progress, commit, lookup);
    lemma_count_concat(header, body, |e: EntryView| is_block(e));
    lemma_count_concat(header, body, |e: EntryView| is_unattributed(e));
    lemma_count_short(header, |e: EntryView| is_block(e));
    lemma_count_short(header, |e: EntryView| is_unattributed(e));
    lemma_count_short(body, |e: EntryView| is_block(e));
    lemma_count_short(body, |e: EntryView| is_unattributed(e));
}

/// The count over no entry, and over one.
pub proof fn lemma_count_short(entries: Seq<EntryView>, wanted: spec_fn(EntryView) -> bool)
    requires
        entries.len() <= 1,
    ensures
        entries.len() == 0 ==> count_entries(entries, wanted) == 0,
        entries.len() == 1 ==> count_entries(entries, wanted) == (if wanted(entries[0]) {
            1nat
        } else {
            0nat
        }),
{
    if entries.len() == 1 {
        assert(entries.drop_last().len() == 0);
        assert(count_entries(entries.drop_last(), wanted) == 0);
    }
}

/// Where only the first entry can meet `wanted`, at most one entry does.
pub proof fn lemma_count_first_only(entries: Seq<EntryView>, wanted: spec_fn(EntryView) -> bool)
    requires
        forall|k: int| 0 <= k < entries.len() && wanted(#[trigger] entries[k]) ==> k == 0,
    ensures
        count_entries(entries, wanted) <= 1,
    decreases entries.len(),
{
    if entries.len() >= 2 {
        let rest = entries.drop_last();
        assert forall|k: int| 0 <= k < rest.len() && wanted(#[trigger] rest[k]) implies k == 0 by {
            assert(rest[k] == entries[k]);
        }
        lemma_count_first_only(rest, wanted);
        assert(!wanted(entries[entries.len() - 1]));
    } else {
        lemma_count_short(entries, wanted);
    }
}

/// The body of a contribution holds no header.
pub proof fn lemma_body_has_no_header(progress: Progress, commit: CommitView, lookup: LookupView)
    ensures
        forall|k: int|
            0 <= k < body_entries(progress, commit, lookup).len() ==> !is_header(
                #[trigger] body_entries(progress, commit, lookup)[k],
            ),
        body_entries(progress, commit, lookup).len() <= 1,
{
}

/// The header of what is not released stands first, if it stands at all: a
/// changelog starts with the header that its first commit opens, and every
/// header after the first is that of a tag. So there is at most one such
/// header.
pub proof fn lemma_unreleased_header_first(
    settings: Settings,
    commits: Seq<CommitView>,
    lookups: Seq<LookupView>,
    n: nat,
)
    requires
        assembled(settings, commits, lookups, n) is Ok,
    ensures
        ({
            let progress = assembled(settings, commits, lookups, n)->Ok_0;
            &&& n == 0 ==> progress == initial_progress()
            &&& n > 0 ==> progress.section_started && progress.entries.len() > 0
                && progress.entries[0] == (EntryView::Section {
                tag: section_tag(settings, commits[0]),
                date: date_text(commits[0].time).unwrap(),
            })
            &&& forall|k: int|
                0 <= k < progress.entries.len() && is_unreleased_header(
                    #[trigger] progress.entries[k],
                ) ==> k == 0
            &&& count_entries(progress.entries, |e: EntryView| is_unreleased_header(e)) <= 1
        }),
    decreases n,
{
    let progress = assembled(settings, commits, lookups, n)->Ok_0;
    if n > 0 {
        lemma_assembled_unfold(settings, commits, lookups, n);
        lemma_unreleased_header_first(settings, commits, lookups, (n - 1) as nat);
        let before = assembled(settings, commits, lookups, (n - 1) as nat)->Ok_0;
        let commit = commits[n - 1];
        let lookup = lookup_at(lookups, n - 1);
        let header = section_entries(settings, before, commit);
        let body = body_entries(before, commit, lookup);
        lemma_body_has_no_header(before, commit, lookup);
        assert(progress.entries == before.entries + (header + body));
        assert forall|k: int|
            0 <= k < progress.entries.len() && is_unreleased_header(
                #[trigger] progress.entries[k],
            ) implies k == 0 by {
            if k < before.entries.len() {
                assert(progress.entries[k] == before.entries[k]);
            } else if k < before.entries.len() + header.len() {
                assert(progress.entries[k] == header[k - before.entries.len()]);
            } else {
                assert(progress.entries[k] == body[k - before.entries.len() - header.len()]);
            }
        }
        if n == 1 {
            assert(progress.entries[0] == header[0]);
        } else {
            assert(progress.entries[0] == before.entries[0]);
        }
    }
    lemma_count_first_only(progress.entries, |e: EntryView| is_unreleased_header(e));
}

/// No header follows the header of what is not released, so that it is the
/// last header of the changelog, in every walk but those that start with an
/// untagged commit and hold a tagged one.
pub proof fn lemma_unreleased_header_last(
    settings: Settings,
    commits: Seq<CommitView>,
    lookups: Seq<LookupView>,
    n: nat,
)
    requires
        assembled(settings, commits, lookups, n) is Ok,
        n > 0 && !settings.tags.contains_key(commits[0].id) ==> forall|i: int|
            0 <= i < n ==> !settings.tags.contains_key(#[trigger] commits[i].id),
    ensures
        ({
            let entries = assembled(settings, commits, lookups, n)->Ok_0.entries;
            forall|k: int, m: int|
                0 <= k < m < entries.len() && is_unreleased_header(#[trigger] entries[k])
                    ==> !is_header(#[trigger] entries[m])
        }),
{
    let entries = assembled(settings, commits, lookups, n)->Ok_0.entries;
    lemma_unreleased_header_first(settings, commits, lookups, n);
    if n > 0 && !settings.tags.contains_key(commits[0].id) {
        lemma_untagged_walk_has_one_header(settings, commits, lookups, n);
    }
}

/// The changelog of a walk without tagged commits holds no header but the
/// first entry.
pub proof fn lemma_untagged_walk_has_one_header(
    settings: Settings,
    commits: Seq<CommitView>,
    lookups: Seq<LookupView>,
    n: nat,
)
    requires
        assembled(settings, commits, lookups, n) is Ok,
        forall|i: int| 0 <= i < n ==> !settings.tags.contains_key(#[trigger] commits[i].id),
    ensures
        ({
            let entries = assembled(settings, commits, lookups, n)->Ok_0.entries;
            forall|k: int| 0 < k < entries.len() ==> !is_header(#[trigger] entries[k])
        }),
    decreases n,
{
    let progress = assembled(settings, commits, lookups, n)->Ok_0;
    if n > 0 {
        lemma_assembled_unfold(settings, commits, lookups, n);
        lemma_untagged_walk_has_one_header(settings, commits, lookups, (n - 1) as nat);
        lemma_unreleased_header_first(settings, commits, lookups, (n - 1) as nat);
        let before = assembled(settings, commits, lookups, (n - 1) as nat)->Ok_0;
        let commit = commits[n - 1];
        let lookup = lookup_at(lookups, n - 1);
        let header = section_entries(settings, before, commit);
        let body = body_entries(before, commit, lookup);
        lemma_body_has_no_header(before, commit, lookup);
        assert(progress.entries == before.entries + (header + body));
        assert forall|k: int| 0 < k < progress.entries.len() implies !is_header(
            #[trigger] progress.entries[k],
        ) by {
            if k < before.entries.len() {
                assert(progress.entries[k] == before.entries[k]);
            } else if k < before.entries.len() + header.len() {
                assert(progress.entries[k] == header[k - before.entries.len()]);
            } else {
                assert(progress.entries[k] == body[k - before.entries.len() - header.len()]);
            }
        }
    }
}

/// The progress before commit `i` of the walk.
pub open spec fn progress_before(
    settings: Settings,
    commits: Seq<CommitView>,
    lookups: Seq<LookupView>,
    i: int,
) -> Progress {
    assembled(settings, commits, lookups, i as nat)->Ok_0
}

/// Whether commit `i` of the walk bears a tag.
pub open spec fn tagged_at(settings: Settings, commits: Seq<CommitView>, i: int) -> bool {
    settings.tags.contains_key(commits[i].id)
}

/// Whether commit `i` of the walk is a merge commit with a pull request.
pub open spec fn resolved_at(commits: Seq<CommitView>, lookups: Seq<LookupView>, i: int) -> bool {
    is_resolved_merge(commits[i], lookup_at(lookups, i))
}

/// Whether commit `i` of the walk is a merge commit without a pull request.
pub open spec fn unresolved_at(commits: Seq<CommitView>, lookups: Seq<LookupView>, i: int) -> bool {
    is_merge(commits[i]) && !resolved_at(commits, lookups, i)
}

/// Whether the walk passes over commit `i`, as one shown under a pull
/// request.
pub open spec fn suppressed_at(
    settings: Settings,
    commits: Seq<CommitView>,
    lookups: Seq<LookupView>,
    i: int,
) -> bool {
    is_suppressed(progress_before(settings, commits, lookups, i), commits[i])
}

/// Whether commit `i` of the walk gets a line of its own: it is no merge
/// commit and was not shown under a pull request.
pub open spec fn plain_at(
    settings: Settings,
    commits: Seq<CommitView>,
    lookups: Seq<LookupView>,
    i: int,
) -> bool {
    !is_merge(commits[i]) && !suppressed_at(settings, commits, lookups, i)
}

/// How many of the positions below `n` meet `wanted`.
pub open spec fn count_positions(n: nat, wanted: spec_fn(int) -> bool) -> nat
    decreases n,
{
    if n == 0 {
        0
    } else {
        count_positions((n - 1) as nat, wanted) + (if wanted(n - 1) {
            1nat
        } else {
            0nat
        })
    }
}

/// The line that commit `i` of the walk gets where it stands by itself.
pub open spec fn line_at(
    settings: Settings,
    commits: Seq<CommitView>,
    lookups: Seq<LookupView>,
    i: int,
) -> CommitLineView {
    walked_line(
        commits[i],
        shown_author(
            progress_before(settings, commits, lookups, i),
            commits[i],
            lookup_at(lookups, i).author,
        ),
    )
}

/// The lines of those of the first `n` commits of the walk that get a line
/// of their own, in walk order.
pub open spec fn walk_plain_lines(
    settings: Settings,
    commits: Seq<CommitView>,
    lookups: Seq<LookupView>,
    n: nat,
) -> Seq<CommitLineView>
    decreases n,
{
    if n == 0 {
        Seq::empty()
    } else {
        let before = walk_plain_lines(settings, commits, lookups, (n - 1) as nat);
        if plain_at(settings, commits, lookups, n - 1) {
            before.push(line_at(settings, commits, lookups, n - 1))
        } else {
            before
        }
    }
}

/// The commits that are no merge commits and were not shown under a pull
/// request stand in the changelog each on a line of its own, once, in walk
/// order, each with the summary of its message; and no other commit stands
/// on such a line.
pub proof fn lemma_plain_commits_follow_walk(
    settings: Settings,
    commits: Seq<CommitView>,
    lookups: Seq<LookupView>,
    n: nat,
)
    requires
        assembled(settings, commits, lookups, n) is Ok,
    ensures
        plain_lines(assembled(settings, commits, lookups, n)->Ok_0.entries) == walk_plain_lines(
            settings,
            commits,
            lookups,
            n,
        ),
    decreases n,
{
    if n > 0 {
        lemma_assembled_unfold(settings, commits, lookups, n);
        lemma_plain_commits_follow_walk(settings, commits, lookups, (n - 1) as nat);
        let before = assembled(settings, commits, lookups, (n - 1) as nat)->Ok_0;
        let commit = commits[n - 1];
        let lookup = lookup_at(lookups, n - 1);
        let header = section_entries(settings, before, commit);
        let body = body_entries(before, commit, lookup);
        lemma_plain_lines_concat(before.entries, header + body);
        lemma_plain_lines_concat(header, body);
        lemma_plain_lines_short(header);
        lemma_plain_lines_short(body);
        assert(plain_lines(header) =~= Seq::<CommitLineView>::empty());
        assert(plain_lines(header) + plain_lines(body) =~= plain_lines(body));
        if plain_at(settings, commits, lookups, n - 1) {
            assert(plain_lines(before.entries) + plain_lines(body) =~= plain_lines(
                before.entries,
            ).push(line_at(settings, commits, lookups, n - 1)));
        } else {
            assert(plain_lines(before.entries) + plain_lines(body) =~= plain_lines(before.entries));
        }
    }
}

/// The plain lines among no entry, and among one.
pub proof fn lemma_plain_lines_short(entries: Seq<EntryView>)
    requires
        entries.len() <= 1,
    ensures
        entries.len() == 0 ==> plain_lines(entries) == Seq::<CommitLineView>::empty(),
        entries.len() == 1 ==> plain_lines(entries) == (match entries[0] {
            EntryView::Commit(line) => seq![line],
            _ => Seq::<CommitLineView>::empty(),
        }),
{
    if entries.len() == 1 {
        assert(entries.drop_last().len() == 0);
        assert(plain_lines(entries.drop_last()) =~= Seq::<CommitLineView>::empty());
        match entries[0] {
            EntryView::Commit(line) => {
                assert(plain_lines(entries) =~= seq![line]);
            },
            _ => {},
        }
    }
}

/// The entries of a changelog, counted by kind. There is one header for
/// each tagged commit, and one more where the first commit bears no tag; one
/// pull request for each merge commit that resolves to one; one marked line
/// for each merge commit that does not; and one plain line for each commit
/// that is neither a merge commit nor passed over. Nothing else is written.
pub proof fn lemma_entry_counts(
    settings: Settings,
    commits: Seq<CommitView>,
    lookups: Seq<LookupView>,
    n: nat,
)
    requires
        assembled(settings, commits, lookups, n) is Ok,
    ensures
        ({
            let entries = assembled(settings, commits, lookups, n)->Ok_0.entries;
            &&& count_entries(entries, |e: EntryView| is_header(e)) == count_positions(
                n,
                |i: int| tagged_at(settings, commits, i),
            ) + (if n > 0 && !tagged_at(settings, commits, 0) {
                1nat
            } else {
                0nat
            })
            &&& count_entries(entries, |e: EntryView| is_block(e)) == count_positions(
                n,
                |i: int| resolved_at(commits, lookups, i),
            )
            &&& count_entries(entries, |e: EntryView| is_unattributed(e)) == count_positions(
                n,
                |i: int| unresolved_at(commits, lookups, i),
            )
            &&& count_entries(entries, |e: EntryView| is_plain(e)) == count_positions(
                n,
                |i: int| plain_at(settings, commits, lookups, i),
            )
            &&& entries.len() == count_entries(entries, |e: EntryView| is_header(e))
                + count_entries(entries, |e: EntryView| is_block(e)) + count_entries(
                entries,
                |e: EntryView| is_unattributed(e),
            ) + count_entries(entries, |e: EntryView| is_plain(e))
        }),
    decreases n,
{
    if n > 0 {
        lemma_assembled_unfold(settings, commits, lookups, n);
        lemma_entry_counts(settings, commits, lookups, (n - 1) as nat);
        lemma_unreleased_header_first(settings, commits, lookups, (n - 1) as nat);
        let before = assembled(settings, commits, lookups, (n - 1) as nat)->Ok_0;
        let commit = commits[n - 1];
        let lookup = lookup_at(lookups, n - 1);
        let header = section_entries(settings, before, commit);
        let body = body_entries(before, commit, lookup);
        let header_wanted = |e: EntryView| is_header(e);
        let block_wanted = |e: EntryView| is_block(e);
        let unattributed_wanted = |e: EntryView| is_unattributed(e);
        let plain_wanted = |e: EntryView| is_plain(e);
        lemma_count_concat(before.entries, header + body, header_wanted);
        lemma_count_concat(before.entries, header + body, block_wanted);
        lemma_count_concat(before.entries, header + body, unattributed_wanted);
        lemma_count_concat(before.entries, header + body, plain_wanted);
        lemma_count_concat(header, body, header_wanted);
        lemma_count_concat(header, body, block_wanted);
        lemma_count_concat(header, body, unattributed_wanted);
        lemma_count_concat(header, body, plain_wanted);
        lemma_count_short(header, header_wanted);
        lemma_count_short(header, block_wanted);
        lemma_count_short(header, unattributed_wanted);
        lemma_count_short(header, plain_wanted);
        lemma_count_short(body, header_wanted);
        lemma_count_short(body, block_wanted);
        lemma_count_short(body, unattributed_wanted);
        lemma_count_short(body, plain_wanted);
    }
}

/// The identifiers that commit `j` of the walk marks as shown: those of the
/// commits of its pull request, newest first.
pub open spec fn shown_ids_at(lookups: Seq<LookupView>, j: int) -> Seq<Seq<char>> {
    nested_ids(listed_commits(lookup_at(lookups, j).pull_request_commits))
}

/// Whether commit `j` of the walk is a merge commit whose pull request
/// lists the commit `id`.
pub open spec fn shown_by(
    commits: Seq<CommitView>,
    lookups: Seq<LookupView>,
    j: int,
    id: Seq<char>,
) -> bool {
    resolved_at(commits, lookups, j) && shown_ids_at(lookups, j).contains(id)
}

/// A text is in a concatenation exactly if it is in one of the parts.
pub proof fn lemma_contains_concat(left: Seq<Seq<char>>, right: Seq<Seq<char>>, id: Seq<char>)
    ensures
        (left + right).contains(id) <==> left.contains(id) || right.contains(id),
{
    if left.contains(id) {
        let k = choose|k: int| 0 <= k < left.len() && left[k] == id;
        assert((left + right)[k] == id);
    }
    if right.contains(id) {
        let k = choose|k: int| 0 <= k < right.len() && right[k] == id;
        assert((left + right)[left.len() + k] == id);
    }
    if (left + right).contains(id) {
        let k = choose|k: int| 0 <= k < (left + right).len() && (left + right)[k] == id;
        if k < left.len() {
            assert(left[k] == id);
        } else {
            assert(right[k - left.len()] == id);
        }
    }
}

/// In an assembly that is not strict, the identifiers to pass over are
/// those that the pull request of an earlier merge commit lists.
pub proof fn lemma_skip_lenient(
    settings: Settings,
    commits: Seq<CommitView>,
    lookups: Seq<LookupView>,
    n: nat,
    id: Seq<char>,
)
    requires
        !settings.strict,
        assembled(settings, commits, lookups, n) is Ok,
    ensures
        progress_before(settings, commits, lookups, n as int).skip.contains(id) <==> exists|j: int|
            0 <= j < n && shown_by(commits, lookups, j, id),
    decreases n,
{
    if n > 0 {
        lemma_assembled_unfold(settings, commits, lookups, n);
        lemma_skip_lenient(settings, commits, lookups, (n - 1) as nat, id);
        let before = progress_before(settings, commits, lookups, n - 1);
        let after = progress_before(settings, commits, lookups, n as int);
        lemma_contains_concat(before.skip, shown_ids_at(lookups, n - 1), id);
        if after.skip.contains(id) {
            if before.skip.contains(id) {
                let j = choose|j: int| 0 <= j < n - 1 && shown_by(commits, lookups, j, id);
                assert(shown_by(commits, lookups, j, id));
            } else {
                assert(shown_by(commits, lookups, n - 1, id));
            }
        }
        if exists|j: int| 0 <= j < n && shown_by(commits, lookups, j, id) {
            let j = choose|j: int| 0 <= j < n && shown_by(commits, lookups, j, id);
            if j < n - 1 {
                assert(before.skip.contains(id));
            }
        }
    } else {
        assert(!Seq::<Seq<char>>::empty().contains(id));
    }
}

/// An identifier that the pull request of a merge commit lists stays among
/// those to pass over from that commit on, until a commit with that
/// identifier, which is no merge commit, surfaces in the walk.
pub proof fn lemma_shown_until_surfaced(
    settings: Settings,
    commits: Seq<CommitView>,
    lookups: Seq<LookupView>,
    n: nat,
    j: int,
    id: Seq<char>,
)
    requires
        assembled(settings, commits, lookups, n) is Ok,
        0 <= j < n,
        shown_by(commits, lookups, j, id),
    ensures
        progress_before(settings, commits, lookups, n as int).skip.contains(id) || exists|k: int|
            j < k < n && commits[k].id == id && !is_merge(commits[k]),
    decreases n,
{
    lemma_assembled_unfold(settings, commits, lookups, n);
    let before = progress_before(settings, commits, lookups, n - 1);
    let after = progress_before(settings, commits, lookups, n as int);
    let commit = commits[n - 1];
    if j == n - 1 {
        lemma_contains_concat(before.skip, shown_ids_at(lookups, j), id);
    } else {
        lemma_shown_until_surfaced(settings, commits, lookups, (n - 1) as nat, j, id);
        if exists|k: int| j < k < n - 1 && commits[k].id == id && !is_merge(commits[k]) {
            let k = choose|k: int| j < k < n - 1 && commits[k].id == id && !is_merge(commits[k]);
            assert(j < k < n && commits[k].id == id && !is_merge(commits[k]));
        } else {
            assert(before.skip.contains(id));
            if resolved_at(commits, lookups, n - 1) {
                lemma_contains_concat(before.skip, shown_ids_at(lookups, n - 1), id);
            } else if settings.strict && is_suppressed(before, commit) {
                if commit.id == id {
                    assert(j < n - 1 < n && commits[n - 1].id == id && !is_merge(commits[n - 1]));
                } else {
                    let m = choose|m: int| 0 <= m < before.skip.len() && before.skip[m] == id;
                    assert(before.skip[0] == commit.id);
                    assert(before.skip.drop_first()[m - 1] == id);
                }
            }
        }
    }
}

/// The commits that a pull request lists are absent from the lines that
/// stand by themselves: a commit with such an identifier, which is no merge
/// commit and surfaces in the walk after the merge commit of the pull
/// request, contributes nothing after its header. In a strict assembly this
/// is said of the first commit with that identifier after the merge commit.
pub proof fn lemma_shown_commits_passed_over(
    settings: Settings,
    commits: Seq<CommitView>,
    lookups: Seq<LookupView>,
    n: nat,
    j: int,
    i: int,
)
    requires
        assembled(settings, commits, lookups, n) is Ok,
        0 <= j < i < n,
        shown_by(commits, lookups, j, commits[i].id),
        !is_merge(commits[i]),
        settings.strict ==> forall|k: int| j < k < i ==> commits[k].id != commits[i].id,
    ensures
        suppressed_at(settings, commits, lookups, i),
        !plain_at(settings, commits, lookups, i),
        body_entries(
            progress_before(settings, commits, lookups, i),
            commits[i],
            lookup_at(lookups, i),
        ) == Seq::<EntryView>::empty(),
{
    lemma_assembled_prefix(settings, commits, lookups, n, i as nat);
    if settings.strict {
        lemma_shown_until_surfaced(settings, commits, lookups, i as nat, j, commits[i].id);
    } else {
        lemma_skip_lenient(settings, commits, lookups, i as nat, commits[i].id);
    }
}

/// A commit on a line of its own whose author was resolved shows the login
/// behind an `@`, and a link to the commit; one whose author was not
/// resolved shows its summary and nothing else.
pub proof fn lemma_author_decoration(line: CommitLineView, repo_name: Seq<char>)
    ensures
        line.author is None ==> entry_text(EntryView::Commit(line), repo_name) == "- "@
            + line.summary + "\n"@,
        line.author matches Some(author) ==> entry_text(EntryView::Commit(line), repo_name) == "- "@
            + line.summary + " @"@ + author.login + " ["@ + short_id_text(line.id) + "]("@
            + author.html_url + "/"@ + repo_name + "/commit/"@ + line.id + ")\n"@,
{
    reveal_strlit(")");
    reveal_strlit("\n");
    reveal_strlit(")\n");
    assert(")"@ + "\n"@ =~= ")\n"@);
    match line.author {
        Some(author) => {
            assert(entry_text(EntryView::Commit(line), repo_name) =~= "- "@ + line.summary + " @"@
                + author.login + " ["@ + short_id_text(line.id) + "]("@ + author.html_url + "/"@
                + repo_name + "/commit/"@ + line.id + (")"@ + "\n"@));
        },
        None => {},
    }
}

/// The text of a concatenation of entries is the texts of the parts, one
/// after the other.
pub proof fn lemma_changelog_text_concat(
    left: Seq<EntryView>,
    right: Seq<EntryView>,
    repo_name: Seq<char>,
)
    ensures
        changelog_text(left + right, repo_name) == changelog_text(left, repo_name)
            + changelog_text(right, repo_name),
    decreases right.len(),
{
    if right.len() == 0 {
        assert(left + right =~= left);
        assert(changelog_text(left, repo_name) + changelog_text(right, repo_name)
            =~= changelog_text(left, repo_name));
    } else {
        assert((left + right).drop_last() =~= left + right.drop_last());
        assert((left + right).last() == right.last());
        lemma_changelog_text_concat(left, right.drop_last(), repo_name);
        assert(changelog_text(left + right, repo_name) =~= changelog_text(left, repo_name)
            + changelog_text(right, repo_name));
    }
}

/// The changelog only grows: each commit of the walk adds the text of what
/// it contributes behind the text of the commits before it, and changes
/// nothing of that.
pub proof fn lemma_text_accumulates(
    settings: Settings,
    commits: Seq<CommitView>,
    lookups: Seq<LookupView>,
    n: nat,
    repo_name: Seq<char>,
)
    requires
        n > 0,
        assembled(settings, commits, lookups, n) is Ok,
    ensures
        changelog_text(assembled(settings, commits, lookups, n)->Ok_0.entries, repo_name)
            == changelog_text(
            progress_before(settings, commits, lookups, n - 1).entries,
            repo_name,
        ) + changelog_text(
            contribution(
                settings,
                progress_before(settings, commits, lookups, n - 1),
                commits[n - 1],
                lookup_at(lookups, n - 1),
            ),
            repo_name,
        ),
{
    lemma_assembled_unfold(settings, commits, lookups, n);
    lemma_changelog_text_concat(
        progress_before(settings, commits, lookups, n - 1).entries,
        contribution(
            settings,
            progress_before(settings, commits, lookups, n - 1),
            commits[n - 1],
            lookup_at(lookups, n - 1),
        ),
        repo_name,
    );
}

} // verus!
