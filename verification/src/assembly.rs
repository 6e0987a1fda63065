//! What the assembler does with one commit, and with a whole walk, stated
//! over views.

use crate::date::date_text;
use crate::model::{
    Attribution, CommitUsernameHtmlUrl, CommitView, PullRequest, PullRequestCommit,
    PullRequestCommitView, PullRequestView,
};
use crate::render::{CommitLineView, EntryView, PullRequestBlockView};
use crate::text::{description_text, signed_decimal, signed_decimal_text};
use vstd::prelude::*;

verus! {

/// Why an assembly stopped.
#[derive(Debug, PartialEq, Eq)]
pub enum AssemblyError {
    /// A commit of a pull request surfaced in the walk before the one that
    /// the hosting service listed ahead of it.
    OutOfOrder { expected: String, actual: String },
    /// The time of a commit that opens a section has no calendar date.
    InvalidTimestamp { id: String, seconds: i64 },
    /// The assembler was handed an event that it had not asked for.
    UnexpectedEvent,
}

/// View of an [`AssemblyError`].
pub enum AssemblyErrorView {
    OutOfOrder { expected: Seq<char>, actual: Seq<char> },
    InvalidTimestamp { id: Seq<char>, seconds: int },
    UnexpectedEvent,
}

impl View for AssemblyError {
    type V = AssemblyErrorView;

    open spec fn view(&self) -> AssemblyErrorView {
        match self {
            AssemblyError::OutOfOrder { expected, actual } => AssemblyErrorView::OutOfOrder {
                expected: expected@,
                actual: actual@,
            },
            AssemblyError::InvalidTimestamp { id, seconds } => AssemblyErrorView::InvalidTimestamp {
                id: id@,
                seconds: *seconds as int,
            },
            AssemblyError::UnexpectedEvent => AssemblyErrorView::UnexpectedEvent,
        }
    }
}

/// What an error says to the user: it names the commits that it is about.
pub open spec fn error_text(error: AssemblyErrorView) -> Seq<char> {
    match error {
        AssemblyErrorView::OutOfOrder { expected, actual } => "commit "@ + actual
            + " surfaced in the history where commit "@ + expected
            + " of the same pull request was expected"@,
        AssemblyErrorView::InvalidTimestamp { id, seconds } => "commit "@ + id
            + " has a time without a calendar date: "@ + signed_decimal_text(seconds),
        AssemblyErrorView::UnexpectedEvent => "the assembler was handed an event that it had not asked for"@,
    }
}

impl AssemblyError {
    /// Describes the error for the user.
    pub fn describe(&self) -> (text: String)
        ensures
            text@ == error_text(self@),
    {
        match self {
            AssemblyError::OutOfOrder { expected, actual } => {
                let mut text = String::from_str("commit ");
                text.append(actual.as_str());
                text.append(" surfaced in the history where commit ");
                text.append(expected.as_str());
                text.append(" of the same pull request was expected");
                text
            },
            AssemblyError::InvalidTimestamp { id, seconds } => {
                let mut text = String::from_str("commit ");
                text.append(id.as_str());
                text.append(" has a time without a calendar date: ");
                text.append(signed_decimal(*seconds).as_str());
                text
            },
            AssemblyError::UnexpectedEvent => String::from_str(
                "the assembler was handed an event that it had not asked for",
            ),
        }
    }
}

/// What the hosting service answers about one commit. A lookup that failed
/// is `None`.
#[derive(Debug, PartialEq, Eq)]
pub struct Lookup {
    /// The pull requests that have the commit as their merge commit.
    pub pull_requests: Option<Vec<PullRequest>>,
    /// The commits of the first of them, oldest first.
    pub pull_request_commits: Option<Vec<PullRequestCommit>>,
    /// The account behind the commit.
    pub author: Option<CommitUsernameHtmlUrl>,
}

/// View of a [`Lookup`].
pub struct LookupView {
    pub pull_requests: Option<Seq<PullRequestView>>,
    pub pull_request_commits: Option<Seq<PullRequestCommitView>>,
    pub author: Option<Attribution>,
}

impl View for Lookup {
    type V = LookupView;

    open spec fn view(&self) -> LookupView {
        LookupView {
            pull_requests: self.pull_requests.deep_view(),
            pull_request_commits: self.pull_request_commits.deep_view(),
            author: self.author.deep_view(),
        }
    }
}

impl DeepView for Lookup {
    type V = LookupView;

    open spec fn deep_view(&self) -> LookupView {
        self@
    }
}

/// The answer of a service that knows nothing.
pub open spec fn no_lookup() -> LookupView {
    LookupView { pull_requests: None, pull_request_commits: None, author: None }
}

/// What does not change during an assembly.
pub struct Settings {
    /// Tag names by commit identifier.
    pub tags: Map<Seq<char>, Seq<char>>,
    /// Whether the commits of a pull request must surface in the walk in the
    /// order in which the pull request lists them.
    pub strict: bool,
}

/// What an assembly has reached between two commits.
pub struct Progress {
    /// Whether a section header has been written.
    pub section_started: bool,
    /// Identifiers already shown under a pull request and still to be passed
    /// over in the walk, in the order in which they were shown.
    pub skip: Seq<Seq<char>>,
    /// Authors resolved so far, by commit email.
    pub cache: Map<Seq<char>, Attribution>,
    /// The entries written so far.
    pub entries: Seq<EntryView>,
}

/// Where every assembly starts.
pub open spec fn initial_progress() -> Progress {
    Progress {
        section_started: false,
        skip: Seq::empty(),
        cache: Map::empty(),
        entries: Seq::empty(),
    }
}

/// A merge commit has two parents or more.
pub open spec fn is_merge(commit: CommitView) -> bool {
    commit.parent_ids.len() > 1
}

/// The summary of a commit: that of its message, or of a fixed text where the
/// message is not readable.
pub open spec fn summary_text(message: Option<Seq<char>>) -> Seq<char> {
    description_text(
        match message {
            Some(text) => text,
            None => "No commit message"@,
        },
    )
}

/// Whether the commit opens a section: a tagged commit always does, an
/// untagged one only as long as no section has been opened.
pub open spec fn opens_section(settings: Settings, progress: Progress, commit: CommitView) -> bool {
    settings.tags.contains_key(commit.id) || !progress.section_started
}

/// The tag of the section that the commit opens, if it opens one by a tag.
pub open spec fn section_tag(settings: Settings, commit: CommitView) -> Option<Seq<char>> {
    if settings.tags.contains_key(commit.id) {
        Some(settings.tags[commit.id])
    } else {
        None
    }
}

/// The header that the commit contributes: none, or that of the section it
/// opens, dated by the commit's time.
pub open spec fn section_entries(
    settings: Settings,
    progress: Progress,
    commit: CommitView,
) -> Seq<EntryView> {
    if opens_section(settings, progress, commit) {
        seq![
            EntryView::Section {
                tag: section_tag(settings, commit),
                date: date_text(commit.time).unwrap(),
            },
        ]
    } else {
        Seq::empty()
    }
}

/// Whether the walk passes over the commit: it is no merge commit, and was
/// shown under a pull request.
pub open spec fn is_suppressed(progress: Progress, commit: CommitView) -> bool {
    !is_merge(commit) && progress.skip.contains(commit.id)
}

/// Why the commit stops the assembly, if it does: it opens a section and its
/// time has no date; or, in a strict assembly, it was shown under a pull
/// request but is not the next that the walk was to reach.
pub open spec fn commit_fault(
    settings: Settings,
    progress: Progress,
    commit: CommitView,
) -> Option<AssemblyErrorView> {
    if opens_section(settings, progress, commit) && date_text(commit.time) is None {
        Some(AssemblyErrorView::InvalidTimestamp { id: commit.id, seconds: commit.time })
    } else if settings.strict && is_suppressed(progress, commit) && progress.skip[0] != commit.id {
        Some(AssemblyErrorView::OutOfOrder { expected: progress.skip[0], actual: commit.id })
    } else {
        None
    }
}

/// The pull request of a merge commit: the first that the service reports,
/// none where it reports none or the lookup failed.
pub open spec fn first_pull_request(found: Option<Seq<PullRequestView>>) -> Option<
    PullRequestView,
> {
    match found {
        Some(candidates) => if candidates.len() > 0 {
            Some(candidates[0])
        } else {
            None
        },
        None => None,
    }
}

/// The commits of a pull request, newest first; none where the lookup failed.
pub open spec fn listed_commits(found: Option<Seq<PullRequestCommitView>>) -> Seq<
    PullRequestCommitView,
> {
    match found {
        Some(commits) => commits.reverse(),
        None => Seq::empty(),
    }
}

/// The line of a commit as its pull request lists it.
pub open spec fn nested_line(commit: PullRequestCommitView) -> CommitLineView {
    CommitLineView {
        id: commit.sha,
        summary: description_text(commit.message),
        author: commit.author,
    }
}

/// The lines of a pull request's commits, in the given order.
pub open spec fn nested_lines(commits: Seq<PullRequestCommitView>) -> Seq<CommitLineView> {
    commits.map_values(|commit: PullRequestCommitView| nested_line(commit))
}

/// The identifiers of a pull request's commits, in the given order.
pub open spec fn nested_ids(commits: Seq<PullRequestCommitView>) -> Seq<Seq<char>> {
    commits.map_values(|commit: PullRequestCommitView| commit.sha)
}

/// Whether the author of the commit is known from an earlier one with the
/// same email.
pub open spec fn author_cached(progress: Progress, commit: CommitView) -> bool {
    commit.author_email matches Some(email) && progress.cache.contains_key(email)
}

/// The author shown for a commit: the one remembered for its email, else the
/// service's answer.
pub open spec fn shown_author(
    progress: Progress,
    commit: CommitView,
    answer: Option<Attribution>,
) -> Option<Attribution> {
    if author_cached(progress, commit) {
        Some(progress.cache[commit.author_email->0])
    } else {
        answer
    }
}

/// The cache after the service answered for a commit whose author was not
/// cached: an author that was found is remembered under the commit's email.
pub open spec fn cache_after_answer(
    cache: Map<Seq<char>, Attribution>,
    commit: CommitView,
    answer: Option<Attribution>,
) -> Map<Seq<char>, Attribution> {
    match (commit.author_email, answer) {
        (Some(email), Some(author)) => cache.insert(email, author),
        _ => cache,
    }
}

/// The line of a walked commit, with the given author.
pub open spec fn walked_line(commit: CommitView, author: Option<Attribution>) -> CommitLineView {
    CommitLineView { id: commit.id, summary: summary_text(commit.message), author }
}

/// Whether the commit is a merge commit that a pull request accounts for.
pub open spec fn is_resolved_merge(commit: CommitView, lookup: LookupView) -> bool {
    is_merge(commit) && first_pull_request(lookup.pull_requests) is Some
}

/// Whether the commit's line needs its author: it is a merge commit without
/// a pull request, or a commit that the walk does not pass over.
pub open spec fn wants_author(progress: Progress, commit: CommitView, lookup: LookupView) -> bool {
    if is_merge(commit) {
        first_pull_request(lookup.pull_requests) is None
    } else {
        !progress.skip.contains(commit.id)
    }
}

/// What the commit contributes after a header, if any. A merge commit with a
/// pull request: the pull request with its commits, newest first. A merge
/// commit without: a marked line. A commit that was shown under a pull
/// request: nothing. Any other commit: its line.
pub open spec fn body_entries(
    progress: Progress,
    commit: CommitView,
    lookup: LookupView,
) -> Seq<EntryView> {
    if is_merge(commit) {
        match first_pull_request(lookup.pull_requests) {
            Some(pull_request) => seq![
                EntryView::PullRequest(
                    PullRequestBlockView {
                        pull_request,
                        commits: nested_lines(listed_commits(lookup.pull_request_commits)),
                    },
                ),
            ],
            None => seq![
                EntryView::UnattributedMerge(
                    walked_line(commit, shown_author(progress, commit, lookup.author)),
                ),
            ],
        }
    } else if progress.skip.contains(commit.id) {
        Seq::empty()
    } else {
        seq![EntryView::Commit(walked_line(commit, shown_author(progress, commit, lookup.author)))]
    }
}

/// The identifiers to pass over after the commit. A merge commit with a pull
/// request adds those of the pull request's commits, newest first. In a
/// strict assembly a commit that is passed over leaves the front.
pub open spec fn skip_after(
    settings: Settings,
    progress: Progress,
    commit: CommitView,
    lookup: LookupView,
) -> Seq<Seq<char>> {
    if is_resolved_merge(commit, lookup) {
        progress.skip + nested_ids(listed_commits(lookup.pull_request_commits))
    } else if settings.strict && is_suppressed(progress, commit) {
        progress.skip.drop_first()
    } else {
        progress.skip
    }
}

/// The cache after the commit.
pub open spec fn cache_after(
    progress: Progress,
    commit: CommitView,
    lookup: LookupView,
) -> Map<Seq<char>, Attribution> {
    if wants_author(progress, commit, lookup) && !author_cached(progress, commit) {
        cache_after_answer(progress.cache, commit, lookup.author)
    } else {
        progress.cache
    }
}

/// What the commit contributes to the changelog.
pub open spec fn contribution(
    settings: Settings,
    progress: Progress,
    commit: CommitView,
    lookup: LookupView,
) -> Seq<EntryView> {
    section_entries(settings, progress, commit) + body_entries(progress, commit, lookup)
}

/// The progress after a commit that does not stop the assembly.
pub open spec fn absorb(
    settings: Settings,
    progress: Progress,
    commit: CommitView,
    lookup: LookupView,
) -> Progress {
    Progress {
        section_started: true,
        skip: skip_after(settings, progress, commit, lookup),
        cache: cache_after(progress, commit, lookup),
        entries: progress.entries + contribution(settings, progress, commit, lookup),
    }
}

} // verus!
