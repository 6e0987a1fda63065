//! The assembler as a machine that is fed one event at a time and answers
//! with what it needs next.

use crate::assembly::{
    AssemblyError, AssemblyErrorView, Progress, Settings, author_cached, cache_after_answer,
    commit_fault, first_pull_request, initial_progress, is_merge, listed_commits, nested_ids,
    nested_line, nested_lines, section_entries, walked_line,
};
use crate::model::{
    Attribution, Commit, CommitUsernameHtmlUrl, CommitView, PullRequest, PullRequestCommit,
    PullRequestCommitView, PullRequestView, copy_optional_attribution,
};
use crate::date::format_date;
use crate::keyed::TextMap;
use crate::render::{CommitLine, Entry, EntryView, PullRequestBlock, PullRequestBlockView};
use crate::repository::TagIndex;
use crate::text::description;
use vstd::prelude::*;

verus! {

/// What the assembler is handed.
#[derive(Debug, PartialEq, Eq)]
pub enum Event {
    /// The next commit of the walk.
    Commit(Commit),
    /// The pull requests that have the current commit as their merge commit;
    /// `None` where the lookup failed.
    PullRequests(Option<Vec<PullRequest>>),
    /// The commits of the current pull request, oldest first; `None` where
    /// the lookup failed.
    PullRequestCommits(Option<Vec<PullRequestCommit>>),
    /// The account behind the current commit, if the service knows one.
    Author(Option<CommitUsernameHtmlUrl>),
}

/// View of an [`Event`].
pub enum EventView {
    Commit(CommitView),
    PullRequests(Option<Seq<PullRequestView>>),
    PullRequestCommits(Option<Seq<PullRequestCommitView>>),
    Author(Option<Attribution>),
}

impl View for Event {
    type V = EventView;

    open spec fn view(&self) -> EventView {
        match self {
            Event::Commit(commit) => EventView::Commit(commit@),
            Event::PullRequests(found) => EventView::PullRequests(found.deep_view()),
            Event::PullRequestCommits(found) => EventView::PullRequestCommits(found.deep_view()),
            Event::Author(answer) => EventView::Author(answer.deep_view()),
        }
    }
}

/// What the assembler asks for.
#[derive(Debug, PartialEq, Eq)]
pub enum Action {
    /// Nothing: hand over the next commit.
    Advance,
    /// The pull requests that have this commit as their merge commit.
    ResolvePullRequest { sha: String },
    /// The commits of the pull request with this number.
    ListPullRequestCommits { number: u64 },
    /// The account behind this commit.
    ResolveAuthor { sha: String },
}

/// View of an [`Action`].
pub enum ActionView {
    Advance,
    ResolvePullRequest { sha: Seq<char> },
    ListPullRequestCommits { number: nat },
    ResolveAuthor { sha: Seq<char> },
}

impl View for Action {
    type V = ActionView;

    open spec fn view(&self) -> ActionView {
        match self {
            Action::Advance => ActionView::Advance,
            Action::ResolvePullRequest { sha } => ActionView::ResolvePullRequest { sha: sha@ },
            Action::ListPullRequestCommits { number } => ActionView::ListPullRequestCommits {
                number: *number as nat,
            },
            Action::ResolveAuthor { sha } => ActionView::ResolveAuthor { sha: sha@ },
        }
    }
}

/// What the assembler waits for.
#[derive(Debug, PartialEq, Eq)]
pub enum Awaiting {
    /// The next commit.
    Commit,
    /// The pull requests of this merge commit.
    PullRequests(Commit),
    /// The commits of this pull request.
    PullRequestCommits(PullRequest),
    /// The author of this commit, a merge commit without pull request or not.
    Author { commit: Commit, merge: bool },
}

/// View of an [`Awaiting`].
pub enum AwaitingView {
    Commit,
    PullRequests(CommitView),
    PullRequestCommits(PullRequestView),
    Author { commit: CommitView, merge: bool },
}

impl View for Awaiting {
    type V = AwaitingView;

    open spec fn view(&self) -> AwaitingView {
        match self {
            Awaiting::Commit => AwaitingView::Commit,
            Awaiting::PullRequests(commit) => AwaitingView::PullRequests(commit@),
            Awaiting::PullRequestCommits(pull_request) => AwaitingView::PullRequestCommits(
                pull_request@,
            ),
            Awaiting::Author { commit, merge } => AwaitingView::Author {
                commit: commit@,
                merge: *merge,
            },
        }
    }
}

/// View of an [`Assembler`](crate::machine::Assembler).
pub struct AssemblerView {
    pub settings: Settings,
    pub progress: Progress,
    pub awaiting: AwaitingView,
}

/// The entry of a walked commit with its author: marked for a merge commit
/// without pull request, plain otherwise.
pub open spec fn walked_entry(
    commit: CommitView,
    merge: bool,
    author: Option<Attribution>,
) -> EntryView {
    if merge {
        EntryView::UnattributedMerge(walked_line(commit, author))
    } else {
        EntryView::Commit(walked_line(commit, author))
    }
}

/// The assembler turns to the author of a commit: one that is cached for the
/// commit's email is shown at once, any other is asked for.
pub open spec fn seek_author(state: AssemblerView, commit: CommitView, merge: bool) -> (
    AssemblerView,
    ActionView,
) {
    if author_cached(state.progress, commit) {
        let author = state.progress.cache[commit.author_email->0];
        (
            AssemblerView {
                progress: Progress {
                    entries: state.progress.entries.push(walked_entry(commit, merge, Some(author))),
                    ..state.progress
                },
                awaiting: AwaitingView::Commit,
                ..state
            },
            ActionView::Advance,
        )
    } else {
        (
            AssemblerView { awaiting: AwaitingView::Author { commit, merge }, ..state },
            ActionView::ResolveAuthor { sha: commit.id },
        )
    }
}

/// The assembler takes the next commit of the walk. It writes the header of
/// the section that the commit opens; then it asks for the pull requests of
/// a merge commit, passes over a commit that was shown under a pull request,
/// and turns to the author of any other.
pub open spec fn take_commit(state: AssemblerView, commit: CommitView) -> Result<
    (AssemblerView, ActionView),
    AssemblyErrorView,
> {
    let progress = state.progress;
    match commit_fault(state.settings, progress, commit) {
        Some(error) => Err(error),
        None => {
            let opened = Progress {
                section_started: true,
                entries: progress.entries + section_entries(state.settings, progress, commit),
                ..progress
            };
            if is_merge(commit) {
                Ok(
                    (
                        AssemblerView {
                            progress: opened,
                            awaiting: AwaitingView::PullRequests(commit),
                            ..state
                        },
                        ActionView::ResolvePullRequest { sha: commit.id },
                    ),
                )
            } else if progress.skip.contains(commit.id) {
                Ok(
                    (
                        AssemblerView {
                            progress: Progress {
                                skip: if state.settings.strict {
                                    progress.skip.drop_first()
                                } else {
                                    progress.skip
                                },
                                ..opened
                            },
                            awaiting: AwaitingView::Commit,
                            ..state
                        },
                        ActionView::Advance,
                    ),
                )
            } else {
                Ok(seek_author(AssemblerView { progress: opened, ..state }, commit, false))
            }
        },
    }
}

/// The assembler learns the pull requests of a merge commit: it asks for the
/// commits of the first, and without one turns to the commit's author.
pub open spec fn take_pull_requests(
    state: AssemblerView,
    commit: CommitView,
    found: Option<Seq<PullRequestView>>,
) -> (AssemblerView, ActionView) {
    match first_pull_request(found) {
        Some(pull_request) => (
            AssemblerView { awaiting: AwaitingView::PullRequestCommits(pull_request), ..state },
            ActionView::ListPullRequestCommits { number: pull_request.number },
        ),
        None => seek_author(state, commit, true),
    }
}

/// The assembler learns the commits of a pull request: it writes the pull
/// request with them, newest first, and notes their identifiers as shown.
pub open spec fn take_pull_request_commits(
    state: AssemblerView,
    pull_request: PullRequestView,
    found: Option<Seq<PullRequestCommitView>>,
) -> (AssemblerView, ActionView) {
    let listed = listed_commits(found);
    (
        AssemblerView {
            progress: Progress {
                skip: state.progress.skip + nested_ids(listed),
                entries: state.progress.entries.push(
                    EntryView::PullRequest(
                        PullRequestBlockView { pull_request, commits: nested_lines(listed) },
                    ),
                ),
                ..state.progress
            },
            awaiting: AwaitingView::Commit,
            ..state
        },
        ActionView::Advance,
    )
}

/// The assembler learns the author of a commit: it writes the commit's line,
/// and remembers an author that was found under the commit's email.
pub open spec fn take_author(
    state: AssemblerView,
    commit: CommitView,
    merge: bool,
    answer: Option<Attribution>,
) -> (AssemblerView, ActionView) {
    (
        AssemblerView {
            progress: Progress {
                cache: cache_after_answer(state.progress.cache, commit, answer),
                entries: state.progress.entries.push(walked_entry(commit, merge, answer)),
                ..state.progress
            },
            awaiting: AwaitingView::Commit,
            ..state
        },
        ActionView::Advance,
    )
}

/// One step of the assembler: the state and the request that follow an
/// event, or the error that the event meets. An event other than the one
/// awaited is an error.
pub open spec fn step_spec(state: AssemblerView, event: EventView) -> Result<
    (AssemblerView, ActionView),
    AssemblyErrorView,
> {
    match (state.awaiting, event) {
        (AwaitingView::Commit, EventView::Commit(commit)) => take_commit(state, commit),
        (AwaitingView::PullRequests(commit), EventView::PullRequests(found)) => Ok(
            take_pull_requests(state, commit, found),
        ),
        (
            AwaitingView::PullRequestCommits(pull_request),
            EventView::PullRequestCommits(found),
        ) => Ok(take_pull_request_commits(state, pull_request, found)),
        (AwaitingView::Author { commit, merge }, EventView::Author(answer)) => Ok(
            take_author(state, commit, merge, answer),
        ),
        _ => Err(AssemblyErrorView::UnexpectedEvent),
    }
}

/// The state in which an assembly starts.
pub open spec fn initial_state(tags: Map<Seq<char>, Seq<char>>, strict: bool) -> AssemblerView {
    AssemblerView {
        settings: Settings { tags, strict },
        progress: initial_progress(),
        awaiting: AwaitingView::Commit,
    }
}

/// Whether `key` is among `texts`.
pub fn contains_text(texts: &Vec<String>, key: &String) -> (found: bool)
    ensures
        found == texts.deep_view().contains(key@),
{
    let mut i: usize = 0;
    while i < texts.len()
        invariant
            0 <= i <= texts.len(),
            forall|j: int| 0 <= j < i ==> texts.deep_view()[j] != key@,
        decreases texts.len() - i,
    {
        if texts[i] == *key {
            assert(texts.deep_view()[i as int] == key@);
            return true;
        }
        i += 1;
    }
    false
}

/// The pull request of a merge commit among those that the service
/// reports for it: the first; none where it reports none, or where the
/// lookup failed.
pub fn fetch_pr_metadata(found: &Option<Vec<PullRequest>>) -> (chosen: Option<PullRequest>)
    ensures
        chosen.deep_view() == first_pull_request(found.deep_view()),
{
    match found {
        Some(candidates) => if candidates.len() > 0 {
            assert(found.deep_view()->0[0] == candidates[0]@);
            Some(candidates[0].clone())
        } else {
            None
        },
        None => None,
    }
}

/// Whether the service reports more than one pull request for a merge
/// commit, so that the first was chosen over others.
pub fn has_rival_pull_requests(found: &Option<Vec<PullRequest>>) -> (rivals: bool)
    ensures
        rivals == (found.deep_view() matches Some(candidates) && candidates.len() > 1),
{
    match found {
        Some(candidates) => candidates.len() > 1,
        None => false,
    }
}

/// The line of a walked commit, with the given author.
pub fn walked_line_of(commit: &Commit, author: Option<CommitUsernameHtmlUrl>) -> (line: CommitLine)
    ensures
        line@ == walked_line(commit@, author.deep_view()),
{
    let summary = match &commit.message {
        Some(message) => String::from_str(description(message.as_str())),
        None => String::from_str(description("No commit message")),
    };
    CommitLine { id: commit.id.clone(), summary, author }
}

/// The line of a commit as its pull request lists it.
pub fn nested_line_of(commit: &PullRequestCommit) -> (line: CommitLine)
    ensures
        line@ == nested_line(commit@),
{
    CommitLine {
        id: commit.sha.clone(),
        summary: String::from_str(description(commit.message.as_str())),
        author: copy_optional_attribution(&commit.author),
    }
}

/// Assembles a changelog from the commits of a walk, one event at a time.
pub struct Assembler {
    tags: TagIndex,
    strict: bool,
    section_started: bool,
    skip: Vec<String>,
    cache: TextMap<CommitUsernameHtmlUrl>,
    entries: Vec<Entry>,
    awaiting: Awaiting,
}

impl View for Assembler {
    type V = AssemblerView;

    closed spec fn view(&self) -> AssemblerView {
        AssemblerView {
            settings: Settings { tags: self.tags@, strict: self.strict },
            progress: Progress {
                section_started: self.section_started,
                skip: self.skip.deep_view(),
                cache: self.cache@,
                entries: self.entries.deep_view(),
            },
            awaiting: self.awaiting@,
        }
    }
}

impl Assembler {
    /// An assembler at the start of a walk. A strict one stops where the
    /// commits of a pull request surface in another order than listed.
    pub fn new(tags: TagIndex, strict: bool) -> (made: Self)
        ensures
            made@ == initial_state(tags@, strict),
    {
        let made = Assembler {
            tags,
            strict,
            section_started: false,
            skip: Vec::new(),
            cache: TextMap::new(),
            entries: Vec::new(),
            awaiting: Awaiting::Commit,
        };
        assert(made.skip.deep_view() =~= Seq::<Seq<char>>::empty());
        assert(made.entries.deep_view() =~= Seq::<EntryView>::empty());
        made
    }

    /// The entries written so far.
    pub fn finish(self) -> (entries: Vec<Entry>)
        ensures
            entries.deep_view() == self@.progress.entries,
    {
        self.entries
    }

    /// Whether the assembler waits for the next commit.
    pub fn is_idle(&self) -> (idle: bool)
        ensures
            idle == (self@.awaiting is Commit),
    {
        match self.awaiting {
            Awaiting::Commit => true,
            _ => false,
        }
    }

    fn push_entry(&mut self, entry: Entry)
        ensures
            final(self)@ == (AssemblerView {
                progress: Progress {
                    entries: old(self)@.progress.entries.push(entry@),
                    ..old(self)@.progress
                },
                ..old(self)@
            }),
    {
        let ghost before = self.entries.deep_view();
        self.entries.push(entry);
        assert(self.entries.deep_view() =~= before.push(entry@));
    }

    fn seek_author(&mut self, commit: Commit, merge: bool) -> (action: Action)
        requires
            old(self)@.awaiting is Commit,
        ensures
            (final(self)@, action@) == seek_author(old(self)@, commit@, merge),
    {
        let cached = match &commit.author_email {
            Some(email) => match self.cache.get(email) {
                Some(author) => Some(author.clone()),
                None => None,
            },
            None => None,
        };
        match cached {
            Some(author) => {
                let line = walked_line_of(&commit, Some(author));
                if merge {
                    self.push_entry(Entry::UnattributedMerge(line));
                } else {
                    self.push_entry(Entry::Commit(line));
                }
                Action::Advance
            },
            None => {
                let sha = commit.id.clone();
                self.awaiting = Awaiting::Author { commit, merge };
                Action::ResolveAuthor { sha }
            },
        }
    }
    fn take_commit(&mut self, commit: Commit) -> (result: Result<Action, AssemblyError>)
        requires
            old(self)@.awaiting is Commit,
        ensures
            match take_commit(old(self)@, commit@) {
                Ok((next, action)) => result matches Ok(asked) && asked@ == action && final(self)@
                    == next,
                Err(error) => result matches Err(met) && met@ == error && final(self)@ == old(
                    self,
                )@,
            },
    {
        let tag = match self.tags.get(&commit.id) {
            Some(name) => Some(name.clone()),
            None => None,
        };
        let opens = tag.is_some() || !self.section_started;
        let mut header: Option<Entry> = None;
        if opens {
            match format_date(commit.time) {
                Some(date) => {
                    header = Some(Entry::Section { tag, date });
                },
                None => {
                    let seconds = commit.time;
                    return Err(AssemblyError::InvalidTimestamp { id: commit.id, seconds });
                },
            }
        }
        let merge = commit.parent_ids.len() > 1;
        assert(commit@.parent_ids.len() == commit.parent_ids.len());
        let listed = !merge && contains_text(&self.skip, &commit.id);
        if listed && self.strict {
            assert(self.skip.deep_view().len() > 0);
            assert(self.skip.deep_view()[0] == self.skip[0]@);
            if self.skip[0] != commit.id {
                return Err(
                    AssemblyError::OutOfOrder { expected: self.skip[0].clone(), actual: commit.id },
                );
            }
        }
        let ghost before = self@;
        match header {
            Some(entry) => {
                self.push_entry(entry);
            },
            None => {},
        }
        self.section_started = true;
        assert(self@.progress.entries =~= before.progress.entries + section_entries(
            before.settings,
            before.progress,
            commit@,
        ));
        if merge {
            let sha = commit.id.clone();
            self.awaiting = Awaiting::PullRequests(commit);
            Ok(Action::ResolvePullRequest { sha })
        } else if listed {
            if self.strict {
                let ghost skip = self.skip.deep_view();
                self.skip.remove(0);
                assert(self.skip.deep_view() =~= skip.drop_first());
            }
            Ok(Action::Advance)
        } else {
            Ok(self.seek_author(commit, false))
        }
    }

    fn take_pull_requests(&mut self, commit: Commit, found: Option<Vec<PullRequest>>) -> (action:
        Action)
        requires
            old(self)@.awaiting is Commit,
        ensures
            (final(self)@, action@) == take_pull_requests(old(self)@, commit@, found.deep_view()),
    {
        match fetch_pr_metadata(&found) {
            Some(pull_request) => {
                let number = pull_request.number;
                self.awaiting = Awaiting::PullRequestCommits(pull_request);
                Action::ListPullRequestCommits { number }
            },
            None => self.seek_author(commit, true),
        }
    }

    fn take_pull_request_commits(
        &mut self,
        pull_request: PullRequest,
        found: Option<Vec<PullRequestCommit>>,
    ) -> (action: Action)
        requires
            old(self)@.awaiting is Commit,
        ensures
            (final(self)@, action@) == take_pull_request_commits(
                old(self)@,
                pull_request@,
                found.deep_view(),
            ),
    {
        let ghost listed = listed_commits(found.deep_view());
        let ghost skip = self.skip.deep_view();
        let mut lines: Vec<CommitLine> = Vec::new();
        match &found {
            Some(commits) => {
                let n = commits.len();
                let mut i: usize = 0;
                while i < n
                    invariant
                        n == commits.len(),
                        listed == commits.deep_view().reverse(),
                        0 <= i <= n,
                        lines.deep_view() == nested_lines(listed.take(i as int)),
                        self.skip.deep_view() == skip + nested_ids(listed.take(i as int)),
                        self@ == (AssemblerView {
                            progress: Progress { skip: self.skip.deep_view(), ..old(self)@.progress },
                            ..old(self)@
                        }),
                    decreases n - i,
                {
                    let commit = &commits[n - 1 - i];
                    assert(listed[i as int] == commit@);
                    let ghost lines_before = lines.deep_view();
                    let ghost skip_before = self.skip.deep_view();
                    lines.push(nested_line_of(commit));
                    self.skip.push(commit.sha.clone());
                    assert(listed.take(i + 1) =~= listed.take(i as int).push(commit@));
                    assert(lines.deep_view() =~= lines_before.push(nested_line(commit@)));
                    assert(nested_lines(listed.take(i + 1)) =~= nested_lines(
                        listed.take(i as int),
                    ).push(nested_line(commit@)));
                    assert(self.skip.deep_view() =~= skip_before.push(commit@.sha));
                    assert(nested_ids(listed.take(i + 1)) =~= nested_ids(
                        listed.take(i as int),
                    ).push(commit@.sha));
                    i += 1;
                }
                assert(listed.take(n as int) =~= listed);
            },
            None => {
                assert(lines.deep_view() =~= nested_lines(listed));
                assert(self.skip.deep_view() =~= skip + nested_ids(listed));
            },
        }
        self.push_entry(Entry::PullRequest(PullRequestBlock { pull_request, commits: lines }));
        Action::Advance
    }

    fn take_author(&mut self, commit: Commit, merge: bool, answer: Option<CommitUsernameHtmlUrl>)
        -> (action: Action)
        requires
            old(self)@.awaiting is Commit,
        ensures
            (final(self)@, action@) == take_author(old(self)@, commit@, merge, answer.deep_view()),
    {
        match (&commit.author_email, &answer) {
            (Some(email), Some(author)) => {
                self.cache.insert(email.clone(), author.clone());
            },
            _ => {},
        }
        let line = walked_line_of(&commit, answer);
        if merge {
            self.push_entry(Entry::UnattributedMerge(line));
        } else {
            self.push_entry(Entry::Commit(line));
        }
        Action::Advance
    }

    /// Hands the assembler the event that it asked for last, or the next
    /// commit; it answers with what it needs next. After an error the
    /// assembler is as it was before the event.
    pub fn step(&mut self, event: Event) -> (result: Result<Action, AssemblyError>)
        ensures
            match step_spec(old(self)@, event@) {
                Ok((next, action)) => result matches Ok(asked) && asked@ == action && final(self)@
                    == next,
                Err(error) => result matches Err(met) && met@ == error && final(self)@ == old(
                    self,
                )@,
            },
    {
        let mut awaiting = Awaiting::Commit;
        std::mem::swap(&mut self.awaiting, &mut awaiting);
        match (awaiting, event) {
            (Awaiting::Commit, Event::Commit(commit)) => self.take_commit(commit),
            (Awaiting::PullRequests(commit), Event::PullRequests(found)) => Ok(
                self.take_pull_requests(commit, found),
            ),
            (Awaiting::PullRequestCommits(pull_request), Event::PullRequestCommits(found)) => Ok(
                self.take_pull_request_commits(pull_request, found),
            ),
            (Awaiting::Author { commit, merge }, Event::Author(answer)) => Ok(
                self.take_author(commit, merge, answer),
            ),
            (awaited, _) => {
                self.awaiting = awaited;
                Err(AssemblyError::UnexpectedEvent)
            },
        }
    }
}

} // verus!
