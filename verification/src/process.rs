//! Assembly of a whole walk whose lookups are at hand.

use crate::assembly::{
    AssemblyError, AssemblyErrorView, Lookup, LookupView, Progress, Settings, absorb,
    commit_fault, initial_progress, no_lookup,
};
use crate::machine::{Action, Assembler, AssemblerView, Event};
use crate::model::{
    Commit, CommitView, copy_optional_attribution, copy_pull_request_commits, copy_pull_requests,
};
use crate::render::{Entry, EntryView, changelog_text, render};
use crate::repository::TagIndex;
use vstd::prelude::*;

verus! {

/// The lookup that belongs to commit `i` of a walk; past the end of the
/// list, the answer of a service that knows nothing.
pub open spec fn lookup_at(lookups: Seq<LookupView>, i: int) -> LookupView {
    if 0 <= i < lookups.len() {
        lookups[i]
    } else {
        no_lookup()
    }
}

/// The progress after the first `n` commits of a walk, or the error that
/// the first of them to stop the assembly meets.
pub open spec fn assembled(
    settings: Settings,
    commits: Seq<CommitView>,
    lookups: Seq<LookupView>,
    n: nat,
) -> Result<Progress, AssemblyErrorView>
    decreases n,
{
    if n == 0 {
        Ok(initial_progress())
    } else {
        match assembled(settings, commits, lookups, (n - 1) as nat) {
            Err(error) => Err(error),
            Ok(progress) => match commit_fault(settings, progress, commits[n - 1]) {
                Some(error) => Err(error),
                None => Ok(
                    absorb(settings, progress, commits[n - 1], lookup_at(lookups, n - 1)),
                ),
            },
        }
    }
}

/// The entries of the changelog of a whole walk.
pub open spec fn changelog(
    settings: Settings,
    commits: Seq<CommitView>,
    lookups: Seq<LookupView>,
) -> Result<Seq<EntryView>, AssemblyErrorView> {
    match assembled(settings, commits, lookups, commits.len()) {
        Ok(progress) => Ok(progress.entries),
        Err(error) => Err(error),
    }
}

impl Assembler {
    /// Takes a commit together with the service's answers about it, and
    /// puts to the assembler those that it asks for.
    pub fn absorb(&mut self, commit: &Commit, lookup: &Lookup) -> (result: Result<
        (),
        AssemblyError,
    >)
        ensures
            result matches Err(met) ==> final(self)@ == old(self)@ && met@ == (if old(
                self,
            )@.awaiting is Commit {
                commit_fault(old(self)@.settings, old(self)@.progress, commit@).unwrap()
            } else {
                AssemblyErrorView::UnexpectedEvent
            }),
            result is Ok <==> old(self)@.awaiting is Commit && commit_fault(
                old(self)@.settings,
                old(self)@.progress,
                commit@,
            ) is None,
            result is Ok ==> final(self)@ == (AssemblerView {
                progress: absorb(old(self)@.settings, old(self)@.progress, commit@, lookup@),
                ..old(self)@
            }),
    {
        let ghost before = self@;
        let mut action = match self.step(Event::Commit(commit.clone())) {
            Ok(action) => action,
            Err(error) => {
                return Err(error);
            },
        };
        if let Action::ResolvePullRequest { .. } = action {
            action = match self.step(Event::PullRequests(copy_pull_requests(&lookup.pull_requests))) {
                Ok(action) => action,
                Err(error) => {
                    return Err(error);
                },
            };
        }
        if let Action::ListPullRequestCommits { .. } = action {
            action = match self.step(
                Event::PullRequestCommits(copy_pull_request_commits(&lookup.pull_request_commits)),
            ) {
                Ok(action) => action,
                Err(error) => {
                    return Err(error);
                },
            };
        }
        if let Action::ResolveAuthor { .. } = action {
            action = match self.step(Event::Author(copy_optional_attribution(&lookup.author))) {
                Ok(action) => action,
                Err(error) => {
                    return Err(error);
                },
            };
        }
        proof {
            let after = absorb(before.settings, before.progress, commit@, lookup@);
            assert(self@.progress.entries =~= after.entries);
            assert(self@.progress.skip =~= after.skip);
            assert(self@.progress.cache =~= after.cache);
        }
        Ok(())
    }
}

/// Assembles the entries of the changelog of a walk. `lookups` holds the
/// service's answers, one for each commit of `commits`; where it is the
/// shorter, the commits past its end have none.
pub fn assemble(commits: &Vec<Commit>, lookups: &Vec<Lookup>, tags: TagIndex, strict: bool) -> (result:
    Result<Vec<Entry>, AssemblyError>)
    ensures
        match changelog(
            Settings { tags: tags@, strict },
            commits.deep_view(),
            lookups.deep_view(),
        ) {
            Ok(entries) => result matches Ok(written) && written.deep_view() == entries,
            Err(error) => result matches Err(met) && met@ == error,
        },
{
    let ghost settings = Settings { tags: tags@, strict };
    let mut assembler = Assembler::new(tags, strict);
    let nothing = Lookup { pull_requests: None, pull_request_commits: None, author: None };
    let mut i: usize = 0;
    while i < commits.len()
        invariant
            0 <= i <= commits.len(),
            nothing@ == no_lookup(),
            settings == (Settings { tags: tags@, strict }),
            assembler@.settings == settings,
            assembler@.awaiting is Commit,
            assembled(settings, commits.deep_view(), lookups.deep_view(), i as nat) == Ok::<
                Progress,
                AssemblyErrorView,
            >(assembler@.progress),
        decreases commits.len() - i,
    {
        let lookup = if i < lookups.len() {
            &lookups[i]
        } else {
            &nothing
        };
        assert(lookup@ == lookup_at(lookups.deep_view(), i as int));
        assert(commits.deep_view()[i as int] == commits[i as int]@);
        match assembler.absorb(&commits[i], lookup) {
            Ok(()) => {},
            Err(error) => {
                proof {
                    assert(assembled(
                        settings,
                        commits.deep_view(),
                        lookups.deep_view(),
                        (i + 1) as nat,
                    ) == Err::<Progress, AssemblyErrorView>(error@));
                    lemma_error_stays(
                        settings,
                        commits.deep_view(),
                        lookups.deep_view(),
                        (i + 1) as nat,
                        commits.len() as nat,
                    );
                }
                return Err(error);
            },
        }
        i += 1;
    }
    Ok(assembler.finish())
}

/// Once a commit has stopped an assembly, the error stays.
pub proof fn lemma_error_stays(
    settings: Settings,
    commits: Seq<CommitView>,
    lookups: Seq<LookupView>,
    n: nat,
    m: nat,
)
    requires
        n <= m,
        assembled(settings, commits, lookups, n) is Err,
    ensures
        assembled(settings, commits, lookups, m) == assembled(settings, commits, lookups, n),
    decreases m,
{
    if n < m {
        lemma_error_stays(settings, commits, lookups, n, (m - 1) as nat);
    }
}

/// Assembles the changelog of a walk and writes it as text.
pub fn process_commits(
    commits: &Vec<Commit>,
    lookups: &Vec<Lookup>,
    tags: TagIndex,
    repo_name: &str,
    strict: bool,
) -> (result: Result<String, AssemblyError>)
    ensures
        match changelog(
            Settings { tags: tags@, strict },
            commits.deep_view(),
            lookups.deep_view(),
        ) {
            Ok(entries) => result matches Ok(text) && text@ == changelog_text(entries, repo_name@),
            Err(error) => result matches Err(met) && met@ == error,
        },
{
    match assemble(commits, lookups, tags, strict) {
        Ok(entries) => Ok(render(&entries, repo_name)),
        Err(error) => Err(error),
    }
}

} // verus!
