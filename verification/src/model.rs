//! The plain data that the changelog is assembled from, and its views.

use vstd::prelude::*;

verus! {

/// The account that the hosting service associates with a commit.
#[derive(Debug, PartialEq, Eq)]
pub struct CommitUsernameHtmlUrl {
    pub login: String,
    pub html_url: String,
}

/// View of a [`CommitUsernameHtmlUrl`].
pub struct Attribution {
    pub login: Seq<char>,
    pub html_url: Seq<char>,
}

impl View for CommitUsernameHtmlUrl {
    type V = Attribution;

    open spec fn view(&self) -> Attribution {
        Attribution { login: self.login@, html_url: self.html_url@ }
    }
}

impl DeepView for CommitUsernameHtmlUrl {
    type V = Attribution;

    open spec fn deep_view(&self) -> Attribution {
        self@
    }
}

impl CommitUsernameHtmlUrl {
    /// An attribution with the given login and profile address.
    pub fn new(login: &str, html_url: &str) -> (made: Self)
        ensures
            made@ == (Attribution { login: login@, html_url: html_url@ }),
    {
        Self { login: login.to_owned(), html_url: html_url.to_owned() }
    }
}

impl Clone for CommitUsernameHtmlUrl {
    fn clone(&self) -> (copy: Self)
        ensures
            copy@ == self@,
    {
        Self { login: self.login.clone(), html_url: self.html_url.clone() }
    }
}

/// One commit of the walked history.
#[derive(Debug, PartialEq, Eq)]
pub struct Commit {
    /// The commit's identifier, as text.
    pub id: String,
    /// The identifiers of its parents, in order.
    pub parent_ids: Vec<String>,
    pub author_name: Option<String>,
    pub author_email: Option<String>,
    /// The whole message; `None` where it is not readable as text.
    pub message: Option<String>,
    /// Commit time, in seconds since the epoch.
    pub time: i64,
}

/// View of a [`Commit`].
pub struct CommitView {
    pub id: Seq<char>,
    pub parent_ids: Seq<Seq<char>>,
    pub author_name: Option<Seq<char>>,
    pub author_email: Option<Seq<char>>,
    pub message: Option<Seq<char>>,
    pub time: int,
}

impl View for Commit {
    type V = CommitView;

    open spec fn view(&self) -> CommitView {
        CommitView {
            id: self.id@,
            parent_ids: self.parent_ids.deep_view(),
            author_name: self.author_name.deep_view(),
            author_email: self.author_email.deep_view(),
            message: self.message.deep_view(),
            time: self.time as int,
        }
    }
}

impl DeepView for Commit {
    type V = CommitView;

    open spec fn deep_view(&self) -> CommitView {
        self@
    }
}

/// A copy of an optional text.
pub fn copy_optional_text(text: &Option<String>) -> (copy: Option<String>)
    ensures
        copy.deep_view() == text.deep_view(),
{
    match text {
        Some(t) => Some(t.clone()),
        None => None,
    }
}

/// A copy of a list of texts.
pub fn copy_texts(texts: &Vec<String>) -> (copy: Vec<String>)
    ensures
        copy.deep_view() == texts.deep_view(),
{
    let mut copy: Vec<String> = Vec::new();
    let mut i: usize = 0;
    while i < texts.len()
        invariant
            0 <= i <= texts.len(),
            copy.len() == i,
            forall|j: int| 0 <= j < i ==> copy[j]@ == texts[j]@,
        decreases texts.len() - i,
    {
        copy.push(texts[i].clone());
        i += 1;
    }
    assert(copy.deep_view() =~= texts.deep_view());
    copy
}

impl Clone for Commit {
    fn clone(&self) -> (copy: Self)
        ensures
            copy@ == self@,
    {
        Self {
            id: self.id.clone(),
            parent_ids: copy_texts(&self.parent_ids),
            author_name: copy_optional_text(&self.author_name),
            author_email: copy_optional_text(&self.author_email),
            message: copy_optional_text(&self.message),
            time: self.time,
        }
    }
}

/// A pull request, as the hosting service reports it for a merge commit.
#[derive(Debug, PartialEq, Eq)]
pub struct PullRequest {
    pub number: u64,
    pub title: Option<String>,
    /// Address of the pull request's page.
    pub url: Option<String>,
    pub author_login: Option<String>,
}

/// View of a [`PullRequest`].
pub struct PullRequestView {
    pub number: nat,
    pub title: Option<Seq<char>>,
    pub url: Option<Seq<char>>,
    pub author_login: Option<Seq<char>>,
}

impl View for PullRequest {
    type V = PullRequestView;

    open spec fn view(&self) -> PullRequestView {
        PullRequestView {
            number: self.number as nat,
            title: self.title.deep_view(),
            url: self.url.deep_view(),
            author_login: self.author_login.deep_view(),
        }
    }
}

impl DeepView for PullRequest {
    type V = PullRequestView;

    open spec fn deep_view(&self) -> PullRequestView {
        self@
    }
}

impl Clone for PullRequest {
    fn clone(&self) -> (copy: Self)
        ensures
            copy@ == self@,
    {
        Self {
            number: self.number,
            title: copy_optional_text(&self.title),
            url: copy_optional_text(&self.url),
            author_login: copy_optional_text(&self.author_login),
        }
    }
}

/// A commit of a pull request, as the hosting service knows it: the
/// identifier is that of the local commit, the author is the service's own.
#[derive(Debug, PartialEq, Eq)]
pub struct PullRequestCommit {
    pub sha: String,
    pub message: String,
    pub author: Option<CommitUsernameHtmlUrl>,
}

/// View of a [`PullRequestCommit`].
pub struct PullRequestCommitView {
    pub sha: Seq<char>,
    pub message: Seq<char>,
    pub author: Option<Attribution>,
}

impl View for PullRequestCommit {
    type V = PullRequestCommitView;

    open spec fn view(&self) -> PullRequestCommitView {
        PullRequestCommitView {
            sha: self.sha@,
            message: self.message@,
            author: self.author.deep_view(),
        }
    }
}

impl DeepView for PullRequestCommit {
    type V = PullRequestCommitView;

    open spec fn deep_view(&self) -> PullRequestCommitView {
        self@
    }
}

/// A copy of an optional attribution.
pub fn copy_optional_attribution(author: &Option<CommitUsernameHtmlUrl>) -> (copy: Option<
    CommitUsernameHtmlUrl,
>)
    ensures
        copy.deep_view() == author.deep_view(),
{
    match author {
        Some(a) => Some(a.clone()),
        None => None,
    }
}

/// A reference of the repository, as far as the tag index reads it.
#[derive(Debug, PartialEq, Eq)]
pub struct Reference {
    /// Whether the reference denotes a tag.
    pub is_tag: bool,
    /// The commit that it points at directly, if any.
    pub target: Option<String>,
    /// Its short name; `None` where the name is not readable as text.
    pub shorthand: Option<String>,
}

/// View of a [`Reference`].
pub struct ReferenceView {
    pub is_tag: bool,
    pub target: Option<Seq<char>>,
    pub shorthand: Option<Seq<char>>,
}

impl View for Reference {
    type V = ReferenceView;

    open spec fn view(&self) -> ReferenceView {
        ReferenceView {
            is_tag: self.is_tag,
            target: self.target.deep_view(),
            shorthand: self.shorthand.deep_view(),
        }
    }
}

impl DeepView for Reference {
    type V = ReferenceView;

    open spec fn deep_view(&self) -> ReferenceView {
        self@
    }
}

impl Clone for PullRequestCommit {
    fn clone(&self) -> (copy: Self)
        ensures
            copy@ == self@,
    {
        Self {
            sha: self.sha.clone(),
            message: self.message.clone(),
            author: copy_optional_attribution(&self.author),
        }
    }
}

/// A copy of a list of pull requests, where there is one.
pub fn copy_pull_requests(found: &Option<Vec<PullRequest>>) -> (copy: Option<Vec<PullRequest>>)
    ensures
        copy.deep_view() == found.deep_view(),
{
    match found {
        Some(list) => {
            let mut copy: Vec<PullRequest> = Vec::new();
            let mut i: usize = 0;
            while i < list.len()
                invariant
                    0 <= i <= list.len(),
                    copy.len() == i,
                    forall|j: int| 0 <= j < i ==> copy[j]@ == list[j]@,
                decreases list.len() - i,
            {
                copy.push(list[i].clone());
                i += 1;
            }
            assert(copy.deep_view() =~= list.deep_view());
            Some(copy)
        },
        None => None,
    }
}

/// A copy of a list of a pull request's commits, where there is one.
pub fn copy_pull_request_commits(found: &Option<Vec<PullRequestCommit>>) -> (copy: Option<
    Vec<PullRequestCommit>,
>)
    ensures
        copy.deep_view() == found.deep_view(),
{
    match found {
        Some(list) => {
            let mut copy: Vec<PullRequestCommit> = Vec::new();
            let mut i: usize = 0;
            while i < list.len()
                invariant
                    0 <= i <= list.len(),
                    copy.len() == i,
                    forall|j: int| 0 <= j < i ==> copy[j]@ == list[j]@,
                decreases list.len() - i,
            {
                copy.push(list[i].clone());
                i += 1;
            }
            assert(copy.deep_view() =~= list.deep_view());
            Some(copy)
        },
        None => None,
    }
}

} // verus!
