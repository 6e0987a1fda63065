//! The entries of a changelog and the text that they are written as.

use crate::model::{
    Attribution, CommitUsernameHtmlUrl, PullRequest, PullRequestView, copy_optional_attribution,
};
use crate::text::{decimal, decimal_text, description, description_text, short_id, short_id_text};
use vstd::prelude::*;

verus! {

/// What one line says of a commit.
#[derive(Debug, PartialEq, Eq)]
pub struct CommitLine {
    pub id: String,
    /// The summary of the commit's message.
    pub summary: String,
    /// The account behind the commit, where one was resolved.
    pub author: Option<CommitUsernameHtmlUrl>,
}

/// View of a [`CommitLine`].
pub struct CommitLineView {
    pub id: Seq<char>,
    pub summary: Seq<char>,
    pub author: Option<Attribution>,
}

impl View for CommitLine {
    type V = CommitLineView;

    open spec fn view(&self) -> CommitLineView {
        CommitLineView { id: self.id@, summary: self.summary@, author: self.author.deep_view() }
    }
}

impl DeepView for CommitLine {
    type V = CommitLineView;

    open spec fn deep_view(&self) -> CommitLineView {
        self@
    }
}

impl Clone for CommitLine {
    fn clone(&self) -> (copy: Self)
        ensures
            copy@ == self@,
    {
        Self {
            id: self.id.clone(),
            summary: self.summary.clone(),
            author: copy_optional_attribution(&self.author),
        }
    }
}

/// A pull request together with its commits, newest first.
#[derive(Debug, PartialEq, Eq)]
pub struct PullRequestBlock {
    pub pull_request: PullRequest,
    pub commits: Vec<CommitLine>,
}

/// View of a [`PullRequestBlock`].
pub struct PullRequestBlockView {
    pub pull_request: PullRequestView,
    pub commits: Seq<CommitLineView>,
}

impl View for PullRequestBlock {
    type V = PullRequestBlockView;

    open spec fn view(&self) -> PullRequestBlockView {
        PullRequestBlockView {
            pull_request: self.pull_request@,
            commits: self.commits.deep_view(),
        }
    }
}

impl DeepView for PullRequestBlock {
    type V = PullRequestBlockView;

    open spec fn deep_view(&self) -> PullRequestBlockView {
        self@
    }
}

/// One entry of a changelog.
#[derive(Debug, PartialEq, Eq)]
pub enum Entry {
    /// The header of a release section; without a tag, of the section of
    /// what is not released yet.
    Section { tag: Option<String>, date: String },
    /// A commit on a line of its own.
    Commit(CommitLine),
    /// A merge commit that no pull request accounts for.
    UnattributedMerge(CommitLine),
    /// A merged pull request with its commits.
    PullRequest(PullRequestBlock),
}

/// View of an [`Entry`].
pub enum EntryView {
    Section { tag: Option<Seq<char>>, date: Seq<char> },
    Commit(CommitLineView),
    UnattributedMerge(CommitLineView),
    PullRequest(PullRequestBlockView),
}

impl View for Entry {
    type V = EntryView;

    open spec fn view(&self) -> EntryView {
        match self {
            Entry::Section { tag, date } => EntryView::Section {
                tag: tag.deep_view(),
                date: date@,
            },
            Entry::Commit(line) => EntryView::Commit(line@),
            Entry::UnattributedMerge(line) => EntryView::UnattributedMerge(line@),
            Entry::PullRequest(block) => EntryView::PullRequest(block@),
        }
    }
}

impl DeepView for Entry {
    type V = EntryView;

    open spec fn deep_view(&self) -> EntryView {
        self@
    }
}

/// The decoration of a line whose commit has a resolved author: the login,
/// and a link to the commit under the author's address, labelled with the
/// commit's short identifier.
pub open spec fn attribution_text(
    id: Seq<char>,
    author: Attribution,
    repo_name: Seq<char>,
) -> Seq<char> {
    " @"@ + author.login + " ["@ + short_id_text(id) + "]("@ + author.html_url + "/"@ + repo_name
        + "/commit/"@ + id + ")"@
}

/// A commit's line: the prefix, the summary, the decoration where an author
/// was resolved, and a line feed.
pub open spec fn commit_line_text(
    prefix: Seq<char>,
    line: CommitLineView,
    repo_name: Seq<char>,
) -> Seq<char> {
    match line.author {
        Some(author) => prefix + line.summary + attribution_text(line.id, author, repo_name)
            + "\n"@,
        None => prefix + line.summary + "\n"@,
    }
}

/// Writes the line of a commit after `prepend_string`.
pub fn format_commit(prepend_string: &str, line: &CommitLine, repo_name: &str) -> (text: String)
    ensures
        text@ == commit_line_text(prepend_string@, line@, repo_name@),
{
    let mut text = String::from_str(prepend_string);
    text.append(line.summary.as_str());
    match &line.author {
        Some(author) => {
            let mut tail = String::from_str(" @");
            tail.append(author.login.as_str());
            tail.append(" [");
            tail.append(short_id(line.id.as_str()));
            tail.append("](");
            tail.append(author.html_url.as_str());
            tail.append("/");
            tail.append(repo_name);
            tail.append("/commit/");
            tail.append(line.id.as_str());
            tail.append(")");
            text.append(tail.as_str());
        },
        None => {},
    }
    text.append("\n");
    text
}

/// Prefix of a commit on a line of its own.
pub open spec fn plain_prefix() -> Seq<char> {
    "- "@
}

/// Prefix of a commit listed under its pull request.
pub open spec fn nested_prefix() -> Seq<char> {
    "  - "@
}

/// Prefix of a merge commit that no pull request accounts for.
pub open spec fn unattributed_prefix() -> Seq<char> {
    "- <WEIRD multi-parent commit not a PR> "@
}

/// Mark of a pull request that lists no commit.
pub open spec fn empty_pull_request_mark() -> Seq<char> {
    "<WEIRD PR without commits> "@
}

/// The header of a section: for a tag, an empty line and then the tag in
/// brackets with the date; else `[unreleased]` with the date.
pub open spec fn section_text(tag: Option<Seq<char>>, date: Seq<char>) -> Seq<char> {
    match tag {
        Some(name) => "\n["@ + name + "] - "@ + date + "\n"@,
        None => "[unreleased] - "@ + date + "\n"@,
    }
}

/// The reference to a pull request that starts its lines: its number as a
/// link to its page (to nothing, where the page is not known).
pub open spec fn pull_request_prefix(pull_request: PullRequestView) -> Seq<char> {
    "- PR [#"@ + decimal_text(pull_request.number) + "]("@ + (match pull_request.url {
        Some(url) => url,
        None => Seq::empty(),
    }) + ") "@
}

/// What a pull request's own line says of it: the summary of its title and,
/// where known, its author's login.
pub open spec fn pull_request_heading(pull_request: PullRequestView) -> Seq<char> {
    description_text(
        match pull_request.title {
            Some(title) => title,
            None => Seq::empty(),
        },
    ) + (match pull_request.author_login {
        Some(login) => " @"@ + login,
        None => Seq::empty(),
    })
}

/// The lines of commits listed under a pull request, in the given order.
pub open spec fn nested_text(lines: Seq<CommitLineView>, repo_name: Seq<char>) -> Seq<char>
    decreases lines.len(),
{
    if lines.len() == 0 {
        Seq::empty()
    } else {
        nested_text(lines.drop_last(), repo_name) + commit_line_text(
            nested_prefix(),
            lines.last(),
            repo_name,
        )
    }
}

/// The lines of a pull request. With no commit: one line, marked. With one
/// commit: that commit's line behind the reference to the pull request. With
/// more: the pull request's own line, then its commits, one nested line each.
pub open spec fn block_text(block: PullRequestBlockView, repo_name: Seq<char>) -> Seq<char> {
    let prefix = pull_request_prefix(block.pull_request);
    if block.commits.len() == 0 {
        prefix + empty_pull_request_mark() + pull_request_heading(block.pull_request) + "\n"@
    } else if block.commits.len() == 1 {
        commit_line_text(prefix, block.commits[0], repo_name)
    } else {
        prefix + pull_request_heading(block.pull_request) + "\n"@ + nested_text(
            block.commits,
            repo_name,
        )
    }
}

/// The text of one entry.
pub open spec fn entry_text(entry: EntryView, repo_name: Seq<char>) -> Seq<char> {
    match entry {
        EntryView::Section { tag, date } => section_text(tag, date),
        EntryView::Commit(line) => commit_line_text(plain_prefix(), line, repo_name),
        EntryView::UnattributedMerge(line) => commit_line_text(
            unattributed_prefix(),
            line,
            repo_name,
        ),
        EntryView::PullRequest(block) => block_text(block, repo_name),
    }
}

/// The text of a changelog: that of its entries, one after the other.
pub open spec fn changelog_text(entries: Seq<EntryView>, repo_name: Seq<char>) -> Seq<char>
    decreases entries.len(),
{
    if entries.len() == 0 {
        Seq::empty()
    } else {
        changelog_text(entries.drop_last(), repo_name) + entry_text(entries.last(), repo_name)
    }
}

/// Writes the header of a section.
pub fn format_section(tag: &Option<String>, date: &str) -> (text: String)
    ensures
        text@ == section_text(tag.deep_view(), date@),
{
    let mut text = String::new();
    match tag {
        Some(name) => {
            text.append("\n[");
            text.append(name.as_str());
            text.append("] - ");
        },
        None => {
            text.append("[unreleased] - ");
        },
    }
    text.append(date);
    text.append("\n");
    assert(text@ =~= section_text(tag.deep_view(), date@));
    text
}

fn format_pull_request_prefix(pull_request: &PullRequest) -> (text: String)
    ensures
        text@ == pull_request_prefix(pull_request@),
{
    let mut text = String::from_str("- PR [#");
    text.append(decimal(pull_request.number).as_str());
    text.append("](");
    match &pull_request.url {
        Some(url) => {
            text.append(url.as_str());
        },
        None => {},
    }
    text.append(") ");
    assert(text@ =~= pull_request_prefix(pull_request@));
    text
}

fn format_pull_request_heading(pull_request: &PullRequest) -> (text: String)
    ensures
        text@ == pull_request_heading(pull_request@),
{
    let mut text = String::new();
    match &pull_request.title {
        Some(title) => {
            text.append(description(title.as_str()));
        },
        None => {
            assert(""@ =~= Seq::<char>::empty()) by {
                reveal_strlit("");
            }
            text.append(description(""));
        },
    }
    match &pull_request.author_login {
        Some(login) => {
            let mut tail = String::from_str(" @");
            tail.append(login.as_str());
            text.append(tail.as_str());
        },
        None => {},
    }
    assert(text@ =~= pull_request_heading(pull_request@));
    text
}

/// Writes the lines of a pull request.
pub fn format_pull_request(block: &PullRequestBlock, repo_name: &str) -> (text: String)
    ensures
        text@ == block_text(block@, repo_name@),
{
    let prefix = format_pull_request_prefix(&block.pull_request);
    if block.commits.len() == 0 {
        let mut text = prefix;
        text.append("<WEIRD PR without commits> ");
        text.append(format_pull_request_heading(&block.pull_request).as_str());
        text.append("\n");
        text
    } else if block.commits.len() == 1 {
        format_commit(prefix.as_str(), &block.commits[0], repo_name)
    } else {
        let mut text = prefix;
        text.append(format_pull_request_heading(&block.pull_request).as_str());
        text.append("\n");
        let ghost head = text@;
        let mut i: usize = 0;
        while i < block.commits.len()
            invariant
                0 <= i <= block.commits.len(),
                text@ == head + nested_text(block@.commits.take(i as int), repo_name@),
            decreases block.commits.len() - i,
        {
            let ghost until = block@.commits.take(i + 1);
            assert(until.drop_last() =~= block@.commits.take(i as int));
            assert(until.last() == block.commits[i as int]@);
            let line = format_commit("  - ", &block.commits[i], repo_name);
            text.append(line.as_str());
            assert(text@ =~= head + nested_text(until, repo_name@));
            i += 1;
        }
        assert(block@.commits.take(i as int) =~= block@.commits);
        text
    }
}

/// Writes one entry.
pub fn format_entry(entry: &Entry, repo_name: &str) -> (text: String)
    ensures
        text@ == entry_text(entry@, repo_name@),
{
    match entry {
        Entry::Section { tag, date } => format_section(tag, date.as_str()),
        Entry::Commit(line) => format_commit("- ", line, repo_name),
        Entry::UnattributedMerge(line) => format_commit(
            "- <WEIRD multi-parent commit not a PR> ",
            line,
            repo_name,
        ),
        Entry::PullRequest(block) => format_pull_request(block, repo_name),
    }
}

/// Writes a changelog.
pub fn render(entries: &Vec<Entry>, repo_name: &str) -> (text: String)
    ensures
        text@ == changelog_text(entries.deep_view(), repo_name@),
{
    let mut text = String::new();
    let mut i: usize = 0;
    while i < entries.len()
        invariant
            0 <= i <= entries.len(),
            text@ == changelog_text(entries.deep_view().take(i as int), repo_name@),
        decreases entries.len() - i,
    {
        let ghost until = entries.deep_view().take(i + 1);
        assert(until.drop_last() =~= entries.deep_view().take(i as int));
        assert(until.last() == entries[i as int]@);
        let piece = format_entry(&entries[i], repo_name);
        text.append(piece.as_str());
        i += 1;
    }
    assert(entries.deep_view().take(i as int) =~= entries.deep_view());
    text
}

} // verus!
