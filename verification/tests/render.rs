use git_changelog::model::{CommitUsernameHtmlUrl, PullRequest};
use git_changelog::render::{
    format_commit, format_entry, format_pull_request, format_section, render, CommitLine, Entry,
    PullRequestBlock,
};

const ID: &str = "0123456789abcdef0123456789abcdef01234567";

fn line(id: &str, summary: &str, login: Option<&str>) -> CommitLine {
    CommitLine {
        id: id.to_string(),
        summary: summary.to_string(),
        author: login.map(|l| CommitUsernameHtmlUrl::new(l, &format!("https://github.com/{}", l))),
    }
}

fn pull_request(number: u64) -> PullRequest {
    PullRequest {
        number,
        title: Some("Add the parser\n\ndetails".to_string()),
        url: Some(format!("https://github.com/o/r/pull/{}", number)),
        author_login: Some("octocat".to_string()),
    }
}

#[test]
fn commit_with_author_shows_login_and_link() {
    let text = format_commit("- ", &line(ID, "Fix the parser", Some("octocat")), "repo");
    assert_eq!(
        text,
        format!("- Fix the parser @octocat [0123456](https://github.com/octocat/repo/commit/{})\n", ID)
    );
}

#[test]
fn commit_without_author_shows_bare_summary() {
    let text = format_commit("- ", &line(ID, "Fix the parser", None), "repo");
    assert_eq!(text, "- Fix the parser\n");
    assert!(!text.contains("Unknown"));
    assert!(!text.contains('@'));
}

#[test]
fn commit_line_keeps_the_prefix() {
    assert_eq!(format_commit("  - ", &line("abc", "x", None), "repo"), "  - x\n");
    assert_eq!(
        format_commit("  - ", &line("abc", "x", Some("a")), "r"),
        "  - x @a [abc](https://github.com/a/r/commit/abc)\n"
    );
}

#[test]
fn section_headers() {
    assert_eq!(format_section(&Some("v1.2".to_string()), "2024-02-29"), "\n[v1.2] - 2024-02-29\n");
    assert_eq!(format_section(&None, "2024-02-29"), "[unreleased] - 2024-02-29\n");
}

#[test]
fn pull_request_without_commits_is_marked() {
    let block = PullRequestBlock { pull_request: pull_request(7), commits: vec![] };
    assert_eq!(
        format_pull_request(&block, "r"),
        "- PR [#7](https://github.com/o/r/pull/7) <WEIRD PR without commits> Add the parser @octocat\n"
    );
}

#[test]
fn pull_request_with_one_commit_is_one_line() {
    let block = PullRequestBlock {
        pull_request: pull_request(12),
        commits: vec![line(ID, "Only change", Some("dev"))],
    };
    assert_eq!(
        format_pull_request(&block, "r"),
        format!(
            "- PR [#12](https://github.com/o/r/pull/12) Only change @dev [0123456](https://github.com/dev/r/commit/{})\n",
            ID
        )
    );
}

#[test]
fn pull_request_with_commits_lists_them_nested() {
    let block = PullRequestBlock {
        pull_request: pull_request(5),
        commits: vec![line("bbbbbbbbbb", "B", None), line("aaaaaaaaaa", "A", Some("dev"))],
    };
    assert_eq!(
        format_pull_request(&block, "r"),
        "- PR [#5](https://github.com/o/r/pull/5) Add the parser @octocat\n  - B\n  - A @dev [aaaaaaa](https://github.com/dev/r/commit/aaaaaaaaaa)\n"
    );
}

#[test]
fn pull_request_without_title_page_or_author() {
    let block = PullRequestBlock {
        pull_request: PullRequest { number: 0, title: None, url: None, author_login: None },
        commits: vec![line("b", "B", None), line("a", "A", None)],
    };
    assert_eq!(format_pull_request(&block, "r"), "- PR [#0]() <No description>\n  - B\n  - A\n");
}

#[test]
fn unattributed_merge_is_marked() {
    let entry = Entry::UnattributedMerge(line(ID, "Merge branch 'x'", None));
    assert_eq!(format_entry(&entry, "r"), "- <WEIRD multi-parent commit not a PR> Merge branch 'x'\n");
}

#[test]
fn render_concatenates_entries() {
    let entries = vec![
        Entry::Section { tag: None, date: "2024-01-02".to_string() },
        Entry::Commit(line("c3", "third", None)),
        Entry::Section { tag: Some("v1".to_string()), date: "2024-01-01".to_string() },
        Entry::Commit(line("c2", "second", None)),
    ];
    assert_eq!(
        render(&entries, "r"),
        "[unreleased] - 2024-01-02\n- third\n\n[v1] - 2024-01-01\n- second\n"
    );
    assert_eq!(render(&vec![], "r"), "");
}
