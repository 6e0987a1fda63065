use git_changelog::assembly::{AssemblyError, Lookup};
use git_changelog::keyed::TextMap;
use git_changelog::machine::{fetch_pr_metadata, has_rival_pull_requests, Action, Assembler, Event};
use git_changelog::model::{Commit, CommitUsernameHtmlUrl, PullRequest, PullRequestCommit};
use git_changelog::process::{assemble, process_commits};
use git_changelog::render::{CommitLine, Entry, PullRequestBlock};
use git_changelog::repository::TagIndex;

// 2015-05-15 00:00:00 UTC
const MAY_15: i64 = 1431648000;
// 2015-05-16 23:59:59 UTC
const MAY_16: i64 = 1431820799;

fn plain(id: &str, message: &str, time: i64) -> Commit {
    Commit {
        id: id.to_string(),
        parent_ids: vec![format!("parent-of-{}", id)],
        author_name: Some("A. Dev".to_string()),
        author_email: None,
        message: Some(message.to_string()),
        time,
    }
}

fn with_email(mut commit: Commit, email: &str) -> Commit {
    commit.author_email = Some(email.to_string());
    commit
}

fn merge(id: &str, message: &str, time: i64) -> Commit {
    Commit {
        id: id.to_string(),
        parent_ids: vec!["left".to_string(), "right".to_string()],
        author_name: None,
        author_email: None,
        message: Some(message.to_string()),
        time,
    }
}

fn nothing() -> Lookup {
    Lookup { pull_requests: None, pull_request_commits: None, author: None }
}

fn author(login: &str) -> Lookup {
    Lookup {
        pull_requests: None,
        pull_request_commits: None,
        author: Some(CommitUsernameHtmlUrl::new(login, &format!("https://github.com/{}", login))),
    }
}

fn pull_request(number: u64) -> PullRequest {
    PullRequest {
        number,
        title: Some(format!("Title of {}", number)),
        url: Some(format!("https://github.com/o/r/pull/{}", number)),
        author_login: Some("octocat".to_string()),
    }
}

fn listed(sha: &str, message: &str) -> PullRequestCommit {
    PullRequestCommit { sha: sha.to_string(), message: message.to_string(), author: None }
}

fn resolved(number: u64, commits: Vec<PullRequestCommit>) -> Lookup {
    Lookup {
        pull_requests: Some(vec![pull_request(number)]),
        pull_request_commits: Some(commits),
        author: None,
    }
}

fn tags(pairs: &[(&str, &str)]) -> TagIndex {
    let mut index: TagIndex = TextMap::new();
    for (id, name) in pairs {
        index.insert(id.to_string(), name.to_string());
    }
    index
}

fn count<F: Fn(&Entry) -> bool>(entries: &[Entry], wanted: F) -> usize {
    entries.iter().filter(|e| wanted(e)).count()
}

#[test]
fn empty_walk_gives_empty_changelog() {
    assert_eq!(process_commits(&vec![], &vec![], tags(&[]), "r", true), Ok(String::new()));
}

#[test]
fn untagged_walk_opens_unreleased_once() {
    let commits = vec![plain("c3", "third", MAY_16), plain("c2", "second", MAY_15), plain("c1", "first", 0)];
    let text = process_commits(&commits, &vec![], tags(&[]), "r", true).unwrap();
    assert_eq!(text, "[unreleased] - 2015-05-16\n- third\n- second\n- first\n");
}

#[test]
fn tagged_commit_opens_a_section_after_an_empty_line() {
    let commits = vec![plain("c3", "third", MAY_16), plain("c2", "second", MAY_15), plain("c1", "first", 0)];
    let text = process_commits(&commits, &vec![], tags(&[("c2", "v0.2"), ("c1", "v0.1")]), "r", true).unwrap();
    assert_eq!(
        text,
        "[unreleased] - 2015-05-16\n- third\n\n[v0.2] - 2015-05-15\n- second\n\n[v0.1] - 1970-01-01\n- first\n"
    );
}

#[test]
fn first_commit_tagged_means_no_unreleased_section() {
    let commits = vec![plain("c2", "second", MAY_15), plain("c1", "first", 0)];
    let text = process_commits(&commits, &vec![], tags(&[("c2", "v1")]), "r", false).unwrap();
    assert_eq!(text, "\n[v1] - 2015-05-15\n- second\n- first\n");
    assert!(!text.contains("[unreleased]"));
}

#[test]
fn unreadable_message_gets_fixed_summary() {
    let mut commit = plain("c1", "", 0);
    commit.message = None;
    let text = process_commits(&vec![commit], &vec![], tags(&[]), "r", true).unwrap();
    assert_eq!(text, "[unreleased] - 1970-01-01\n- No commit message\n");
    let text = process_commits(&vec![plain("c1", "", 0)], &vec![], tags(&[]), "r", true).unwrap();
    assert_eq!(text, "[unreleased] - 1970-01-01\n- <No description>\n");
}

#[test]
fn resolved_author_decorates_the_line() {
    let commits = vec![plain("0123456789abcdef", "Fix it\n\nbody", MAY_15), plain("c1", "first", 0)];
    let lookups = vec![author("octocat"), nothing()];
    let text = process_commits(&commits, &lookups, tags(&[]), "repo", true).unwrap();
    assert_eq!(
        text,
        "[unreleased] - 2015-05-15\n- Fix it @octocat [0123456](https://github.com/octocat/repo/commit/0123456789abcdef)\n- first\n"
    );
    assert!(!text.contains("Unknown"));
}

#[test]
fn author_is_remembered_by_email() {
    let commits = vec![
        with_email(plain("c3", "third", MAY_15), "dev@example.org"),
        with_email(plain("c2", "second", MAY_15), "dev@example.org"),
        with_email(plain("c1", "first", MAY_15), "other@example.org"),
    ];
    let lookups = vec![author("dev"), author("stale"), nothing()];
    let entries = assemble(&commits, &lookups, tags(&[]), true).unwrap();
    let dev = Some(CommitUsernameHtmlUrl::new("dev", "https://github.com/dev"));
    assert_eq!(
        entries[1..],
        [
            Entry::Commit(CommitLine { id: "c3".into(), summary: "third".into(), author: dev.clone() }),
            Entry::Commit(CommitLine { id: "c2".into(), summary: "second".into(), author: dev }),
            Entry::Commit(CommitLine { id: "c1".into(), summary: "first".into(), author: None }),
        ]
    );
}

#[test]
fn merge_without_pull_request_is_marked() {
    let commits = vec![merge("m1", "Merge branch 'topic'", MAY_15), plain("c1", "first", 0)];
    for lookup in [
        nothing(),
        Lookup { pull_requests: Some(vec![]), pull_request_commits: Some(vec![listed("c1", "first")]), author: None },
    ] {
        let entries = assemble(&commits, &vec![lookup], tags(&[]), true).unwrap();
        assert_eq!(
            entries[1..],
            [
                Entry::UnattributedMerge(CommitLine {
                    id: "m1".into(),
                    summary: "Merge branch 'topic'".into(),
                    author: None
                }),
                Entry::Commit(CommitLine { id: "c1".into(), summary: "first".into(), author: None }),
            ]
        );
        assert_eq!(count(&entries, |e| matches!(e, Entry::PullRequest(_))), 0);
    }
    let text = process_commits(&commits, &vec![author("octocat")], tags(&[]), "r", true).unwrap();
    assert_eq!(
        text,
        "[unreleased] - 2015-05-15\n- <WEIRD multi-parent commit not a PR> Merge branch 'topic' @octocat [m1](https://github.com/octocat/r/commit/m1)\n- first\n"
    );
}

#[test]
fn first_pull_request_wins() {
    let commits = vec![merge("m1", "Merge", MAY_15)];
    let lookup = Lookup {
        pull_requests: Some(vec![pull_request(8), pull_request(9)]),
        pull_request_commits: Some(vec![]),
        author: None,
    };
    let entries = assemble(&commits, &vec![lookup], tags(&[]), true).unwrap();
    assert_eq!(
        entries[1],
        Entry::PullRequest(PullRequestBlock { pull_request: pull_request(8), commits: vec![] })
    );
}

#[test]
fn failed_commit_listing_gives_marked_pull_request() {
    let commits = vec![merge("m1", "Merge", MAY_15)];
    let lookup = Lookup { pull_requests: Some(vec![pull_request(8)]), pull_request_commits: None, author: None };
    let text = process_commits(&commits, &vec![lookup], tags(&[]), "r", true).unwrap();
    assert_eq!(
        text,
        "[unreleased] - 2015-05-15\n- PR [#8](https://github.com/o/r/pull/8) <WEIRD PR without commits> Title of 8 @octocat\n"
    );
}

#[test]
fn tagged_release_with_pull_request_and_plain_commit() {
    // C1 bears the tag v1, C2 merges pull request 5 with the commits A and B
    // (B the newer), C3 is a plain commit.
    let commits = vec![
        plain("C1", "Release", MAY_16),
        merge("C2", "Merge pull request #5", MAY_15),
        plain("B", "Second change", MAY_15),
        plain("A", "First change", MAY_15),
        plain("C3", "Initial", 0),
    ];
    let lookups = vec![
        nothing(),
        resolved(5, vec![listed("A", "First change"), listed("B", "Second change\n\nmore")]),
    ];
    for strict in [true, false] {
        let text = process_commits(&commits, &lookups, tags(&[("C1", "v1")]), "r", strict).unwrap();
        assert_eq!(
            text,
            "\n[v1] - 2015-05-16\n- Release\n- PR [#5](https://github.com/o/r/pull/5) Title of 5 @octocat\n  - Second change\n  - First change\n- Initial\n"
        );
        assert_eq!(text.matches("Second change").count(), 1);
        assert_eq!(text.matches("First change").count(), 1);
    }
}

#[test]
fn listed_commits_need_not_surface() {
    let commits = vec![
        plain("C1", "Release", MAY_16),
        merge("C2", "Merge pull request #5", MAY_15),
        plain("C3", "Initial", 0),
    ];
    let lookups = vec![nothing(), resolved(5, vec![listed("A", "First change"), listed("B", "Second change")])];
    let text = process_commits(&commits, &lookups, tags(&[("C1", "v1")]), "r", true).unwrap();
    assert_eq!(
        text,
        "\n[v1] - 2015-05-16\n- Release\n- PR [#5](https://github.com/o/r/pull/5) Title of 5 @octocat\n  - Second change\n  - First change\n- Initial\n"
    );
}

#[test]
fn single_commit_pull_request_collapses() {
    let commits = vec![merge("m", "Merge pull request #3", MAY_15), plain("aaaaaaaaaaaa", "Only change", 0)];
    let only = PullRequestCommit {
        sha: "aaaaaaaaaaaa".into(),
        message: "Only change".into(),
        author: Some(CommitUsernameHtmlUrl::new("dev", "https://github.com/dev")),
    };
    let text = process_commits(&commits, &vec![resolved(3, vec![only])], tags(&[]), "r", true).unwrap();
    assert_eq!(
        text,
        "[unreleased] - 2015-05-15\n- PR [#3](https://github.com/o/r/pull/3) Only change @dev [aaaaaaa](https://github.com/dev/r/commit/aaaaaaaaaaaa)\n"
    );
}

#[test]
fn strict_assembly_stops_on_wrong_order() {
    let commits = vec![
        merge("m", "Merge pull request #5", MAY_15),
        plain("A", "First change", MAY_15),
        plain("B", "Second change", MAY_15),
    ];
    let lookups = vec![resolved(5, vec![listed("A", "First change"), listed("B", "Second change")])];
    assert_eq!(
        assemble(&commits, &lookups, tags(&[]), true),
        Err(AssemblyError::OutOfOrder { expected: "B".into(), actual: "A".into() })
    );
    let entries = assemble(&commits, &lookups, tags(&[]), false).unwrap();
    assert_eq!(entries.len(), 2);
    assert_eq!(count(&entries, |e| matches!(e, Entry::Commit(_))), 0);
}

#[test]
fn time_without_date_stops_the_assembly() {
    let commits = vec![plain("c1", "first", i64::MAX)];
    assert_eq!(
        assemble(&commits, &vec![], tags(&[]), true),
        Err(AssemblyError::InvalidTimestamp { id: "c1".into(), seconds: i64::MAX })
    );
    // Only a commit that opens a section needs a date.
    let commits = vec![plain("c2", "second", 0), plain("c1", "first", i64::MAX)];
    assert_eq!(
        process_commits(&commits, &vec![], tags(&[]), "r", true),
        Ok("[unreleased] - 1970-01-01\n- second\n- first\n".to_string())
    );
}

#[test]
fn dates_before_the_epoch_and_in_leap_years() {
    let commits = vec![plain("c3", "c", 1709164800), plain("c2", "b", -1), plain("c1", "a", 951782400)];
    let text = process_commits(&commits, &vec![], tags(&[("c3", "x"), ("c2", "y"), ("c1", "z")]), "r", true).unwrap();
    assert_eq!(text, "\n[x] - 2024-02-29\n- c\n\n[y] - 1969-12-31\n- b\n\n[z] - 2000-02-29\n- a\n");
}

#[test]
fn machine_asks_for_what_it_needs() {
    let mut assembler = Assembler::new(tags(&[]), true);
    assert!(assembler.is_idle());
    assert_eq!(
        assembler.step(Event::Commit(merge("m", "Merge", MAY_15))),
        Ok(Action::ResolvePullRequest { sha: "m".into() })
    );
    assert!(!assembler.is_idle());
    assert_eq!(
        assembler.step(Event::PullRequests(Some(vec![pull_request(4)]))),
        Ok(Action::ListPullRequestCommits { number: 4 })
    );
    assert_eq!(
        assembler.step(Event::PullRequestCommits(Some(vec![listed("a", "A"), listed("b", "B")]))),
        Ok(Action::Advance)
    );
    assert_eq!(assembler.step(Event::Commit(plain("b", "B", 0))), Ok(Action::Advance));
    assert_eq!(assembler.step(Event::Commit(plain("a", "A", 0))), Ok(Action::Advance));
    assert_eq!(
        assembler.step(Event::Commit(plain("c", "C", 0))),
        Ok(Action::ResolveAuthor { sha: "c".into() })
    );
    assert_eq!(assembler.step(Event::Author(None)), Ok(Action::Advance));
    assert_eq!(
        assembler.step(Event::Commit(merge("n", "Merge again", 0))),
        Ok(Action::ResolvePullRequest { sha: "n".into() })
    );
    assert_eq!(assembler.step(Event::PullRequests(None)), Ok(Action::ResolveAuthor { sha: "n".into() }));
    assert_eq!(assembler.step(Event::Author(None)), Ok(Action::Advance));
    let entries = assembler.finish();
    assert_eq!(entries.len(), 4);
    assert_eq!(count(&entries, |e| matches!(e, Entry::Section { .. })), 1);
    assert_eq!(count(&entries, |e| matches!(e, Entry::PullRequest(_))), 1);
    assert_eq!(count(&entries, |e| matches!(e, Entry::Commit(_))), 1);
    assert_eq!(count(&entries, |e| matches!(e, Entry::UnattributedMerge(_))), 1);
}

#[test]
fn machine_refuses_an_event_it_did_not_ask_for() {
    let mut assembler = Assembler::new(tags(&[]), true);
    assert_eq!(assembler.step(Event::Author(None)), Err(AssemblyError::UnexpectedEvent));
    assert_eq!(assembler.step(Event::PullRequests(None)), Err(AssemblyError::UnexpectedEvent));
    assert_eq!(
        assembler.step(Event::Commit(plain("c", "C", 0))),
        Ok(Action::ResolveAuthor { sha: "c".into() })
    );
    assert_eq!(
        assembler.step(Event::Commit(plain("d", "D", 0))),
        Err(AssemblyError::UnexpectedEvent)
    );
    assert_eq!(
        assembler.absorb(&plain("d", "D", 0), &nothing()),
        Err(AssemblyError::UnexpectedEvent)
    );
    assert_eq!(assembler.step(Event::Author(None)), Ok(Action::Advance));
    assert_eq!(assembler.finish().len(), 2);
}

#[test]
fn machine_uses_cached_author_without_asking() {
    let mut assembler = Assembler::new(tags(&[]), true);
    let first = with_email(plain("c2", "second", 0), "dev@example.org");
    let second = with_email(plain("c1", "first", 0), "dev@example.org");
    assert_eq!(assembler.step(Event::Commit(first)), Ok(Action::ResolveAuthor { sha: "c2".into() }));
    assert_eq!(
        assembler.step(Event::Author(Some(CommitUsernameHtmlUrl::new("dev", "u")))),
        Ok(Action::Advance)
    );
    assert_eq!(assembler.step(Event::Commit(second)), Ok(Action::Advance));
    let entries = assembler.finish();
    assert_eq!(
        entries[2],
        Entry::Commit(CommitLine {
            id: "c1".into(),
            summary: "first".into(),
            author: Some(CommitUsernameHtmlUrl::new("dev", "u"))
        })
    );
}

#[test]
fn round_trip_counts() {
    // 9 commits, 2 of them tagged, 2 merges with 2 and 1 listed commits.
    let commits = vec![
        plain("c9", "nine", MAY_16),
        merge("m8", "Merge #2", MAY_16),
        plain("s7", "seven", MAY_16),
        plain("c6", "six", MAY_16),
        merge("m5", "Merge #1", MAY_15),
        plain("s4", "four", MAY_15),
        plain("s3", "three", MAY_15),
        plain("c2", "two", MAY_15),
        plain("c1", "one", 0),
    ];
    let lookups = vec![
        nothing(),
        resolved(2, vec![listed("s7", "seven")]),
        nothing(),
        nothing(),
        resolved(1, vec![listed("s3", "three"), listed("s4", "four")]),
    ];
    for strict in [true, false] {
        let entries = assemble(&commits, &lookups, tags(&[("c6", "v2"), ("c1", "v1")]), strict).unwrap();
        assert_eq!(count(&entries, |e| matches!(e, Entry::Section { .. })), 3);
        assert_eq!(count(&entries, |e| matches!(e, Entry::Section { tag: None, .. })), 1);
        assert!(matches!(entries[0], Entry::Section { tag: None, .. }));
        assert_eq!(count(&entries, |e| matches!(e, Entry::PullRequest(_))), 2);
        assert_eq!(count(&entries, |e| matches!(e, Entry::Commit(_))), 9 - 2 - 3);
        assert_eq!(count(&entries, |e| matches!(e, Entry::UnattributedMerge(_))), 0);
        let plain_ids: Vec<&str> = entries
            .iter()
            .filter_map(|e| match e {
                Entry::Commit(line) => Some(line.id.as_str()),
                _ => None,
            })
            .collect();
        assert_eq!(plain_ids, ["c9", "c6", "c2", "c1"]);
    }
}

#[test]
fn pull_request_choice() {
    assert_eq!(fetch_pr_metadata(&None), None);
    assert_eq!(fetch_pr_metadata(&Some(vec![])), None);
    assert_eq!(fetch_pr_metadata(&Some(vec![pull_request(3)])), Some(pull_request(3)));
    assert_eq!(fetch_pr_metadata(&Some(vec![pull_request(3), pull_request(4)])), Some(pull_request(3)));
    assert!(!has_rival_pull_requests(&None));
    assert!(!has_rival_pull_requests(&Some(vec![pull_request(3)])));
    assert!(has_rival_pull_requests(&Some(vec![pull_request(3), pull_request(4)])));
}

#[test]
fn errors_name_the_commits() {
    assert_eq!(
        AssemblyError::OutOfOrder { expected: "bbb".into(), actual: "aaa".into() }.describe(),
        "commit aaa surfaced in the history where commit bbb of the same pull request was expected"
    );
    assert_eq!(
        AssemblyError::InvalidTimestamp { id: "c1".into(), seconds: i64::MIN }.describe(),
        "commit c1 has a time without a calendar date: -9223372036854775808"
    );
    assert_eq!(
        AssemblyError::UnexpectedEvent.describe(),
        "the assembler was handed an event that it had not asked for"
    );
}

#[test]
fn unreleased_header_comes_first_and_once() {
    let commits = vec![
        plain("c4", "four", MAY_16),
        plain("c3", "three", MAY_16),
        plain("c2", "two", MAY_15),
        plain("c1", "one", 0),
    ];
    let entries = assemble(&commits, &vec![], tags(&[("c3", "v2"), ("c1", "v1")]), true).unwrap();
    let unreleased: Vec<usize> = entries
        .iter()
        .enumerate()
        .filter(|(_, e)| matches!(e, Entry::Section { tag: None, .. }))
        .map(|(k, _)| k)
        .collect();
    assert_eq!(unreleased, [0]);
    let text = process_commits(&commits, &vec![], tags(&[("c3", "v2"), ("c1", "v1")]), "r", true).unwrap();
    assert_eq!(text.matches("[unreleased]").count(), 1);
    assert!(text.starts_with("[unreleased] - 2015-05-16\n"));
}

#[test]
fn listed_commit_that_is_a_merge_is_not_passed_over() {
    let commits = vec![merge("m2", "Merge #9", MAY_15), merge("m1", "Merge branch", MAY_15)];
    let lookups = vec![resolved(9, vec![listed("x", "X"), listed("m1", "Merge branch")])];
    let entries = assemble(&commits, &lookups, tags(&[]), false).unwrap();
    assert_eq!(count(&entries, |e| matches!(e, Entry::UnattributedMerge(_))), 1);
}

#[test]
fn root_commit_is_a_plain_commit_and_octopus_a_merge() {
    let mut root = plain("c1", "Initial", 0);
    root.parent_ids = vec![];
    let mut octopus = merge("m", "Merge three", MAY_15);
    octopus.parent_ids.push("third".to_string());
    let entries = assemble(&vec![octopus, root], &vec![], tags(&[]), true).unwrap();
    assert_eq!(
        entries[1..],
        [
            Entry::UnattributedMerge(CommitLine { id: "m".into(), summary: "Merge three".into(), author: None }),
            Entry::Commit(CommitLine { id: "c1".into(), summary: "Initial".into(), author: None }),
        ]
    );
}

#[test]
fn text_map_replaces_and_finds() {
    let mut map: TextMap<String> = TextMap::new();
    assert_eq!(map.get(&"k".to_string()), None);
    map.insert("k".to_string(), "one".to_string());
    map.insert("other".to_string(), "x".to_string());
    map.insert("k".to_string(), "two".to_string());
    assert_eq!(map.get(&"k".to_string()), Some(&"two".to_string()));
    assert_eq!(map.get(&"other".to_string()), Some(&"x".to_string()));
    assert_eq!(map.get(&"".to_string()), None);
}
