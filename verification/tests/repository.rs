use git_changelog::directory::{resolve_directory, DirectoryError};
use git_changelog::model::{Commit, CommitUsernameHtmlUrl, Reference};
use git_changelog::repository::{get_commits, get_tags, ReferenceReadError, RepositoryReadError};

fn tag(target: &str, name: &str) -> Option<Reference> {
    Some(Reference {
        is_tag: true,
        target: Some(target.to_string()),
        shorthand: Some(name.to_string()),
    })
}

fn commit(id: &str) -> Commit {
    Commit {
        id: id.to_string(),
        parent_ids: vec!["p".to_string()],
        author_name: None,
        author_email: None,
        message: Some(format!("message of {}", id)),
        time: 0,
    }
}

#[test]
fn new_keeps_login_and_address() {
    let made = CommitUsernameHtmlUrl::new("octocat", "https://github.com/octocat");
    assert_eq!(made.login, "octocat");
    assert_eq!(made.html_url, "https://github.com/octocat");
}

#[test]
fn tags_fail_without_a_listing() {
    assert!(matches!(get_tags(&None), Err(ReferenceReadError)));
}

#[test]
fn tags_of_an_empty_listing() {
    let index = get_tags(&Some(vec![])).unwrap();
    assert_eq!(index.get(&"c1".to_string()), None);
}

#[test]
fn tags_bind_targets_to_names() {
    let listing = Some(vec![
        tag("c1", "v1"),
        None,
        Some(Reference {
            is_tag: false,
            target: Some("c2".to_string()),
            shorthand: Some("main".to_string()),
        }),
        Some(Reference { is_tag: true, target: None, shorthand: Some("dangling".to_string()) }),
        Some(Reference { is_tag: true, target: Some("c3".to_string()), shorthand: None }),
    ]);
    let index = get_tags(&listing).unwrap();
    assert_eq!(index.get(&"c1".to_string()), Some(&"v1".to_string()));
    assert_eq!(index.get(&"c2".to_string()), None);
    assert_eq!(index.get(&"c3".to_string()), Some(&"unknown".to_string()));
}

#[test]
fn tags_last_listed_wins() {
    let listing = Some(vec![tag("c1", "v1"), tag("c2", "v2"), tag("c1", "v1.0.1")]);
    let index = get_tags(&listing).unwrap();
    assert_eq!(index.get(&"c1".to_string()), Some(&"v1.0.1".to_string()));
    assert_eq!(index.get(&"c2".to_string()), Some(&"v2".to_string()));
}

#[test]
fn commits_fail_without_a_walk() {
    assert!(matches!(get_commits(&None), Err(RepositoryReadError)));
}

#[test]
fn commits_skip_unreadable_entries_and_keep_order() {
    let walk = Some(vec![Some(commit("c3")), None, Some(commit("c2")), None, Some(commit("c1"))]);
    let read = get_commits(&walk).unwrap();
    assert_eq!(read, vec![commit("c3"), commit("c2"), commit("c1")]);
}

#[test]
fn directory_is_resolved() {
    assert_eq!(resolve_directory(Some("/srv/repo".to_string()), true), Ok("/srv/repo".to_string()));
}

#[test]
fn directory_that_cannot_be_resolved() {
    assert_eq!(resolve_directory(None, false), Err(DirectoryError::Unresolved));
    assert_eq!(resolve_directory(None, true), Err(DirectoryError::Unresolved));
    assert_eq!(DirectoryError::Unresolved.describe(), "Path cannot be resolved");
}

#[test]
fn directory_that_is_a_file() {
    assert_eq!(
        resolve_directory(Some("/srv/repo/README".to_string()), false),
        Err(DirectoryError::NotADirectory)
    );
    assert_eq!(DirectoryError::NotADirectory.describe(), "Path is not a directory");
}
