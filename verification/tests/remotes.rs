use loadbot::git::{
    check_after_fetch, check_update, clone_arguments, git_error_message, has_local_commits_not_on_origin,
    normalize_url, null_separated, origin_query_url, origin_url, parse_origin_refs, path_has_changes,
    plan_read_remote, rot_retry_applies, rot_retry_arguments, set_push_url, working_tree_changes, GitError,
    ReadRemoteError, RepositoryStatus, UpdateError,
};

fn strings(items: &[&str]) -> Vec<String> {
    items.iter().map(|item| (*item).to_owned()).collect()
}

fn status(branch: Option<&str>, commit: Option<&str>, dirty: bool) -> RepositoryStatus {
    RepositoryStatus {
        branch: branch.map(str::to_owned),
        commit: commit.map(str::to_owned),
        dirty,
        origin: None,
        push_url: None,
    }
}

#[test]
fn urls_compare_without_trailing_slashes_or_git_suffix() {
    assert_eq!(normalize_url("  https://github.com/acme/tools.git/ \n"), "https://github.com/acme/tools");
    assert_eq!(normalize_url("https://example.com/x"), "https://example.com/x");
}

#[test]
fn origin_refs_are_commit_and_reference_pairs() {
    let refs = parse_origin_refs("abc123\trefs/heads/main\ndef456 refs/tags/v1\n").unwrap();
    assert_eq!(
        refs,
        vec![
            ("abc123".to_owned(), "refs/heads/main".to_owned()),
            ("def456".to_owned(), "refs/tags/v1".to_owned())
        ]
    );
    assert_eq!(parse_origin_refs(""), Ok(Vec::new()));
    assert_eq!(parse_origin_refs("abc123\trefs/heads/main\nbroken\n"), Err(GitError::InvalidOriginRef));
}

#[test]
fn origin_is_queried_by_the_ssh_alias_of_an_https_fetch_url() {
    assert_eq!(
        origin_query_url(Some("https://github.com/acme/tools.git"), Some("git@github.com:acme/tools.git")),
        Some("git@github.com:acme/tools.git".to_owned())
    );
    assert_eq!(
        origin_query_url(Some("https://github.com/acme/tools.git"), Some("git@github.com:other/tools.git")),
        Some("https://github.com/acme/tools.git".to_owned())
    );
    assert_eq!(origin_query_url(Some("https://example.com/x"), None), Some("https://example.com/x".to_owned()));
    assert_eq!(origin_query_url(None, Some("git@github.com:acme/tools.git")), None);
}

#[test]
fn ssh_origins_are_read_over_https() {
    let configured = "git@github.com:acme/tools.git";
    assert_eq!(
        plan_read_remote(configured, Some(configured), None),
        Ok(Some(("https://github.com/acme/tools.git".to_owned(), configured.to_owned())))
    );
    assert_eq!(plan_read_remote(configured, Some("https://github.com/acme/tools.git"), Some(configured)), Ok(None));
    assert_eq!(plan_read_remote(configured, None, None), Err(ReadRemoteError::NoOrigin));
    assert_eq!(
        plan_read_remote(configured, Some("git@github.com:other/tools.git"), None),
        Err(ReadRemoteError::NotConfigured)
    );
    assert_eq!(plan_read_remote("https://github.com/acme/tools.git", None, None), Ok(None));
    assert_eq!(ReadRemoteError::NoOrigin.message(), "repository has no origin URL");
}

#[test]
fn updates_need_a_clean_checked_out_branch() {
    assert_eq!(check_update(&status(Some("main"), Some("a1"), true), None), Err(UpdateError::Dirty));
    assert_eq!(check_update(&status(None, Some("a1"), false), None), Err(UpdateError::Detached));
    assert_eq!(check_update(&status(Some("main"), Some("a1"), false), Some("main")), Ok("origin/main".to_owned()));
    assert_eq!(check_update(&status(Some("main"), Some("a1"), false), None), Ok("origin/main".to_owned()));
    let refused = check_update(&status(Some("main"), Some("a1"), false), Some("v2")).unwrap_err();
    assert_eq!(refused, UpdateError::RevisionNotBranch { revision: "v2".to_owned(), branch: "main".to_owned() });
    assert_eq!(
        refused.message(),
        "configured revision 'v2' is not the checked-out branch 'main'; this version only updates branches"
    );
}

#[test]
fn a_fetch_must_not_change_the_checkout() {
    let before = status(Some("main"), Some("a1"), false);
    assert_eq!(check_after_fetch(&before, &before), Ok("a1".to_owned()));
    assert_eq!(
        check_after_fetch(&before, &status(Some("main"), Some("b2"), false)),
        Err(UpdateError::ChangedDuringFetch)
    );
    assert_eq!(
        check_after_fetch(&before, &status(Some("main"), Some("a1"), true)),
        Err(UpdateError::ChangedDuringFetch)
    );
    let empty = status(Some("main"), None, false);
    assert_eq!(check_after_fetch(&empty, &empty), Err(UpdateError::NoCommits));
}

#[test]
fn git_output_is_interpreted_exactly() {
    assert_eq!(has_local_commits_not_on_origin("3\n"), Ok(true));
    assert_eq!(has_local_commits_not_on_origin("0"), Ok(false));
    assert_eq!(has_local_commits_not_on_origin("many"), Err(GitError::InvalidCommitCount));
    assert_eq!(working_tree_changes(" M a.txt\n?? b.txt\n\n"), " M a.txt\n?? b.txt".trim().to_owned());
    assert!(path_has_changes("?? catalog.toml\n"));
    assert!(!path_has_changes("  \n"));
    assert_eq!(origin_url(true, "https://example.com/x\n"), Some("https://example.com/x".to_owned()));
    assert_eq!(origin_url(false, "ignored"), None);
    assert_eq!(null_separated("a\0b c\0"), strings(&["a", "b c"]));
    assert_eq!(null_separated("a\0\0b"), strings(&["a", "", "b"]));
    assert_eq!(null_separated(""), Vec::<String>::new());
}

#[test]
fn git_commands_are_built_from_their_parts() {
    assert_eq!(
        set_push_url("/r", "git@github.com:a/b.git"),
        strings(&["-C", "/r", "config", "--local", "--replace-all", "remote.origin.pushurl", "git@github.com:a/b.git"])
    );
    let (arguments, read) = clone_arguments("git@github.com:acme/tools.git", Some("main"), "/d");
    assert_eq!(read, "https://github.com/acme/tools.git");
    assert_eq!(arguments, strings(&["clone", "--branch", "main", "--", "https://github.com/acme/tools.git", "/d"]));
    let (arguments, read) = clone_arguments("https://example.com/x.git", None, "/d");
    assert_eq!(read, "https://example.com/x.git");
    assert_eq!(arguments, strings(&["clone", "--", "https://example.com/x.git", "/d"]));
    assert_eq!(git_error_message(" fatal: no\n", "exit status: 128"), "Git command failed: fatal: no");
    assert_eq!(git_error_message("", "exit status: 1"), "Git command failed with status exit status: 1");
}

#[test]
fn public_key_failures_on_github_ssh_are_retried_through_an_alias() {
    let url = "git@github.com:acme/tools.git";
    assert!(rot_retry_applies(url, "git@github.com: Permission denied (publickey)."));
    assert!(!rot_retry_applies(url, "fatal: repository not found"));
    assert!(!rot_retry_applies("https://github.com/acme/tools.git", "Permission denied (publickey)."));
    assert_eq!(
        rot_retry_arguments(&strings(&["fetch", "origin"]), url, "work"),
        Some(strings(&["-c", "url.git@work:acme/tools.git.insteadOf=git@github.com:acme/tools.git", "fetch", "origin"]))
    );
    assert_eq!(rot_retry_arguments(&strings(&["fetch"]), "https://example.com/x", "work"), None);
}
