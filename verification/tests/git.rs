use loadbot::git::{
    github_repository_identity, github_https_read_url, github_https_repository, github_repository_path, github_ssh_push_url,
    github_ssh_repository, identity_from_choice, reconcile_remote, runtime_url_rewrite, select_rot_identity,
    urls_match, verified_rot_identities, GitError, ReconcileAction, ReconcileEvent, RemoteKey, RotIdentity,
    RotIdentityDocument,
};
use loadbot::interaction::{Consulted, ErrorLayer, Interaction, OperationError, OperationReport, OperationStatus};

struct TestPrompt {
    selection: Option<String>,
    select_calls: usize,
    choices: Vec<String>,
}

impl TestPrompt {
    fn new(selection: Option<&str>) -> Self {
        Self { selection: selection.map(str::to_owned), select_calls: 0, choices: Vec::new() }
    }
}

impl Interaction for TestPrompt {
    fn choose_identity(&mut self, identities: &[RotIdentity]) -> Result<Option<usize>, OperationError> {
        self.select_calls += 1;
        self.choices = loadbot::output::identity_choices(identities);
        Ok(self
            .selection
            .as_ref()
            .and_then(|selection| self.choices.iter().position(|choice| choice == selection)))
    }
}

fn identity(alias: &str, username: &str) -> RotIdentity {
    RotIdentity {
        alias: alias.to_owned(),
        username: Some(username.to_owned()),
        verification: "verified".to_owned(),
    }
}

#[test]
fn url_comparison_uses_canonical_github_identity_across_read_transports() {
    assert!(urls_match("https://github.com/owner/repo.git/", "https://github.com/owner/repo"));
    assert!(urls_match("https://github.com/owner/repo", "git@github.com:owner/repo"));
    assert!(urls_match("ssh://git@github.com/OWNER/REPO.git", "https://github.com/owner/repo.git"));
    assert!(!urls_match("https://github.com/other/repo.git", "git@github.com:owner/repo.git"));
    assert!(!urls_match("git@gitlab.com:owner/repo.git", "https://github.com/owner/repo.git"));
}

#[test]
fn github_ssh_read_urls_are_narrowly_converted_to_https() {
    assert_eq!(
        github_https_read_url("git@github.com:OWNER/REPO.git").as_deref(),
        Some("https://github.com/OWNER/REPO.git")
    );
    assert_eq!(
        github_https_read_url("ssh://git@github.com/OWNER/REPO.git").as_deref(),
        Some("https://github.com/OWNER/REPO.git")
    );
    for unchanged in [
        "https://github.com/OWNER/REPO.git",
        "git@gitlab.com:OWNER/REPO.git",
        "git@github.example.com:OWNER/REPO.git",
        "ssh://git@github.com:2222/OWNER/REPO.git",
        "git@github.com:OWNER/nested/REPO.git",
        "git@github.com:OWNER/REPO.git?token=secret",
    ] {
        assert_eq!(github_https_read_url(unchanged), None, "{unchanged}");
    }
}

#[test]
fn github_repository_identity_accepts_only_approved_transports_and_aliases() {
    let configured = github_https_repository("https://github.com/Owner/Repo.git").unwrap();
    for actual in ["git@github.com:owner/repo.git", "ssh://git@github.com/OWNER/REPO.git", "git@github-work:Owner/Repo.git"] {
        let parsed = github_ssh_repository(actual, &vec!["github-work".to_owned()]).unwrap();
        assert!(parsed.owner.eq_ignore_ascii_case(&configured.owner));
        assert!(parsed.name.eq_ignore_ascii_case(&configured.name));
    }

    assert!(github_ssh_repository("git@unknown:Owner/Repo.git", &vec![]).is_none());
    assert!(github_ssh_repository("git@gitlab.com:Owner/Repo.git", &vec![]).is_none());
    assert!(github_https_repository("https://example.com/Owner/Repo.git").is_none());
}

#[test]
fn github_repository_identity_keeps_owner_and_repository_boundaries() {
    let configured = github_https_repository("https://github.com/owner/repo.git").unwrap();
    let other_owner = github_ssh_repository("git@github.com:other/repo.git", &vec![]).unwrap();
    let other_repo = github_ssh_repository("git@github.com:owner/other.git", &vec![]).unwrap();

    assert_ne!(configured, other_owner);
    assert_ne!(configured, other_repo);
    assert!(github_repository_path("owner/nested/repo.git").is_none());
}

#[test]
fn github_push_url_uses_the_verified_alias_and_canonical_path() {
    assert_eq!(
        github_ssh_push_url("https://github.com/0xkamaji/rot-tools.git", "github-kamaji"),
        Some("git@github-kamaji:0xkamaji/rot-tools.git".to_owned())
    );
    assert_eq!(github_ssh_push_url("git@github.com:0xkamaji/private.git", "github-kamaji"), None);
    assert_eq!(github_ssh_push_url("https://github.com/owner/repo.git", "bad alias"), None);
}

#[test]
fn https_and_non_github_urls_never_receive_ssh_rewrites() {
    assert_eq!(runtime_url_rewrite("https://github.com/owner/repo.git", "github-work"), None);
    assert_eq!(runtime_url_rewrite("git@gitlab.com:owner/repo.git", "github-work"), None);
}

#[test]
fn github_ssh_rewrites_are_command_scoped_and_leave_canonical_url_unchanged() {
    let canonical = "git@github.com:0xkamaji/private-repo.git";
    assert_eq!(
        runtime_url_rewrite(canonical, "github-kamaji"),
        Some(
            "url.git@github-kamaji:0xkamaji/private-repo.git.insteadOf=git@github.com:0xkamaji/private-repo.git"
                .to_owned()
        )
    );
    assert_eq!(canonical, "git@github.com:0xkamaji/private-repo.git");

    assert_eq!(
        runtime_url_rewrite("ssh://git@github.com/0xkamaji/private-repo.git", "github-kamaji"),
        Some(
            "url.ssh://git@github-kamaji/0xkamaji/private-repo.git.insteadOf=ssh://git@github.com/0xkamaji/private-repo.git"
                .to_owned()
        )
    );
}

#[test]
fn rot_document_accepts_only_verified_safe_identities() {
    let document = RotIdentityDocument {
        version: 1,
        identities: vec![
            identity("github-kamaji", "0xkamaji"),
            RotIdentity { alias: "github-work".to_owned(), username: None, verification: "unverified".to_owned() },
            identity("bad alias", "bad"),
            identity("github-kamaji", "duplicate"),
        ],
    };
    assert_eq!(verified_rot_identities(&document).unwrap(), vec![identity("github-kamaji", "0xkamaji")]);
}

#[test]
fn unsupported_rot_contract_version_is_rejected() {
    let error = verified_rot_identities(&RotIdentityDocument { version: 2, identities: vec![] }).unwrap_err();
    assert_eq!(error, GitError::UnsupportedRotVersion(2));
    assert!(error.message().contains("unsupported SSH identity document version 2"));
}

#[test]
fn exactly_one_verified_identity_is_selected_without_prompting() {
    let mut prompt = Consulted::new(TestPrompt::new(None));
    let selected = select_rot_identity(vec![identity("github-kamaji", "0xkamaji")], false, &mut prompt).unwrap();
    assert_eq!(selected.alias, "github-kamaji");
    assert_eq!(prompt.interaction.select_calls, 0);
}

#[test]
fn multiple_identities_fail_without_prompting_non_interactively() {
    let mut prompt = Consulted::new(TestPrompt::new(None));
    let error = select_rot_identity(
        vec![identity("github-kamaji", "0xkamaji"), identity("github-work", "work-account")],
        false,
        &mut prompt,
    )
    .unwrap_err();
    assert!(error.text().contains("Re-run interactively"));
    assert!(error.text().contains("(github-kamaji, github-work)"));
    assert_eq!(prompt.interaction.select_calls, 0);
}

#[test]
fn multiple_identities_use_a_friendly_interactive_chooser() {
    let mut prompt = Consulted::new(TestPrompt::new(Some("github-work -> work-account")));
    let selected = select_rot_identity(
        vec![identity("github-kamaji", "0xkamaji"), identity("github-work", "work-account")],
        true,
        &mut prompt,
    )
    .unwrap();
    assert_eq!(selected.alias, "github-work");
    assert_eq!(prompt.interaction.select_calls, 1);
    assert_eq!(prompt.interaction.choices, vec!["github-kamaji -> 0xkamaji", "github-work -> work-account"]);
}

#[test]
fn no_verified_identity_has_rot_setup_guidance() {
    let mut prompt = Consulted::new(TestPrompt::new(None));
    let error = select_rot_identity(Vec::new(), false, &mut prompt).unwrap_err();
    assert!(error.text().contains("Configure SSH through Rot"));
    assert_eq!(prompt.interaction.select_calls, 0);
}

#[test]
fn declined_identity_choice_is_a_cancellation_and_a_bad_index_an_error() {
    let identities = vec![identity("github-kamaji", "0xkamaji"), identity("github-work", "work-account")];
    let declined = identity_from_choice(&identities, Ok(None)).unwrap_err();
    assert_eq!(declined.text(), "SSH identity selection was cancelled: operation cancelled");
    let report: OperationReport<()> = OperationReport { result: Err(declined), notices: vec![] };
    assert_eq!(report.status(), OperationStatus::Cancelled);
    let invalid = identity_from_choice(&identities, Ok(Some(2))).unwrap_err();
    assert_eq!(invalid.text(), "an invalid SSH identity was selected");
    assert_eq!(identity_from_choice(&identities, Ok(Some(1))).unwrap().alias, "github-work");
}

fn finish(action: ReconcileAction) -> Result<(), OperationError> {
    match action {
        ReconcileAction::Finish(result) => result,
        other => panic!("expected the end, got {other:?}"),
    }
}

#[test]
fn reconciliation_writes_push_then_fetch_and_verifies_both() {
    let (state, action) = reconcile_remote("/repo", "https://github.com/o/r.git", "git@github-work:o/r.git");
    assert!(matches!(action, ReconcileAction::CheckCancelled));
    let (state, action) = state.step(ReconcileEvent::Proceed);
    assert!(matches!(action, ReconcileAction::Read(RemoteKey::Fetch)));
    let (state, _) = state.step(ReconcileEvent::Urls(vec!["git@github.com:o/r.git".to_owned()]));
    let (state, action) = state.step(ReconcileEvent::Urls(vec![]));
    assert!(matches!(action, ReconcileAction::Write { key: RemoteKey::Push, ref url } if url == "git@github-work:o/r.git"));
    let (state, action) = state.step(ReconcileEvent::Written);
    assert!(matches!(action, ReconcileAction::Write { key: RemoteKey::Fetch, ref url } if url == "https://github.com/o/r.git"));
    let (state, _) = state.step(ReconcileEvent::Written);
    let (state, action) = state.step(ReconcileEvent::Urls(vec!["https://github.com/o/r.git".to_owned()]));
    assert!(matches!(action, ReconcileAction::Read(RemoteKey::Push)));
    let (_, action) = state.step(ReconcileEvent::Urls(vec!["git@github-work:o/r.git".to_owned()]));
    assert_eq!(finish(action), Ok(()));
}

#[test]
fn reconciliation_honors_cancellation_only_before_the_change() {
    let (state, _) = reconcile_remote("/repo", "f", "p");
    let (_, action) = state.step(ReconcileEvent::Cancelled);
    let error = finish(action).unwrap_err();
    assert_eq!(error.layers, vec![ErrorLayer::Cancelled(loadbot::process::Cancelled)]);
}

#[test]
fn failed_write_restores_both_keys_and_reports_verified_recovery() {
    let (state, _) = reconcile_remote("/repo", "f", "p");
    let (state, _) = state.step(ReconcileEvent::Proceed);
    let (state, _) = state.step(ReconcileEvent::Urls(vec!["old-fetch".to_owned()]));
    let (state, _) = state.step(ReconcileEvent::Urls(vec![]));
    let (state, _) = state.step(ReconcileEvent::Written);
    let (state, action) = state.step(ReconcileEvent::WriteFailed("disk full".to_owned()));
    assert!(matches!(action, ReconcileAction::Restore { key: RemoteKey::Fetch, ref urls } if urls == &vec!["old-fetch".to_owned()]));
    let (state, action) = state.step(ReconcileEvent::Written);
    assert!(matches!(action, ReconcileAction::Restore { key: RemoteKey::Push, ref urls } if urls.is_empty()));
    let (state, action) = state.step(ReconcileEvent::WriteFailed("unset failed".to_owned()));
    assert!(matches!(action, ReconcileAction::Read(RemoteKey::Fetch)));
    let (state, _) = state.step(ReconcileEvent::Urls(vec!["old-fetch".to_owned()]));
    let (_, action) = state.step(ReconcileEvent::Urls(vec![]));
    let error = finish(action).unwrap_err();
    assert_eq!(
        error.text(),
        "original remote configuration verified unchanged despite recovery command failures: remote.origin.pushurl: unset failed: disk full"
    );
    let report: OperationReport<()> = OperationReport { result: Err(error), notices: vec![] };
    assert!(!report.is_partial());
}

#[test]
fn recovery_that_leaves_other_values_is_incomplete_and_partial() {
    let (state, _) = reconcile_remote("/repo", "f", "p");
    let (state, _) = state.step(ReconcileEvent::Proceed);
    let (state, _) = state.step(ReconcileEvent::Urls(vec![]));
    let (state, _) = state.step(ReconcileEvent::Urls(vec![]));
    let (state, _) = state.step(ReconcileEvent::Written);
    let (state, _) = state.step(ReconcileEvent::Written);
    let (state, action) = state.step(ReconcileEvent::Urls(vec!["other".to_owned()]));
    assert!(matches!(action, ReconcileAction::Restore { key: RemoteKey::Fetch, .. }));
    let (state, _) = state.step(ReconcileEvent::Written);
    let (state, _) = state.step(ReconcileEvent::Written);
    let (state, _) = state.step(ReconcileEvent::Urls(vec!["f".to_owned()]));
    let (_, action) = state.step(ReconcileEvent::ReadFailed("locked".to_owned()));
    let error = finish(action).unwrap_err();
    assert_eq!(
        error.text(),
        "remote configuration recovery is incomplete in /repo; inspect Git configuration before retrying: remote.origin.url: expected [], remaining [\"f\"]; remote.origin.pushurl: remaining state unknown: locked: Git did not retain the requested fetch and push URLs"
    );
    let report: OperationReport<()> = OperationReport { result: Err(error), notices: vec![] };
    assert_eq!(report.status(), OperationStatus::Failed);
    assert!(report.is_partial());
}

#[test]
fn derived_urls_name_the_repository_they_were_made_from() {
    let read = github_https_read_url("git@github.com:Owner/Repo.git").unwrap();
    assert!(urls_match("git@github.com:Owner/Repo.git", &read));
    assert!(urls_match(&read, "git@github.com:Owner/Repo.git"));
    let push = github_ssh_push_url("https://github.com/owner/repo.git", "github-work").unwrap();
    assert_eq!(push, "git@github-work:owner/repo.git");
    let through_alias = github_repository_identity(&push, &vec!["github-work".to_owned()]).unwrap();
    let canonical = github_https_repository("https://github.com/owner/repo.git").unwrap();
    assert_eq!(through_alias, canonical);
    assert_eq!(github_repository_identity(&push, &vec![]), None);
}
