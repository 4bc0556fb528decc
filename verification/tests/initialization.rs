use loadbot::operations::{plan_initialization, CatalogFileState, InitializationFacts};
use loadbot::initialization::{
    destination_problem, DestinationProblem, FinishAction, FinishEvent, FinishNotice, FinishPhase, Finishing,
};

const URL: &str = "https://github.com/octo/catalog.git";

#[test]
fn existing_destination_must_be_the_configured_repository() {
    assert_eq!(destination_problem(false, &None, URL), Some(DestinationProblem::NotRepository));
    assert_eq!(
        DestinationProblem::NotRepository.message(),
        "catalog destination exists but is not a Git repository"
    );
    assert_eq!(destination_problem(true, &None, URL), Some(DestinationProblem::NotConfigured));
    assert_eq!(
        destination_problem(true, &Some("https://github.com/other/catalog.git".to_owned()), URL),
        Some(DestinationProblem::NotConfigured)
    );
    assert_eq!(
        DestinationProblem::NotConfigured.message(),
        "catalog destination exists but is not the configured Git repository"
    );
    assert_eq!(destination_problem(true, &Some(URL.to_owned()), URL), None);
    assert_eq!(destination_problem(true, &Some("git@github.com:octo/catalog.git".to_owned()), URL), None);
}

#[test]
fn without_commit_nothing_is_committed_or_pushed() {
    let (state, shown, action) = Finishing::start(false, false, false);
    assert_eq!(shown, vec![FinishNotice::Uncommitted]);
    assert_eq!(action, FinishAction::Finish(Ok(())));
    assert_eq!(state.phase, FinishPhase::Done);
}

#[test]
fn an_initialized_catalog_is_neither_committed_nor_pushed_again() {
    let (state, shown, action) = Finishing::start(true, true, true);
    assert_eq!(shown, vec![FinishNotice::AlreadyInitialized]);
    assert_eq!(action, FinishAction::Finish(Ok(())));
    assert_eq!(state.phase, FinishPhase::Done);
}

#[test]
fn commit_and_push_run_in_order_on_an_empty_remote() {
    let (state, shown, action) = Finishing::start(false, true, true);
    assert!(shown.is_empty());
    assert_eq!(action, FinishAction::ReadChanges);
    let (state, _, action) = state.step(FinishEvent::CatalogChanged(true));
    assert_eq!(action, FinishAction::Commit);
    let (state, shown, action) = state.step(FinishEvent::Committed("abc123".to_owned()));
    assert_eq!(shown, vec![FinishNotice::Committed("abc123".to_owned())]);
    assert_eq!(action, FinishAction::ReadRemote);
    let (state, _, action) = state.step(FinishEvent::RemoteHasRefs(false));
    assert_eq!(action, FinishAction::Push);
    let (state, shown, action) = state.step(FinishEvent::Pushed);
    assert_eq!(shown, vec![FinishNotice::Pushed]);
    assert_eq!(action, FinishAction::Finish(Ok(())));
    assert_eq!(state.phase, FinishPhase::Done);
}

#[test]
fn commit_without_push_says_it_stays_local() {
    let (state, _, _) = Finishing::start(false, true, false);
    let (state, _, _) = state.step(FinishEvent::CatalogChanged(true));
    let (_, shown, action) = state.step(FinishEvent::Committed("abc".to_owned()));
    assert_eq!(shown, vec![FinishNotice::Committed("abc".to_owned()), FinishNotice::NotPushed]);
    assert_eq!(action, FinishAction::Finish(Ok(())));
}

#[test]
fn an_unchanged_catalog_needs_an_existing_commit() {
    let (state, _, _) = Finishing::start(false, true, false);
    let (state, _, action) = state.step(FinishEvent::CatalogChanged(false));
    assert_eq!(action, FinishAction::ReadHead);
    let (_, shown, action) = state.step(FinishEvent::HeadPresent(true));
    assert_eq!(shown, vec![FinishNotice::AlreadyCommitted, FinishNotice::NotPushed]);
    assert_eq!(action, FinishAction::Finish(Ok(())));

    let (state, _, _) = Finishing::start(false, true, false);
    let (state, _, _) = state.step(FinishEvent::CatalogChanged(false));
    let (_, _, action) = state.step(FinishEvent::HeadPresent(false));
    assert_eq!(
        action,
        FinishAction::Finish(Err("catalog.toml exists but Git did not detect it as an initial change".to_owned()))
    );
}

#[test]
fn a_remote_that_gained_refs_is_not_pushed_to() {
    let (state, _, _) = Finishing::start(false, true, true);
    let (state, _, _) = state.step(FinishEvent::CatalogChanged(true));
    let (state, _, _) = state.step(FinishEvent::Committed("abc".to_owned()));
    let (state, _, action) = state.step(FinishEvent::RemoteHasRefs(true));
    assert_eq!(
        action,
        FinishAction::Finish(Err("refusing to push because the remote is no longer empty".to_owned()))
    );
    assert_eq!(state.phase, FinishPhase::Done);
}

#[test]
fn an_event_out_of_turn_repeats_the_pending_action() {
    let (state, _, _) = Finishing::start(false, true, true);
    let (state, shown, action) = state.step(FinishEvent::Pushed);
    assert!(shown.is_empty());
    assert_eq!(action, FinishAction::ReadChanges);
    assert_eq!(state.phase, FinishPhase::ReadingChanges);
}

#[test]
fn initializing_again_after_the_push_changes_nothing() {
    let facts = InitializationFacts {
        changes: String::new(),
        origin_refs: vec![("abc123".to_owned(), "refs/heads/main".to_owned())],
        head: Some("abc123".to_owned()),
        branch: Some("main".to_owned()),
        tracked_files: vec!["catalog.toml".to_owned()],
        catalog: CatalogFileState::Initial,
    };
    let plan = plan_initialization(&facts).unwrap();
    assert!(plan.already_initialized);
    assert!(!plan.create_catalog);
    let (state, shown, action) = Finishing::start(plan.already_initialized, true, true);
    assert_eq!(shown, vec![FinishNotice::AlreadyInitialized]);
    assert_eq!(action, FinishAction::Finish(Ok(())));
    assert_eq!(state.phase, FinishPhase::Done);
}
