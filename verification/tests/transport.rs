use loadbot::git::RotIdentity;
use loadbot::interaction::OperationError;
use loadbot::transport::{
    CheckoutAction, CheckoutEvent, CheckoutPhase, CheckoutReconciliation, NetworkAction, NetworkEvent, NetworkPhase,
    NetworkRun, OfferAction, OfferEvent, OfferPhase, PushOffer,
};

const SSH: &str = "git@github.com:octo/tool.git";
const HTTPS: &str = "https://github.com/octo/tool.git";

fn strings(items: &[&str]) -> Vec<String> {
    items.iter().map(|item| (*item).to_owned()).collect()
}

fn identity(alias: &str) -> RotIdentity {
    RotIdentity { alias: alias.to_owned(), username: Some("octo".to_owned()), verification: "verified".to_owned() }
}

fn ran(success: bool, stdout: &str, stderr: &str) -> NetworkEvent {
    NetworkEvent::Ran {
        success,
        stdout: stdout.to_owned(),
        stderr: stderr.to_owned(),
        status: "exit status: 128".to_owned(),
    }
}

fn expect_run(action: &NetworkAction) -> Vec<String> {
    match action {
        NetworkAction::Run(arguments) => arguments.clone(),
        _ => panic!("expected a Git command"),
    }
}

fn expect_finish(action: NetworkAction) -> Result<String, String> {
    match action {
        NetworkAction::Finish(result) => result,
        _ => panic!("expected the end of the run"),
    }
}

#[test]
fn network_success_gives_trimmed_output() {
    let arguments = strings(&["ls-remote", SSH]);
    let (run, action) = NetworkRun::start(arguments.clone(), SSH);
    assert_eq!(expect_run(&action), arguments);
    let (run, action) = run.step(ran(true, "  abc123\n", ""));
    assert_eq!(run.phase, NetworkPhase::Done);
    assert_eq!(expect_finish(action), Ok("abc123".to_owned()));
}

#[test]
fn network_public_key_failure_is_retried_once_through_the_chosen_identity() {
    let arguments = strings(&["fetch", "origin"]);
    let (run, _) = NetworkRun::start(arguments, SSH);
    let (run, action) = run.step(ran(false, "", "git@github.com: Permission denied (publickey).\n"));
    assert!(matches!(action, NetworkAction::LoadIdentities));
    let (run, action) = run.step(NetworkEvent::Identities(Ok(vec![identity("work"), identity("home")])));
    match &action {
        NetworkAction::ChooseIdentity(offered) => assert_eq!(offered.len(), 2),
        _ => panic!("expected the identities to choose from"),
    }
    let (run, action) = run.step(NetworkEvent::Chosen(Ok(identity("work"))));
    assert_eq!(
        expect_run(&action),
        strings(&["-c", "url.git@work:octo/tool.git.insteadOf=git@github.com:octo/tool.git", "fetch", "origin"])
    );
    assert_eq!(run.phase, NetworkPhase::Retry);
    let (run, action) = run.step(ran(false, "", "fatal: still denied"));
    assert_eq!(run.phase, NetworkPhase::Done);
    assert_eq!(
        expect_finish(action),
        Err("Git command failed: git@github.com: Permission denied (publickey).\n\nRetry with Rot-managed SSH identity 'work' failed: Git command failed: fatal: still denied".to_owned())
    );
}

#[test]
fn network_retry_success_gives_its_output() {
    let (run, _) = NetworkRun::start(strings(&["fetch"]), SSH);
    let (run, _) = run.step(ran(false, "", "Permission denied (publickey)."));
    let (run, _) = run.step(NetworkEvent::Identities(Ok(vec![identity("work")])));
    let (run, _) = run.step(NetworkEvent::Chosen(Ok(identity("work"))));
    let (_, action) = run.step(ran(true, "done\n", ""));
    assert_eq!(expect_finish(action), Ok("done".to_owned()));
}

#[test]
fn network_other_failures_are_not_retried() {
    let (run, _) = NetworkRun::start(strings(&["fetch"]), SSH);
    let (_, action) = run.step(ran(false, "", "fatal: repository not found\n"));
    assert_eq!(expect_finish(action), Err("Git command failed: fatal: repository not found".to_owned()));

    let (run, _) = NetworkRun::start(strings(&["fetch"]), HTTPS);
    let (_, action) = run.step(ran(false, "", "Permission denied (publickey)."));
    assert_eq!(expect_finish(action), Err("Git command failed: Permission denied (publickey).".to_owned()));

    let (run, _) = NetworkRun::start(strings(&["fetch"]), SSH);
    let (_, action) = run.step(ran(false, "", "   "));
    assert_eq!(expect_finish(action), Err("Git command failed with status exit status: 128".to_owned()));
}

#[test]
fn network_failed_identity_lookup_or_choice_keeps_the_first_failure() {
    let (run, _) = NetworkRun::start(strings(&["fetch"]), SSH);
    let (run, _) = run.step(ran(false, "", "Permission denied (publickey)."));
    let (_, action) = run.step(NetworkEvent::Identities(Err("rot is not installed".to_owned())));
    assert_eq!(
        expect_finish(action),
        Err("Git command failed: Permission denied (publickey).\n\nrot is not installed".to_owned())
    );

    let (run, _) = NetworkRun::start(strings(&["fetch"]), SSH);
    let (run, _) = run.step(ran(false, "", "Permission denied (publickey)."));
    let (run, _) = run.step(NetworkEvent::Identities(Ok(vec![])));
    let (_, action) = run.step(NetworkEvent::Chosen(Err(OperationError::message("no identity".to_owned()))));
    assert_eq!(
        expect_finish(action),
        Err("Git command failed: Permission denied (publickey).\n\nno identity".to_owned())
    );
}

#[test]
fn read_falls_back_to_ssh_and_names_both_failures() {
    let preferred = strings(&["ls-remote", HTTPS]);
    let ssh = strings(&["ls-remote", SSH]);
    let (run, action) = NetworkRun::read_with_fallback(preferred.clone(), HTTPS, ssh.clone(), SSH);
    assert_eq!(expect_run(&action), preferred);
    let (run, action) = run.step(ran(false, "", "could not read Username"));
    assert_eq!(expect_run(&action), ssh);
    let (_, action) = run.step(ran(false, "", "fatal: no route"));
    assert_eq!(
        expect_finish(action),
        Err(format!(
            "HTTPS read from {HTTPS} failed: Git command failed: could not read Username\n\nSSH fallback failed: Git command failed: fatal: no route"
        ))
    );

    let (run, _) = NetworkRun::read_with_fallback(preferred, HTTPS, ssh, SSH);
    let (_, action) = run.step(ran(true, "HEAD\n", ""));
    assert_eq!(expect_finish(action), Ok("HEAD".to_owned()));
}

#[test]
fn a_command_that_cannot_run_ends_the_run_with_its_reason() {
    let (run, _) = NetworkRun::start(strings(&["fetch"]), SSH);
    let (_, action) = run.step(NetworkEvent::Unavailable("could not run git: not found".to_owned()));
    assert_eq!(expect_finish(action), Err("could not run git: not found".to_owned()));

    let (run, _) = NetworkRun::read_with_fallback(strings(&["ls-remote", HTTPS]), HTTPS, strings(&["ls-remote", SSH]), SSH);
    let (run, _) = run.step(ran(false, "", "denied"));
    let (_, action) = run.step(NetworkEvent::Unavailable("could not run git: not found".to_owned()));
    assert_eq!(
        expect_finish(action),
        Err(format!(
            "HTTPS read from {HTTPS} failed: Git command failed: denied\n\nSSH fallback failed: could not run git: not found"
        ))
    );
}

#[test]
fn network_event_out_of_turn_repeats_the_pending_action() {
    let arguments = strings(&["fetch"]);
    let (run, _) = NetworkRun::start(arguments.clone(), SSH);
    let (run, action) = run.step(NetworkEvent::Identities(Ok(vec![])));
    assert_eq!(run.phase, NetworkPhase::First);
    assert_eq!(expect_run(&action), arguments);
}

fn checkout_finish(action: CheckoutAction) -> Result<(), String> {
    match action {
        CheckoutAction::Finish(result) => result,
        _ => panic!("expected the end of the reconciliation"),
    }
}

#[test]
fn reconciliation_refuses_without_a_terminal_or_an_origin() {
    let (r, action) = CheckoutReconciliation::start("demo", HTTPS, false);
    assert!(matches!(action, CheckoutAction::ReadFetch));
    let (_, action) = r.step(CheckoutEvent::Fetch(Some(SSH.to_owned())));
    assert_eq!(
        checkout_finish(action),
        Err(format!(
            "destination is the configured GitHub repository but uses a different transport\nFetch URL: {SSH}\nCatalog URL: {HTTPS}\nRun 'loadbot pull demo' interactively to reconcile its fetch and push URLs."
        ))
    );

    let (r, _) = CheckoutReconciliation::start("demo", HTTPS, true);
    let (_, action) = r.step(CheckoutEvent::Fetch(None));
    assert_eq!(checkout_finish(action), Err("repository has no origin URL".to_owned()));
}

#[test]
fn declined_reconciliation_changes_nothing() {
    let (r, _) = CheckoutReconciliation::start("demo", HTTPS, true);
    let (r, action) = r.step(CheckoutEvent::Fetch(Some(SSH.to_owned())));
    match &action {
        CheckoutAction::AskReconcile { fetch, canonical } => {
            assert_eq!(fetch, SSH);
            assert_eq!(canonical, HTTPS);
        }
        _ => panic!("expected the question"),
    }
    let (r, action) = r.step(CheckoutEvent::Decision(Ok(false)));
    assert_eq!(r.phase, CheckoutPhase::Done);
    assert!(!r.approved);
    assert_eq!(
        checkout_finish(action),
        Err(format!("repository URL mismatch was not changed\nFetch URL: {SSH}\nCatalog URL: {HTTPS}"))
    );
}

#[test]
fn existing_push_url_is_kept_unless_replacing_is_allowed() {
    let other = "git@work:octo/tool.git";
    let (r, _) = CheckoutReconciliation::start("demo", HTTPS, true);
    let (r, _) = r.step(CheckoutEvent::Fetch(Some(SSH.to_owned())));
    let (r, action) = r.step(CheckoutEvent::Decision(Ok(true)));
    assert!(matches!(action, CheckoutAction::ReadPush));
    let (r, action) = r.step(CheckoutEvent::Push(Some(other.to_owned())));
    match &action {
        CheckoutAction::AskReplacePush { existing, replacement } => {
            assert_eq!(existing, other);
            assert_eq!(replacement, SSH);
        }
        _ => panic!("expected the replacement question"),
    }
    let (_, action) = r.step(CheckoutEvent::Decision(Ok(false)));
    assert_eq!(
        checkout_finish(action),
        Err("existing push URL was preserved; repository URLs were not changed".to_owned())
    );
}

#[test]
fn approved_reconciliation_sets_https_fetch_and_ssh_push() {
    let (r, _) = CheckoutReconciliation::start("demo", HTTPS, true);
    let (r, _) = r.step(CheckoutEvent::Fetch(Some(SSH.to_owned())));
    let (r, _) = r.step(CheckoutEvent::Decision(Ok(true)));
    let (r, action) = r.step(CheckoutEvent::Push(None));
    assert!(matches!(action, CheckoutAction::ReadUrls));
    let (r, action) = r.step(CheckoutEvent::Urls { fetch: Some(SSH.to_owned()), push: None });
    match &action {
        CheckoutAction::Reconcile { fetch, push } => {
            assert_eq!(fetch, HTTPS);
            assert_eq!(push, SSH);
        }
        _ => panic!("expected the change"),
    }
    let (r, action) = r.step(CheckoutEvent::Reconciled(Ok(())));
    assert!(matches!(action, CheckoutAction::ReportAndVerify));
    let (r, action) = r.step(CheckoutEvent::Fetch(Some(HTTPS.to_owned())));
    assert_eq!(r.phase, CheckoutPhase::Done);
    assert_eq!(checkout_finish(action), Ok(()));
}

#[test]
fn reconciliation_stops_when_urls_changed_meanwhile() {
    let (r, _) = CheckoutReconciliation::start("demo", HTTPS, true);
    let (r, _) = r.step(CheckoutEvent::Fetch(Some(SSH.to_owned())));
    let (r, _) = r.step(CheckoutEvent::Decision(Ok(true)));
    let (r, _) = r.step(CheckoutEvent::Push(None));
    let (_, action) = r.step(CheckoutEvent::Urls { fetch: Some(SSH.to_owned()), push: Some("x".to_owned()) });
    assert_eq!(
        checkout_finish(action),
        Err("repository URLs changed while awaiting a decision; retry the operation".to_owned())
    );
}

fn offer_finish(action: OfferAction) -> Result<Option<String>, String> {
    match action {
        OfferAction::Finish(result) => result,
        _ => panic!("expected the end of the offer"),
    }
}

#[test]
fn push_offer_needs_a_terminal_no_push_url_and_a_github_repository() {
    let (offer, action) = PushOffer::start(HTTPS, false);
    assert_eq!(offer.phase, OfferPhase::Done);
    assert_eq!(offer_finish(action), Ok(None));

    let (offer, action) = PushOffer::start(HTTPS, true);
    assert!(matches!(action, OfferAction::ReadPush));
    let (_, action) = offer.step(OfferEvent::Push(Some(SSH.to_owned())));
    assert_eq!(offer_finish(action), Ok(None));

    let (offer, _) = PushOffer::start("https://gitlab.com/octo/tool.git", true);
    let (_, action) = offer.step(OfferEvent::Push(None));
    assert_eq!(offer_finish(action), Ok(None));

    let (offer, _) = PushOffer::start(HTTPS, true);
    let (offer, action) = offer.step(OfferEvent::Push(None));
    assert!(matches!(action, OfferAction::LoadIdentities));
    let (_, action) = offer.step(OfferEvent::Identities(vec![]));
    assert_eq!(offer_finish(action), Ok(None));
}

#[test]
fn accepted_push_offer_sets_the_ssh_push_url_of_the_chosen_identity() {
    let (offer, _) = PushOffer::start(HTTPS, true);
    let (offer, _) = offer.step(OfferEvent::Push(None));
    let (offer, action) = offer.step(OfferEvent::Identities(vec![identity("work")]));
    assert!(matches!(action, OfferAction::AskConfigure));
    let (offer, action) = offer.step(OfferEvent::Decision(Ok(true)));
    assert!(matches!(action, OfferAction::ChooseIdentity(ref v) if v.len() == 1));
    let (offer, action) = offer.step(OfferEvent::Chosen(Ok(identity("work"))));
    assert!(matches!(action, OfferAction::ReadUrls));
    let (offer, action) = offer.step(OfferEvent::Urls { fetch: Some(HTTPS.to_owned()), push: None });
    match &action {
        OfferAction::SetPush(url) => assert_eq!(url, "git@work:octo/tool.git"),
        _ => panic!("expected the push URL to be set"),
    }
    let (offer, action) = offer.step(OfferEvent::Written(Ok(())));
    assert_eq!(offer.phase, OfferPhase::Done);
    assert_eq!(offer_finish(action), Ok(Some("git@work:octo/tool.git".to_owned())));
}

#[test]
fn declined_or_overtaken_push_offer_sets_nothing() {
    let (offer, _) = PushOffer::start(HTTPS, true);
    let (offer, _) = offer.step(OfferEvent::Push(None));
    let (offer, _) = offer.step(OfferEvent::Identities(vec![identity("work")]));
    let (_, action) = offer.step(OfferEvent::Decision(Ok(false)));
    assert_eq!(offer_finish(action), Ok(None));

    let (offer, _) = PushOffer::start(HTTPS, true);
    let (offer, _) = offer.step(OfferEvent::Push(None));
    let (offer, _) = offer.step(OfferEvent::Identities(vec![identity("work")]));
    let (offer, _) = offer.step(OfferEvent::Decision(Ok(true)));
    let (offer, _) = offer.step(OfferEvent::Chosen(Ok(identity("work"))));
    let (_, action) = offer.step(OfferEvent::Urls { fetch: Some(HTTPS.to_owned()), push: Some(SSH.to_owned()) });
    assert_eq!(
        offer_finish(action),
        Err("repository URLs changed while awaiting a decision; retry the operation".to_owned())
    );
}
