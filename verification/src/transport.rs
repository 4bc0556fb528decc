//! Decisions about an installed checkout's Git transport: reconciling a
//! checkout that reaches the configured repository by another transport, and
//! offering an SSH push URL for a public HTTPS checkout. Reading and writing
//! the remote URLs and asking the user are the caller's part; it performs
//! each action that a step returns and reports what came of it.
use vstd::prelude::*;

use crate::git::{
    git_error_message, github_ssh_push_url, rot_retry_applies, rot_retry_arguments, spec_checkout_match,
    spec_public_key_auth_failure, spec_runtime_url_rewrite, spec_ssh_push_url, spec_verified_aliases, views,
    ManagedRepositoryMatcher, RotIdentity,
};
use crate::interaction::{spec_error_text, OperationError};
use crate::recipe::opt_str_view;
use crate::text::{cat3, cat4, cat5, cat7, str_eq};

verus! {

/// Where a checkout reconciliation stands.
#[derive(Debug, Clone, Copy, PartialEq, Eq, Structural)]
pub enum CheckoutPhase {
    ReadingFetch,
    Deciding,
    ReadingPush,
    DecidingPush,
    Rereading,
    Reconciling,
    Verifying,
    Done,
}

/// The reconciliation of an installed checkout whose fetch URL names the
/// configured repository by another transport.
pub struct CheckoutReconciliation {
    pub name: String,
    pub canonical: String,
    pub interactive: bool,
    pub phase: CheckoutPhase,
    /// The fetch URL read first.
    pub fetch: String,
    /// The push URL read after the user agreed.
    pub push: Option<String>,
    /// The user agreed to reconcile.
    pub approved: bool,
    /// The push URL may be set: there is none, it is the fetch URL, or the
    /// user allowed replacing it.
    pub push_allowed: bool,
}

pub struct CheckoutReconciliationView {
    pub name: Seq<char>,
    pub canonical: Seq<char>,
    pub interactive: bool,
    pub phase: CheckoutPhase,
    pub fetch: Seq<char>,
    pub push: Option<Seq<char>>,
    pub approved: bool,
    pub push_allowed: bool,
}

impl View for CheckoutReconciliation {
    type V = CheckoutReconciliationView;

    open spec fn view(&self) -> CheckoutReconciliationView {
        CheckoutReconciliationView {
            name: self.name@,
            canonical: self.canonical@,
            interactive: self.interactive,
            phase: self.phase,
            fetch: self.fetch@,
            push: opt_str_view(self.push),
            approved: self.approved,
            push_allowed: self.push_allowed,
        }
    }
}

/// What the caller found or was told.
pub enum CheckoutEvent {
    /// The checkout's fetch URL.
    Fetch(Option<String>),
    /// The user's answer.
    Decision(Result<bool, OperationError>),
    /// The checkout's push URL.
    Push(Option<String>),
    /// Both URLs, read again just before the change.
    Urls { fetch: Option<String>, push: Option<String> },
    /// The remote reconciliation's outcome.
    Reconciled(Result<(), String>),
}

pub enum CheckoutEventView {
    Fetch(Option<Seq<char>>),
    Decision(Result<bool, Seq<char>>),
    Push(Option<Seq<char>>),
    Urls { fetch: Option<Seq<char>>, push: Option<Seq<char>> },
    Reconciled(Result<(), Seq<char>>),
}

pub open spec fn decision_view(d: Result<bool, OperationError>) -> Result<bool, Seq<char>> {
    match d {
        Ok(b) => Ok(b),
        Err(e) => Err(spec_error_text(e@)),
    }
}

pub open spec fn outcome_view(r: Result<(), String>) -> Result<(), Seq<char>> {
    match r {
        Ok(()) => Ok(()),
        Err(m) => Err(m@),
    }
}

impl View for CheckoutEvent {
    type V = CheckoutEventView;

    open spec fn view(&self) -> CheckoutEventView {
        match self {
            CheckoutEvent::Fetch(f) => CheckoutEventView::Fetch(opt_str_view(*f)),
            CheckoutEvent::Decision(d) => CheckoutEventView::Decision(decision_view(*d)),
            CheckoutEvent::Push(p) => CheckoutEventView::Push(opt_str_view(*p)),
            CheckoutEvent::Urls { fetch, push } => CheckoutEventView::Urls {
                fetch: opt_str_view(*fetch),
                push: opt_str_view(*push),
            },
            CheckoutEvent::Reconciled(r) => CheckoutEventView::Reconciled(outcome_view(*r)),
        }
    }
}

/// What the caller does next.
pub enum CheckoutAction {
    ReadFetch,
    /// Ask whether to reconcile the checkout at `fetch` to `canonical`.
    AskReconcile { fetch: String, canonical: String },
    ReadPush,
    /// Ask whether the existing push URL may be replaced.
    AskReplacePush { existing: String, replacement: String },
    ReadUrls,
    /// Reconcile the remote: fetch from `fetch`, push to `push`.
    Reconcile { fetch: String, push: String },
    /// Report the checkout reconciled, then read its fetch URL.
    ReportAndVerify,
    Finish(Result<(), String>),
}

pub enum CheckoutActionView {
    ReadFetch,
    AskReconcile { fetch: Seq<char>, canonical: Seq<char> },
    ReadPush,
    AskReplacePush { existing: Seq<char>, replacement: Seq<char> },
    ReadUrls,
    Reconcile { fetch: Seq<char>, push: Seq<char> },
    ReportAndVerify,
    Finish(Result<(), Seq<char>>),
}

impl View for CheckoutAction {
    type V = CheckoutActionView;

    open spec fn view(&self) -> CheckoutActionView {
        match self {
            CheckoutAction::ReadFetch => CheckoutActionView::ReadFetch,
            CheckoutAction::AskReconcile { fetch, canonical } => CheckoutActionView::AskReconcile {
                fetch: fetch@,
                canonical: canonical@,
            },
            CheckoutAction::ReadPush => CheckoutActionView::ReadPush,
            CheckoutAction::AskReplacePush { existing, replacement } => CheckoutActionView::AskReplacePush {
                existing: existing@,
                replacement: replacement@,
            },
            CheckoutAction::ReadUrls => CheckoutActionView::ReadUrls,
            CheckoutAction::Reconcile { fetch, push } => CheckoutActionView::Reconcile { fetch: fetch@, push: push@ },
            CheckoutAction::ReportAndVerify => CheckoutActionView::ReportAndVerify,
            CheckoutAction::Finish(r) => CheckoutActionView::Finish(outcome_view(*r)),
        }
    }
}

/// The refusal of a non-interactive run.
pub open spec fn transport_message(fetch: Seq<char>, canonical: Seq<char>, name: Seq<char>) -> Seq<char> {
    "destination is the configured GitHub repository but uses a different transport\nFetch URL: "@ + fetch
        + "\nCatalog URL: "@ + canonical + "\nRun 'loadbot pull "@ + name
        + "' interactively to reconcile its fetch and push URLs."@
}

/// The refusal when the user declines.
pub open spec fn declined_message(fetch: Seq<char>, canonical: Seq<char>) -> Seq<char> {
    "repository URL mismatch was not changed\nFetch URL: "@ + fetch + "\nCatalog URL: "@ + canonical
}

pub open spec fn no_origin_message() -> Seq<char> {
    "repository has no origin URL"@
}

pub open spec fn push_preserved_message() -> Seq<char> {
    "existing push URL was preserved; repository URLs were not changed"@
}

pub open spec fn changed_meanwhile_message() -> Seq<char> {
    "repository URLs changed while awaiting a decision; retry the operation"@
}

pub open spec fn unmatched_message() -> Seq<char> {
    "reconciled repository did not match the catalog URL"@
}

/// The action that the state waits on.
pub open spec fn spec_checkout_pending(s: CheckoutReconciliationView) -> CheckoutActionView {
    match s.phase {
        CheckoutPhase::ReadingFetch => CheckoutActionView::ReadFetch,
        CheckoutPhase::Deciding => CheckoutActionView::AskReconcile { fetch: s.fetch, canonical: s.canonical },
        CheckoutPhase::ReadingPush => CheckoutActionView::ReadPush,
        CheckoutPhase::DecidingPush => CheckoutActionView::AskReplacePush {
            existing: s.push->Some_0,
            replacement: s.fetch,
        },
        CheckoutPhase::Rereading => CheckoutActionView::ReadUrls,
        CheckoutPhase::Reconciling => CheckoutActionView::Reconcile { fetch: s.canonical, push: s.fetch },
        CheckoutPhase::Verifying => CheckoutActionView::ReportAndVerify,
        CheckoutPhase::Done => CheckoutActionView::Finish(Ok(())),
    }
}

pub open spec fn checkout_done(
    s: CheckoutReconciliationView,
    r: Result<(), Seq<char>>,
) -> (CheckoutReconciliationView, CheckoutActionView) {
    (CheckoutReconciliationView { phase: CheckoutPhase::Done, ..s }, CheckoutActionView::Finish(r))
}

pub open spec fn checkout_at(
    s: CheckoutReconciliationView,
    phase: CheckoutPhase,
) -> (CheckoutReconciliationView, CheckoutActionView) {
    let n = CheckoutReconciliationView { phase, ..s };
    (n, spec_checkout_pending(n))
}

/// One step of a checkout reconciliation. An event that does not answer the
/// pending action repeats it.
pub open spec fn spec_checkout_step(s: CheckoutReconciliationView, e: CheckoutEventView) -> (
    CheckoutReconciliationView,
    CheckoutActionView,
) {
    match (s.phase, e) {
        (CheckoutPhase::ReadingFetch, CheckoutEventView::Fetch(f)) => match f {
            None => checkout_done(s, Err(no_origin_message())),
            Some(fetch) => if !s.interactive {
                checkout_done(s, Err(transport_message(fetch, s.canonical, s.name)))
            } else {
                checkout_at(CheckoutReconciliationView { fetch, ..s }, CheckoutPhase::Deciding)
            },
        },
        (CheckoutPhase::Deciding, CheckoutEventView::Decision(d)) => match d {
            Err(m) => checkout_done(s, Err(m)),
            Ok(false) => checkout_done(s, Err(declined_message(s.fetch, s.canonical))),
            Ok(true) => checkout_at(CheckoutReconciliationView { approved: true, ..s }, CheckoutPhase::ReadingPush),
        },
        (CheckoutPhase::ReadingPush, CheckoutEventView::Push(p)) => {
            let n = CheckoutReconciliationView { push: p, ..s };
            match p {
                Some(existing) => if existing != s.fetch {
                    checkout_at(n, CheckoutPhase::DecidingPush)
                } else {
                    checkout_at(CheckoutReconciliationView { push_allowed: true, ..n }, CheckoutPhase::Rereading)
                },
                None => checkout_at(CheckoutReconciliationView { push_allowed: true, ..n }, CheckoutPhase::Rereading),
            }
        },
        (CheckoutPhase::DecidingPush, CheckoutEventView::Decision(d)) => match d {
            Err(m) => checkout_done(s, Err(m)),
            Ok(false) => checkout_done(s, Err(push_preserved_message())),
            Ok(true) => checkout_at(CheckoutReconciliationView { push_allowed: true, ..s }, CheckoutPhase::Rereading),
        },
        (CheckoutPhase::Rereading, CheckoutEventView::Urls { fetch, push }) => if fetch != Some(s.fetch) || push
            != s.push {
            checkout_done(s, Err(changed_meanwhile_message()))
        } else {
            checkout_at(s, CheckoutPhase::Reconciling)
        },
        (CheckoutPhase::Reconciling, CheckoutEventView::Reconciled(r)) => match r {
            Err(m) => checkout_done(s, Err(m)),
            Ok(()) => checkout_at(s, CheckoutPhase::Verifying),
        },
        (CheckoutPhase::Verifying, CheckoutEventView::Fetch(f)) => if spec_checkout_match(
            seq![],
            f,
            s.canonical,
        ).is_managed() {
            checkout_done(s, Ok(()))
        } else {
            checkout_done(s, Err(unmatched_message()))
        },
        _ => (s, spec_checkout_pending(s)),
    }
}

fn opt_eq(a: &Option<String>, b: &Option<String>) -> (r: bool)
    ensures
        r == (opt_str_view(*a) == opt_str_view(*b)),
{
    match (a, b) {
        (Some(x), Some(y)) => str_eq(x.as_str(), y.as_str()),
        (None, None) => true,
        _ => false,
    }
}

impl CheckoutReconciliation {
    /// Start reconciling the checkout of tool `name` to `canonical`.
    pub fn start(name: &str, canonical: &str, interactive: bool) -> (r: (Self, CheckoutAction))
        ensures
            r.0@ == (CheckoutReconciliationView {
                name: name@,
                canonical: canonical@,
                interactive,
                phase: CheckoutPhase::ReadingFetch,
                fetch: Seq::empty(),
                push: None,
                approved: false,
                push_allowed: false,
            }),
            r.1@ == CheckoutActionView::ReadFetch,
            checkout_invariant(r.0@),
    {
        let s = CheckoutReconciliation {
            name: name.to_string(),
            canonical: canonical.to_string(),
            interactive,
            phase: CheckoutPhase::ReadingFetch,
            fetch: String::new(),
            push: None,
            approved: false,
            push_allowed: false,
        };
        proof {
            reveal_strlit("");
        }
        (s, CheckoutAction::ReadFetch)
    }

    fn pending(&self) -> (r: CheckoutAction)
        requires
            self.phase == CheckoutPhase::DecidingPush ==> self.push is Some,
        ensures
            r@ == spec_checkout_pending(self@),
    {
        match self.phase {
            CheckoutPhase::ReadingFetch => CheckoutAction::ReadFetch,
            CheckoutPhase::Deciding => CheckoutAction::AskReconcile {
                fetch: self.fetch.clone(),
                canonical: self.canonical.clone(),
            },
            CheckoutPhase::ReadingPush => CheckoutAction::ReadPush,
            CheckoutPhase::DecidingPush => CheckoutAction::AskReplacePush {
                existing: self.push.clone().unwrap(),
                replacement: self.fetch.clone(),
            },
            CheckoutPhase::Rereading => CheckoutAction::ReadUrls,
            CheckoutPhase::Reconciling => CheckoutAction::Reconcile {
                fetch: self.canonical.clone(),
                push: self.fetch.clone(),
            },
            CheckoutPhase::Verifying => CheckoutAction::ReportAndVerify,
            CheckoutPhase::Done => CheckoutAction::Finish(Ok(())),
        }
    }

    fn done(self, r: Result<(), String>) -> (out: (Self, CheckoutAction))
        ensures
            (out.0@, out.1@) == checkout_done(self@, outcome_view(r)),
    {
        let mut n = self;
        n.phase = CheckoutPhase::Done;
        (n, CheckoutAction::Finish(r))
    }

    fn at(self, phase: CheckoutPhase) -> (out: (Self, CheckoutAction))
        requires
            phase == CheckoutPhase::DecidingPush ==> self.push is Some,
        ensures
            (out.0@, out.1@) == checkout_at(self@, phase),
    {
        let mut n = self;
        n.phase = phase;
        let a = n.pending();
        (n, a)
    }

    /// The next state and action for the reported event.
    pub fn step(self, event: CheckoutEvent) -> (r: (Self, CheckoutAction))
        requires
            self.phase != CheckoutPhase::Done,
            self.phase == CheckoutPhase::DecidingPush ==> self.push is Some,
        ensures
            (r.0@, r.1@) == spec_checkout_step(self@, event@),
            r.0.phase == CheckoutPhase::DecidingPush ==> r.0.push is Some,
    {
        let s = self;
        match (s.phase, event) {
            (CheckoutPhase::ReadingFetch, CheckoutEvent::Fetch(f)) => match f {
                None => s.done(Err("repository has no origin URL".to_string())),
                Some(fetch) => {
                    if !s.interactive {
                        let m = cat7(
                            "destination is the configured GitHub repository but uses a different transport\nFetch URL: ",
                            fetch.as_str(),
                            "\nCatalog URL: ",
                            s.canonical.as_str(),
                            "\nRun 'loadbot pull ",
                            s.name.as_str(),
                            "' interactively to reconcile its fetch and push URLs.",
                        );
                        s.done(Err(m))
                    } else {
                        let mut n = s;
                        n.fetch = fetch;
                        n.at(CheckoutPhase::Deciding)
                    }
                },
            },
            (CheckoutPhase::Deciding, CheckoutEvent::Decision(d)) => match d {
                Err(e) => s.done(Err(e.text())),
                Ok(false) => {
                    let m = cat4(
                        "repository URL mismatch was not changed\nFetch URL: ",
                        s.fetch.as_str(),
                        "\nCatalog URL: ",
                        s.canonical.as_str(),
                    );
                    s.done(Err(m))
                },
                Ok(true) => {
                    let mut n = s;
                    n.approved = true;
                    n.at(CheckoutPhase::ReadingPush)
                },
            },
            (CheckoutPhase::ReadingPush, CheckoutEvent::Push(p)) => {
                let replace = match &p {
                    Some(existing) => !str_eq(existing.as_str(), s.fetch.as_str()),
                    None => false,
                };
                let mut n = s;
                n.push = p;
                if replace {
                    n.at(CheckoutPhase::DecidingPush)
                } else {
                    n.push_allowed = true;
                    n.at(CheckoutPhase::Rereading)
                }
            },
            (CheckoutPhase::DecidingPush, CheckoutEvent::Decision(d)) => match d {
                Err(e) => s.done(Err(e.text())),
                Ok(false) => s.done(Err("existing push URL was preserved; repository URLs were not changed".to_string())),
                Ok(true) => {
                    let mut n = s;
                    n.push_allowed = true;
                    n.at(CheckoutPhase::Rereading)
                },
            },
            (CheckoutPhase::Rereading, CheckoutEvent::Urls { fetch, push }) => {
                let same_fetch = match &fetch {
                    Some(f) => str_eq(f.as_str(), s.fetch.as_str()),
                    None => false,
                };
                if !same_fetch || !opt_eq(&push, &s.push) {
                    s.done(Err("repository URLs changed while awaiting a decision; retry the operation".to_string()))
                } else {
                    s.at(CheckoutPhase::Reconciling)
                }
            },
            (CheckoutPhase::Reconciling, CheckoutEvent::Reconciled(r)) => match r {
                Err(m) => s.done(Err(m)),
                Ok(()) => s.at(CheckoutPhase::Verifying),
            },
            (CheckoutPhase::Verifying, CheckoutEvent::Fetch(f)) => {
                let matcher = ManagedRepositoryMatcher::canonical();
                proof {
                    assert(views(matcher.verified_github_aliases@) =~= seq![]);
                }
                let actual: Option<&str> = match &f {
                    Some(u) => Some(u.as_str()),
                    None => None,
                };
                if matcher.is_managed_checkout(actual, s.canonical.as_str()) {
                    s.done(Ok(()))
                } else {
                    s.done(Err("reconciled repository did not match the catalog URL".to_string()))
                }
            },
            (_, _) => {
                let a = s.pending();
                (s, a)
            },
        }
    }
}

/// What holds of every reachable reconciliation: once it asks, the run is
/// interactive; once it reads the push URL, the user agreed; from the
/// re-reading of the URLs on, the push URL may also be set.
pub open spec fn checkout_invariant(s: CheckoutReconciliationView) -> bool {
    &&& s.phase == CheckoutPhase::Deciding ==> s.interactive
    &&& (s.phase == CheckoutPhase::ReadingPush || s.phase == CheckoutPhase::DecidingPush) ==> s.interactive
        && s.approved
    &&& (s.phase == CheckoutPhase::Rereading || s.phase == CheckoutPhase::Reconciling || s.phase
        == CheckoutPhase::Verifying) ==> s.interactive && s.approved && s.push_allowed
}

/// Reconciling writes the remote URLs only in an interactive run, after the
/// user agreed, and never replaces a different existing push URL without
/// being allowed to: a declined or non-interactive reconciliation changes
/// nothing. Each step keeps the invariant that says so, and the step that
/// asks for the change is taken only where it holds.
pub proof fn lemma_reconcile_only_when_approved(s: CheckoutReconciliationView, e: CheckoutEventView)
    requires
        checkout_invariant(s),
        s.phase != CheckoutPhase::Done,
    ensures
        checkout_invariant(spec_checkout_step(s, e).0),
        spec_checkout_step(s, e).1 is Reconcile ==> spec_checkout_step(s, e).0.interactive
            && spec_checkout_step(s, e).0.approved && spec_checkout_step(s, e).0.push_allowed,
{
}

/// Where an offer of an SSH push URL stands.
#[derive(Debug, Clone, Copy, PartialEq, Eq, Structural)]
pub enum OfferPhase {
    ReadingPush,
    Loading,
    Asking,
    Choosing,
    Rereading,
    Writing,
    Done,
}

/// The offer, in an interactive run, of an SSH push URL through a Rot-managed
/// identity for a checkout of a public GitHub repository that has none.
pub struct PushOffer {
    pub canonical: String,
    pub interactive: bool,
    pub phase: OfferPhase,
    /// The verified Rot-managed identities.
    pub identities: Vec<RotIdentity>,
    /// The user agreed to configure a push URL.
    pub approved: bool,
    /// The push URL derived from the chosen identity.
    pub push_url: String,
}

pub struct PushOfferView {
    pub canonical: Seq<char>,
    pub interactive: bool,
    pub phase: OfferPhase,
    pub identities: Seq<RotIdentity>,
    pub approved: bool,
    pub push_url: Seq<char>,
}

impl View for PushOffer {
    type V = PushOfferView;

    open spec fn view(&self) -> PushOfferView {
        PushOfferView {
            canonical: self.canonical@,
            interactive: self.interactive,
            phase: self.phase,
            identities: self.identities@,
            approved: self.approved,
            push_url: self.push_url@,
        }
    }
}

/// What the caller found or was told.
pub enum OfferEvent {
    /// The checkout's push URL.
    Push(Option<String>),
    /// The verified Rot-managed identities (none where Rot could not be asked).
    Identities(Vec<RotIdentity>),
    /// The user's answer.
    Decision(Result<bool, OperationError>),
    /// The identity chosen, or why none was.
    Chosen(Result<RotIdentity, OperationError>),
    /// Both URLs, read again just before the change.
    Urls { fetch: Option<String>, push: Option<String> },
    /// The outcome of setting the push URL.
    Written(Result<(), String>),
}

pub enum OfferEventView {
    Push(Option<Seq<char>>),
    Identities(Seq<RotIdentity>),
    Decision(Result<bool, Seq<char>>),
    Chosen(Result<RotIdentity, Seq<char>>),
    Urls { fetch: Option<Seq<char>>, push: Option<Seq<char>> },
    Written(Result<(), Seq<char>>),
}

impl View for OfferEvent {
    type V = OfferEventView;

    open spec fn view(&self) -> OfferEventView {
        match self {
            OfferEvent::Push(p) => OfferEventView::Push(opt_str_view(*p)),
            OfferEvent::Identities(v) => OfferEventView::Identities(v@),
            OfferEvent::Decision(d) => OfferEventView::Decision(decision_view(*d)),
            OfferEvent::Chosen(c) => OfferEventView::Chosen(
                match c {
                    Ok(i) => Ok(*i),
                    Err(e) => Err(spec_error_text(e@)),
                },
            ),
            OfferEvent::Urls { fetch, push } => OfferEventView::Urls {
                fetch: opt_str_view(*fetch),
                push: opt_str_view(*push),
            },
            OfferEvent::Written(r) => OfferEventView::Written(outcome_view(*r)),
        }
    }
}

/// What the caller does next.
pub enum OfferAction {
    ReadPush,
    LoadIdentities,
    /// Ask whether to configure SSH for pushes.
    AskConfigure,
    /// Choose one of these identities.
    ChooseIdentity(Vec<RotIdentity>),
    ReadUrls,
    /// Set the checkout's push URL.
    SetPush(String),
    /// The push URL configured, if any, or why the offer failed.
    Finish(Result<Option<String>, String>),
}

pub enum OfferActionView {
    ReadPush,
    LoadIdentities,
    AskConfigure,
    ChooseIdentity(Seq<RotIdentity>),
    ReadUrls,
    SetPush(Seq<char>),
    Finish(Result<Option<Seq<char>>, Seq<char>>),
}

impl View for OfferAction {
    type V = OfferActionView;

    open spec fn view(&self) -> OfferActionView {
        match self {
            OfferAction::ReadPush => OfferActionView::ReadPush,
            OfferAction::LoadIdentities => OfferActionView::LoadIdentities,
            OfferAction::AskConfigure => OfferActionView::AskConfigure,
            OfferAction::ChooseIdentity(v) => OfferActionView::ChooseIdentity(v@),
            OfferAction::ReadUrls => OfferActionView::ReadUrls,
            OfferAction::SetPush(u) => OfferActionView::SetPush(u@),
            OfferAction::Finish(Ok(p)) => OfferActionView::Finish(Ok(opt_str_view(*p))),
            OfferAction::Finish(Err(m)) => OfferActionView::Finish(Err(m@)),
        }
    }
}

pub open spec fn underivable_push_message() -> Seq<char> {
    "could not derive the GitHub SSH push URL"@
}

pub open spec fn spec_offer_pending(s: PushOfferView) -> OfferActionView {
    match s.phase {
        OfferPhase::ReadingPush => OfferActionView::ReadPush,
        OfferPhase::Loading => OfferActionView::LoadIdentities,
        OfferPhase::Asking => OfferActionView::AskConfigure,
        OfferPhase::Choosing => OfferActionView::ChooseIdentity(s.identities),
        OfferPhase::Rereading => OfferActionView::ReadUrls,
        OfferPhase::Writing => OfferActionView::SetPush(s.push_url),
        OfferPhase::Done => OfferActionView::Finish(Ok(None)),
    }
}

pub open spec fn offer_done(s: PushOfferView, r: Result<Option<Seq<char>>, Seq<char>>) -> (
    PushOfferView,
    OfferActionView,
) {
    (PushOfferView { phase: OfferPhase::Done, ..s }, OfferActionView::Finish(r))
}

pub open spec fn offer_at(s: PushOfferView, phase: OfferPhase) -> (PushOfferView, OfferActionView) {
    let n = PushOfferView { phase, ..s };
    (n, spec_offer_pending(n))
}

/// The offer's first action: nothing is offered outside an interactive run.
pub open spec fn spec_offer_start(canonical: Seq<char>, interactive: bool) -> (PushOfferView, OfferActionView) {
    let s = PushOfferView {
        canonical,
        interactive,
        phase: OfferPhase::ReadingPush,
        identities: seq![],
        approved: false,
        push_url: seq![],
    };
    if interactive {
        (s, OfferActionView::ReadPush)
    } else {
        offer_done(s, Ok(None))
    }
}

/// One step of the offer. An event that does not answer the pending action
/// repeats it.
pub open spec fn spec_offer_step(s: PushOfferView, e: OfferEventView) -> (PushOfferView, OfferActionView) {
    match (s.phase, e) {
        (OfferPhase::ReadingPush, OfferEventView::Push(p)) => if p is Some || spec_ssh_push_url(
            s.canonical,
            "placeholder"@,
        ) is None {
            offer_done(s, Ok(None))
        } else {
            offer_at(s, OfferPhase::Loading)
        },
        (OfferPhase::Loading, OfferEventView::Identities(v)) => if v.len() == 0 {
            offer_done(s, Ok(None))
        } else {
            offer_at(PushOfferView { identities: v, ..s }, OfferPhase::Asking)
        },
        (OfferPhase::Asking, OfferEventView::Decision(d)) => match d {
            Err(m) => offer_done(s, Err(m)),
            Ok(false) => offer_done(s, Ok(None)),
            Ok(true) => offer_at(PushOfferView { approved: true, ..s }, OfferPhase::Choosing),
        },
        (OfferPhase::Choosing, OfferEventView::Chosen(c)) => match c {
            Err(m) => offer_done(s, Err(m)),
            Ok(identity) => match spec_ssh_push_url(s.canonical, identity.alias@) {
                None => offer_done(s, Err(underivable_push_message())),
                Some(u) => offer_at(PushOfferView { push_url: u, ..s }, OfferPhase::Rereading),
            },
        },
        (OfferPhase::Rereading, OfferEventView::Urls { fetch, push }) => if push is Some || !spec_checkout_match(
            spec_verified_aliases(s.identities),
            fetch,
            s.canonical,
        ).is_managed() {
            offer_done(s, Err(changed_meanwhile_message()))
        } else {
            offer_at(s, OfferPhase::Writing)
        },
        (OfferPhase::Writing, OfferEventView::Written(r)) => match r {
            Err(m) => offer_done(s, Err(m)),
            Ok(()) => offer_done(s, Ok(Some(s.push_url))),
        },
        _ => (s, spec_offer_pending(s)),
    }
}

impl PushOffer {
    /// Start offering an SSH push URL for a checkout of `canonical`.
    pub fn start(canonical: &str, interactive: bool) -> (r: (Self, OfferAction))
        ensures
            (r.0@, r.1@) == spec_offer_start(canonical@, interactive),
            offer_invariant(r.0@),
    {
        let s = PushOffer {
            canonical: canonical.to_string(),
            interactive,
            phase: OfferPhase::ReadingPush,
            identities: Vec::new(),
            approved: false,
            push_url: String::new(),
        };
        proof {
            reveal_strlit("");
        }
        if interactive {
            (s, OfferAction::ReadPush)
        } else {
            s.done(Ok(None))
        }
    }

    fn pending(&self) -> (r: OfferAction)
        ensures
            r@ == spec_offer_pending(self@),
    {
        match self.phase {
            OfferPhase::ReadingPush => OfferAction::ReadPush,
            OfferPhase::Loading => OfferAction::LoadIdentities,
            OfferPhase::Asking => OfferAction::AskConfigure,
            OfferPhase::Choosing => OfferAction::ChooseIdentity(crate::git::copy_identities(&self.identities)),
            OfferPhase::Rereading => OfferAction::ReadUrls,
            OfferPhase::Writing => OfferAction::SetPush(self.push_url.clone()),
            OfferPhase::Done => OfferAction::Finish(Ok(None)),
        }
    }

    fn done(self, r: Result<Option<String>, String>) -> (out: (Self, OfferAction))
        ensures
            out.0@ == (PushOfferView { phase: OfferPhase::Done, ..self@ }),
            out.1 == OfferAction::Finish(r),
    {
        let mut n = self;
        n.phase = OfferPhase::Done;
        (n, OfferAction::Finish(r))
    }

    fn at(self, phase: OfferPhase) -> (out: (Self, OfferAction))
        ensures
            (out.0@, out.1@) == offer_at(self@, phase),
    {
        let mut n = self;
        n.phase = phase;
        let a = n.pending();
        (n, a)
    }

    /// The next state and action for the reported event.
    pub fn step(self, event: OfferEvent) -> (r: (Self, OfferAction))
        requires
            self.phase != OfferPhase::Done,
        ensures
            (r.0@, r.1@) == spec_offer_step(self@, event@),
    {
        let s = self;
        match (s.phase, event) {
            (OfferPhase::ReadingPush, OfferEvent::Push(p)) => {
                if p.is_some() || github_ssh_push_url(s.canonical.as_str(), "placeholder").is_none() {
                    s.done(Ok(None))
                } else {
                    s.at(OfferPhase::Loading)
                }
            },
            (OfferPhase::Loading, OfferEvent::Identities(v)) => {
                if v.len() == 0 {
                    s.done(Ok(None))
                } else {
                    let mut n = s;
                    n.identities = v;
                    n.at(OfferPhase::Asking)
                }
            },
            (OfferPhase::Asking, OfferEvent::Decision(d)) => match d {
                Err(e) => s.done(Err(e.text())),
                Ok(false) => s.done(Ok(None)),
                Ok(true) => {
                    let mut n = s;
                    n.approved = true;
                    n.at(OfferPhase::Choosing)
                },
            },
            (OfferPhase::Choosing, OfferEvent::Chosen(c)) => match c {
                Err(e) => s.done(Err(e.text())),
                Ok(identity) => match github_ssh_push_url(s.canonical.as_str(), identity.alias.as_str()) {
                    None => s.done(Err("could not derive the GitHub SSH push URL".to_string())),
                    Some(u) => {
                        let mut n = s;
                        n.push_url = u;
                        n.at(OfferPhase::Rereading)
                    },
                },
            },
            (OfferPhase::Rereading, OfferEvent::Urls { fetch, push }) => {
                let matcher = ManagedRepositoryMatcher::from_verified_rot_identities(s.identities.as_slice());
                let actual: Option<&str> = match &fetch {
                    Some(u) => Some(u.as_str()),
                    None => None,
                };
                if push.is_some() || !matcher.is_managed_checkout(actual, s.canonical.as_str()) {
                    s.done(Err("repository URLs changed while awaiting a decision; retry the operation".to_string()))
                } else {
                    s.at(OfferPhase::Writing)
                }
            },
            (OfferPhase::Writing, OfferEvent::Written(r)) => match r {
                Err(m) => s.done(Err(m)),
                Ok(()) => {
                    let u = s.push_url.clone();
                    s.done(Ok(Some(u)))
                },
            },
            (_, _) => {
                let a = s.pending();
                (s, a)
            },
        }
    }
}

/// What holds of every reachable offer: it goes on only in an interactive
/// run, and from the choice of an identity on, the user has agreed.
pub open spec fn offer_invariant(s: PushOfferView) -> bool {
    &&& s.phase != OfferPhase::Done ==> s.interactive
    &&& (s.phase == OfferPhase::Choosing || s.phase == OfferPhase::Rereading || s.phase == OfferPhase::Writing)
        ==> s.approved
}

/// A push URL is set only in an interactive run, after the user agreed, on a
/// checkout that still has no push URL and still reaches the repository: an
/// existing push URL is never replaced. Each step keeps the invariant that
/// says so.
pub proof fn lemma_push_set_only_when_approved(s: PushOfferView, e: OfferEventView)
    requires
        offer_invariant(s),
    ensures
        offer_invariant(spec_offer_step(s, e).0),
        spec_offer_step(s, e).1 is SetPush ==> s.interactive && s.approved && (
            s.phase == OfferPhase::Writing || (e matches OfferEventView::Urls { push, .. } && push is None)),
{
}

/// Where a network Git command stands.
#[derive(Debug, Clone, Copy, PartialEq, Eq, Structural)]
pub enum NetworkPhase {
    /// Reading over the preferred HTTPS URL, with the SSH command to fall back on.
    Preferred,
    /// Running the command.
    First,
    /// Loading the Rot-managed identities after a public-key failure.
    Loading,
    /// Choosing the identity to retry through.
    Choosing,
    /// Running the command once more through the chosen identity.
    Retry,
    Done,
}

/// A network Git command: a public-key failure on a canonical GitHub SSH URL
/// is retried once through a Rot-managed identity; a read over HTTPS may fall
/// back on SSH first.
pub struct NetworkRun {
    /// The command (the SSH command, where a preferred read comes first).
    pub arguments: Vec<String>,
    /// The canonical URL the command reaches.
    pub canonical: String,
    pub phase: NetworkPhase,
    /// The command running now.
    pub current: Vec<String>,
    pub preferred_url: String,
    pub preferred_error: Option<String>,
    /// The first failure of the command.
    pub original: String,
    pub alias: String,
    pub identities: Vec<RotIdentity>,
}

pub struct NetworkRunView {
    pub arguments: Seq<Seq<char>>,
    pub canonical: Seq<char>,
    pub phase: NetworkPhase,
    pub current: Seq<Seq<char>>,
    pub preferred_url: Seq<char>,
    pub preferred_error: Option<Seq<char>>,
    pub original: Seq<char>,
    pub alias: Seq<char>,
    pub identities: Seq<RotIdentity>,
}

impl View for NetworkRun {
    type V = NetworkRunView;

    open spec fn view(&self) -> NetworkRunView {
        NetworkRunView {
            arguments: views(self.arguments@),
            canonical: self.canonical@,
            phase: self.phase,
            current: views(self.current@),
            preferred_url: self.preferred_url@,
            preferred_error: opt_str_view(self.preferred_error),
            original: self.original@,
            alias: self.alias@,
            identities: self.identities@,
        }
    }
}

/// What the caller saw.
pub enum NetworkEvent {
    /// The command ran: whether it succeeded, its output and its exit status.
    Ran { success: bool, stdout: String, stderr: String, status: String },
    /// The command could not be run, for this reason.
    Unavailable(String),
    /// The verified Rot-managed identities, or why they could not be had.
    Identities(Result<Vec<RotIdentity>, String>),
    /// The identity chosen, or why none was.
    Chosen(Result<RotIdentity, OperationError>),
}

pub enum NetworkEventView {
    Ran { success: bool, stdout: Seq<char>, stderr: Seq<char>, status: Seq<char> },
    Unavailable(Seq<char>),
    Identities(Result<Seq<RotIdentity>, Seq<char>>),
    Chosen(Result<RotIdentity, Seq<char>>),
}

impl View for NetworkEvent {
    type V = NetworkEventView;

    open spec fn view(&self) -> NetworkEventView {
        match self {
            NetworkEvent::Ran { success, stdout, stderr, status } => NetworkEventView::Ran {
                success: *success,
                stdout: stdout@,
                stderr: stderr@,
                status: status@,
            },
            NetworkEvent::Unavailable(m) => NetworkEventView::Unavailable(m@),
            NetworkEvent::Identities(r) => NetworkEventView::Identities(
                match r {
                    Ok(v) => Ok(v@),
                    Err(m) => Err(m@),
                },
            ),
            NetworkEvent::Chosen(c) => NetworkEventView::Chosen(
                match c {
                    Ok(i) => Ok(*i),
                    Err(e) => Err(spec_error_text(e@)),
                },
            ),
        }
    }
}

/// What the caller does next.
pub enum NetworkAction {
    /// Run Git with these arguments.
    Run(Vec<String>),
    LoadIdentities,
    /// Choose one of these identities.
    ChooseIdentity(Vec<RotIdentity>),
    /// The command's trimmed output, or why it failed.
    Finish(Result<String, String>),
}

pub enum NetworkActionView {
    Run(Seq<Seq<char>>),
    LoadIdentities,
    ChooseIdentity(Seq<RotIdentity>),
    Finish(Result<Seq<char>, Seq<char>>),
}

impl View for NetworkAction {
    type V = NetworkActionView;

    open spec fn view(&self) -> NetworkActionView {
        match self {
            NetworkAction::Run(a) => NetworkActionView::Run(views(a@)),
            NetworkAction::LoadIdentities => NetworkActionView::LoadIdentities,
            NetworkAction::ChooseIdentity(v) => NetworkActionView::ChooseIdentity(v@),
            NetworkAction::Finish(Ok(o)) => NetworkActionView::Finish(Ok(o@)),
            NetworkAction::Finish(Err(m)) => NetworkActionView::Finish(Err(m@)),
        }
    }
}

/// The message for a failed Git command.
pub open spec fn spec_git_error(stderr: Seq<char>, status: Seq<char>) -> Seq<char> {
    if crate::text::spec_trim(stderr).len() == 0 {
        "Git command failed with status "@ + status
    } else {
        "Git command failed: "@ + crate::text::spec_trim(stderr)
    }
}

/// A failure, after a failed preferred read, as the failure of its fallback.
pub open spec fn spec_wrap(s: NetworkRunView, message: Seq<char>) -> Seq<char> {
    match s.preferred_error {
        Some(p) => "HTTPS read from "@ + s.preferred_url + " failed: "@ + p + "\n\nSSH fallback failed: "@ + message,
        None => message,
    }
}

pub open spec fn spec_network_pending(s: NetworkRunView) -> NetworkActionView {
    match s.phase {
        NetworkPhase::Loading => NetworkActionView::LoadIdentities,
        NetworkPhase::Choosing => NetworkActionView::ChooseIdentity(s.identities),
        NetworkPhase::Done => NetworkActionView::Finish(Ok(Seq::empty())),
        _ => NetworkActionView::Run(s.current),
    }
}

pub open spec fn network_done(s: NetworkRunView, r: Result<Seq<char>, Seq<char>>) -> (NetworkRunView, NetworkActionView) {
    (NetworkRunView { phase: NetworkPhase::Done, ..s }, NetworkActionView::Finish(r))
}

/// One step of a network command. An event that does not answer the pending
/// action repeats it.
pub open spec fn spec_network_step(s: NetworkRunView, e: NetworkEventView) -> (NetworkRunView, NetworkActionView) {
    match (s.phase, e) {
        (NetworkPhase::Preferred, NetworkEventView::Ran { success, stdout, stderr, status }) => if success {
            network_done(s, Ok(crate::text::spec_trim(stdout)))
        } else {
            let n = NetworkRunView {
                phase: NetworkPhase::First,
                preferred_error: Some(spec_git_error(stderr, status)),
                current: s.arguments,
                ..s
            };
            (n, NetworkActionView::Run(s.arguments))
        },
        (NetworkPhase::First, NetworkEventView::Ran { success, stdout, stderr, status }) => if success {
            network_done(s, Ok(crate::text::spec_trim(stdout)))
        } else if spec_runtime_url_rewrite(s.canonical, "placeholder"@) is Some && spec_public_key_auth_failure(
            stderr,
        ) {
            (
                NetworkRunView { phase: NetworkPhase::Loading, original: spec_git_error(stderr, status), ..s },
                NetworkActionView::LoadIdentities,
            )
        } else {
            network_done(s, Err(spec_wrap(s, spec_git_error(stderr, status))))
        },
        (NetworkPhase::Loading, NetworkEventView::Identities(r)) => match r {
            Err(m) => network_done(s, Err(spec_wrap(s, s.original + "\n\n"@ + m))),
            Ok(v) => (
                NetworkRunView { phase: NetworkPhase::Choosing, identities: v, ..s },
                NetworkActionView::ChooseIdentity(v),
            ),
        },
        (NetworkPhase::Choosing, NetworkEventView::Chosen(c)) => match c {
            Err(m) => network_done(s, Err(spec_wrap(s, s.original + "\n\n"@ + m))),
            Ok(identity) => match spec_runtime_url_rewrite(s.canonical, identity.alias@) {
                None => network_done(s, Err(spec_wrap(s, "could not prepare the selected Rot SSH identity"@))),
                Some(rw) => {
                    let retry = seq!["-c"@, rw] + s.arguments;
                    (
                        NetworkRunView { phase: NetworkPhase::Retry, alias: identity.alias@, current: retry, ..s },
                        NetworkActionView::Run(retry),
                    )
                },
            },
        },
        (NetworkPhase::Retry, NetworkEventView::Ran { success, stdout, stderr, status }) => if success {
            network_done(s, Ok(crate::text::spec_trim(stdout)))
        } else {
            network_done(
                s,
                Err(
                    spec_wrap(
                        s,
                        s.original + "\n\nRetry with Rot-managed SSH identity '"@ + s.alias + "' failed: "@
                            + spec_git_error(stderr, status),
                    ),
                ),
            )
        },
        (NetworkPhase::Preferred, NetworkEventView::Unavailable(m)) => network_done(s, Err(m)),
        (NetworkPhase::First, NetworkEventView::Unavailable(m)) => network_done(s, Err(spec_wrap(s, m))),
        (NetworkPhase::Retry, NetworkEventView::Unavailable(m)) => network_done(s, Err(spec_wrap(s, m))),
        _ => (s, spec_network_pending(s)),
    }
}

fn copy_strings(v: &Vec<String>) -> (r: Vec<String>)
    ensures
        views(r@) == views(v@),
{
    let mut r: Vec<String> = Vec::new();
    let mut i: usize = 0;
    while i < v.len()
        invariant
            i <= v.len(),
            views(r@) == views(v@).subrange(0, i as int),
        decreases v.len() - i,
    {
        let item = v[i].clone();
        proof {
            crate::git::lemma_views_push(r@, item);
        }
        r.push(item);
        assert(views(v@).subrange(0, i + 1) =~= views(v@).subrange(0, i as int).push(v@[i as int]@));
        i = i + 1;
    }
    assert(views(v@).subrange(0, v.len() as int) =~= views(v@));
    r
}

fn trimmed(text: &String) -> (r: String)
    ensures
        r@ == crate::text::spec_trim(text@),
{
    crate::text::string_of(&crate::text::trim(&crate::text::chars_of(text.as_str())))
}

impl NetworkRun {
    /// Run `arguments`, a command that reaches `canonical`.
    pub fn start(arguments: Vec<String>, canonical: &str) -> (r: (Self, NetworkAction))
        ensures
            r.0@.arguments == views(arguments@),
            r.0@.current == views(arguments@),
            r.0@.canonical == canonical@,
            r.0@.phase == NetworkPhase::First,
            r.0@.preferred_error is None,
            r.1@ == NetworkActionView::Run(views(arguments@)),
    {
        let current = copy_strings(&arguments);
        let first = copy_strings(&arguments);
        let s = NetworkRun {
            arguments,
            canonical: canonical.to_string(),
            phase: NetworkPhase::First,
            current,
            preferred_url: String::new(),
            preferred_error: None,
            original: String::new(),
            alias: String::new(),
            identities: Vec::new(),
        };
        (s, NetworkAction::Run(first))
    }

    /// Read with `preferred` over `preferred_url`, falling back on the SSH
    /// command `ssh`, which reaches `ssh_url`.
    pub fn read_with_fallback(preferred: Vec<String>, preferred_url: &str, ssh: Vec<String>, ssh_url: &str) -> (r: (
        Self,
        NetworkAction,
    ))
        ensures
            r.0@.arguments == views(ssh@),
            r.0@.current == views(preferred@),
            r.0@.canonical == ssh_url@,
            r.0@.preferred_url == preferred_url@,
            r.0@.phase == NetworkPhase::Preferred,
            r.0@.preferred_error is None,
            r.1@ == NetworkActionView::Run(views(preferred@)),
    {
        let first = copy_strings(&preferred);
        let s = NetworkRun {
            arguments: ssh,
            canonical: ssh_url.to_string(),
            phase: NetworkPhase::Preferred,
            current: preferred,
            preferred_url: preferred_url.to_string(),
            preferred_error: None,
            original: String::new(),
            alias: String::new(),
            identities: Vec::new(),
        };
        (s, NetworkAction::Run(first))
    }

    fn pending(&self) -> (r: NetworkAction)
        ensures
            r@ == spec_network_pending(self@),
    {
        match self.phase {
            NetworkPhase::Loading => NetworkAction::LoadIdentities,
            NetworkPhase::Choosing => NetworkAction::ChooseIdentity(crate::git::copy_identities(&self.identities)),
            NetworkPhase::Done => {
                proof {
                    reveal_strlit("");
                }
                NetworkAction::Finish(Ok(String::new()))
            },
            _ => NetworkAction::Run(copy_strings(&self.current)),
        }
    }

    fn wrap(&self, message: String) -> (r: String)
        ensures
            r@ == spec_wrap(self@, message@),
    {
        match &self.preferred_error {
            Some(p) => {
                let head = cat5("HTTPS read from ", self.preferred_url.as_str(), " failed: ", p.as_str(), "\n\nSSH fallback failed: ");
                crate::text::cat2(head.as_str(), message.as_str())
            },
            None => message,
        }
    }

    fn done(self, r: Result<String, String>) -> (out: (Self, NetworkAction))
        ensures
            out.0@ == (NetworkRunView { phase: NetworkPhase::Done, ..self@ }),
            out.1 == NetworkAction::Finish(r),
    {
        let mut n = self;
        n.phase = NetworkPhase::Done;
        (n, NetworkAction::Finish(r))
    }

    /// The next state and action for the reported event.
    pub fn step(self, event: NetworkEvent) -> (r: (Self, NetworkAction))
        requires
            self.phase != NetworkPhase::Done,
        ensures
            (r.0@, r.1@) == spec_network_step(self@, event@),
    {
        let s = self;
        match (s.phase, event) {
            (NetworkPhase::Preferred, NetworkEvent::Ran { success, stdout, stderr, status }) => {
                if success {
                    s.done(Ok(trimmed(&stdout)))
                } else {
                    let mut n = s;
                    n.preferred_error = Some(git_error_message(stderr.as_str(), status.as_str()));
                    n.phase = NetworkPhase::First;
                    n.current = copy_strings(&n.arguments);
                    let a = copy_strings(&n.arguments);
                    (n, NetworkAction::Run(a))
                }
            },
            (NetworkPhase::First, NetworkEvent::Ran { success, stdout, stderr, status }) => {
                if success {
                    s.done(Ok(trimmed(&stdout)))
                } else if rot_retry_applies(s.canonical.as_str(), stderr.as_str()) {
                    let mut n = s;
                    n.phase = NetworkPhase::Loading;
                    n.original = git_error_message(stderr.as_str(), status.as_str());
                    (n, NetworkAction::LoadIdentities)
                } else {
                    let m = s.wrap(git_error_message(stderr.as_str(), status.as_str()));
                    s.done(Err(m))
                }
            },
            (NetworkPhase::Loading, NetworkEvent::Identities(r)) => match r {
                Err(m) => {
                    let w = s.wrap(cat3(s.original.as_str(), "\n\n", m.as_str()));
                    s.done(Err(w))
                },
                Ok(v) => {
                    let a = crate::git::copy_identities(&v);
                    let mut n = s;
                    n.phase = NetworkPhase::Choosing;
                    n.identities = v;
                    (n, NetworkAction::ChooseIdentity(a))
                },
            },
            (NetworkPhase::Choosing, NetworkEvent::Chosen(c)) => match c {
                Err(e) => {
                    let w = s.wrap(cat3(s.original.as_str(), "\n\n", e.text().as_str()));
                    s.done(Err(w))
                },
                Ok(identity) => match rot_retry_arguments(&s.arguments, s.canonical.as_str(), identity.alias.as_str()) {
                    None => {
                        let w = s.wrap("could not prepare the selected Rot SSH identity".to_string());
                        s.done(Err(w))
                    },
                    Some(retry) => {
                        let a = copy_strings(&retry);
                        let mut n = s;
                        n.phase = NetworkPhase::Retry;
                        n.alias = identity.alias;
                        n.current = retry;
                        (n, NetworkAction::Run(a))
                    },
                },
            },
            (NetworkPhase::Retry, NetworkEvent::Ran { success, stdout, stderr, status }) => {
                if success {
                    s.done(Ok(trimmed(&stdout)))
                } else {
                    let failure = git_error_message(stderr.as_str(), status.as_str());
                    let m = cat5(
                        s.original.as_str(),
                        "\n\nRetry with Rot-managed SSH identity '",
                        s.alias.as_str(),
                        "' failed: ",
                        failure.as_str(),
                    );
                    let w = s.wrap(m);
                    s.done(Err(w))
                }
            },
            (NetworkPhase::Preferred, NetworkEvent::Unavailable(m)) => s.done(Err(m)),
            (NetworkPhase::First, NetworkEvent::Unavailable(m)) | (NetworkPhase::Retry, NetworkEvent::Unavailable(m)) => {
                let w = s.wrap(m);
                s.done(Err(w))
            },
            (_, _) => {
                let a = s.pending();
                (s, a)
            },
        }
    }
}

/// Rot is consulted only after the command failed with a public-key
/// authentication failure on a canonical GitHub SSH URL.
pub proof fn lemma_rot_only_after_public_key_failure(s: NetworkRunView, e: NetworkEventView)
    requires
        s.phase != NetworkPhase::Loading,
        spec_network_step(s, e).1 is LoadIdentities,
    ensures
        s.phase == NetworkPhase::First,
        e matches NetworkEventView::Ran { success, stderr, .. } && !success && spec_public_key_auth_failure(stderr),
        spec_runtime_url_rewrite(s.canonical, "placeholder"@) is Some,
{
}

/// A command is retried at most once: whatever the retry reports ends the run.
pub proof fn lemma_retried_at_most_once(s: NetworkRunView, e: NetworkEventView)
    requires
        s.phase == NetworkPhase::Retry,
        e is Ran,
    ensures
        spec_network_step(s, e).0.phase == NetworkPhase::Done,
        spec_network_step(s, e).1 is Finish,
{
}

} // verus!
