//! The last part of initializing a catalog, once its repository is checked
//! and `catalog.toml` is in place: the existing destination that may be
//! used, and whether the initial catalog is committed and pushed. Running Git
//! is the caller's part; it performs each action that a step returns, shows
//! the notices the step returns, and reports what came of it.
use vstd::prelude::*;

use crate::git::{spec_checkout_match, ManagedRepositoryMatcher};
use crate::operations::{
    only_catalog_file, spec_plan_initialization, CatalogFileState, InitializationFacts, InitializationPlan,
};
use crate::recipe::opt_str_view;

verus! {

/// Why an existing catalog destination cannot be used.
#[derive(Debug, Clone, Copy, PartialEq, Eq, Structural)]
pub enum DestinationProblem {
    NotRepository,
    NotConfigured,
}

impl DestinationProblem {
    pub open spec fn spec_message(self) -> Seq<char> {
        match self {
            DestinationProblem::NotRepository => "catalog destination exists but is not a Git repository"@,
            DestinationProblem::NotConfigured => "catalog destination exists but is not the configured Git repository"@,
        }
    }

    pub fn message(&self) -> (r: String)
        ensures
            r@ == self.spec_message(),
    {
        match self {
            DestinationProblem::NotRepository => "catalog destination exists but is not a Git repository".to_string(),
            DestinationProblem::NotConfigured => "catalog destination exists but is not the configured Git repository".to_string(),
        }
    }
}

/// The first check that an existing destination fails: it must be a Git
/// repository whose fetch URL reaches `configured`.
pub open spec fn spec_destination_problem(
    is_repository: bool,
    fetch: Option<Seq<char>>,
    configured: Seq<char>,
) -> Option<DestinationProblem> {
    if !is_repository {
        Some(DestinationProblem::NotRepository)
    } else if !spec_checkout_match(seq![], fetch, configured).is_managed() {
        Some(DestinationProblem::NotConfigured)
    } else {
        None
    }
}

/// Check an existing catalog destination. The fetch URL is not consulted when
/// the destination is no repository, so a caller may pass `None` there.
pub fn destination_problem(is_repository: bool, fetch: &Option<String>, configured: &str) -> (r: Option<
    DestinationProblem,
>)
    ensures
        r == spec_destination_problem(is_repository, opt_str_view(*fetch), configured@),
{
    if !is_repository {
        return Some(DestinationProblem::NotRepository);
    }
    let matcher = ManagedRepositoryMatcher::canonical();
    proof {
        assert(crate::git::views(matcher.verified_github_aliases@) =~= seq![]);
    }
    let actual: Option<&str> = match fetch {
        Some(u) => Some(u.as_str()),
        None => None,
    };
    if matcher.is_managed_checkout(actual, configured) {
        None
    } else {
        Some(DestinationProblem::NotConfigured)
    }
}

/// Where finishing an initialization stands.
#[derive(Debug, Clone, Copy, PartialEq, Eq, Structural)]
pub enum FinishPhase {
    /// Asking whether `catalog.toml` is a change to commit.
    ReadingChanges,
    Committing,
    /// Asking whether the repository has a commit already.
    ReadingHead,
    /// Asking whether the remote has any refs.
    ReadingRemote,
    Pushing,
    Done,
}

/// Finishing an initialization: commit and push only as asked.
pub struct Finishing {
    pub commit: bool,
    pub push: bool,
    pub phase: FinishPhase,
    /// A commit was made or found.
    pub committed: bool,
    /// The remote was seen without refs just before the push.
    pub remote_empty: bool,
}

/// What the caller found or did.
#[derive(Debug, PartialEq, Eq)]
pub enum FinishEvent {
    /// Whether `catalog.toml` has changes.
    CatalogChanged(bool),
    /// The hash of the commit made.
    Committed(String),
    /// Whether the repository has a commit.
    HeadPresent(bool),
    /// Whether the remote has any refs.
    RemoteHasRefs(bool),
    Pushed,
}

pub enum FinishEventView {
    CatalogChanged(bool),
    Committed(Seq<char>),
    HeadPresent(bool),
    RemoteHasRefs(bool),
    Pushed,
}

impl View for FinishEvent {
    type V = FinishEventView;

    open spec fn view(&self) -> FinishEventView {
        match self {
            FinishEvent::CatalogChanged(b) => FinishEventView::CatalogChanged(*b),
            FinishEvent::Committed(h) => FinishEventView::Committed(h@),
            FinishEvent::HeadPresent(b) => FinishEventView::HeadPresent(*b),
            FinishEvent::RemoteHasRefs(b) => FinishEventView::RemoteHasRefs(*b),
            FinishEvent::Pushed => FinishEventView::Pushed,
        }
    }
}

/// What the caller does next.
#[derive(Debug, PartialEq, Eq)]
pub enum FinishAction {
    ReadChanges,
    /// Commit `catalog.toml`.
    Commit,
    ReadHead,
    ReadRemote,
    /// Push the initial commit.
    Push,
    /// Finishing is over with this result.
    Finish(Result<(), String>),
}

pub enum FinishActionView {
    ReadChanges,
    Commit,
    ReadHead,
    ReadRemote,
    Push,
    Finish(Result<(), Seq<char>>),
}

impl View for FinishAction {
    type V = FinishActionView;

    open spec fn view(&self) -> FinishActionView {
        match self {
            FinishAction::ReadChanges => FinishActionView::ReadChanges,
            FinishAction::Commit => FinishActionView::Commit,
            FinishAction::ReadHead => FinishActionView::ReadHead,
            FinishAction::ReadRemote => FinishActionView::ReadRemote,
            FinishAction::Push => FinishActionView::Push,
            FinishAction::Finish(Ok(())) => FinishActionView::Finish(Ok(())),
            FinishAction::Finish(Err(m)) => FinishActionView::Finish(Err(m@)),
        }
    }
}

/// What the caller reports to the user.
#[derive(Debug, PartialEq, Eq)]
pub enum FinishNotice {
    AlreadyInitialized,
    Committed(String),
    AlreadyCommitted,
    Uncommitted,
    Pushed,
    NotPushed,
}

pub enum FinishNoticeView {
    AlreadyInitialized,
    Committed(Seq<char>),
    AlreadyCommitted,
    Uncommitted,
    Pushed,
    NotPushed,
}

impl View for FinishNotice {
    type V = FinishNoticeView;

    open spec fn view(&self) -> FinishNoticeView {
        match self {
            FinishNotice::AlreadyInitialized => FinishNoticeView::AlreadyInitialized,
            FinishNotice::Committed(h) => FinishNoticeView::Committed(h@),
            FinishNotice::AlreadyCommitted => FinishNoticeView::AlreadyCommitted,
            FinishNotice::Uncommitted => FinishNoticeView::Uncommitted,
            FinishNotice::Pushed => FinishNoticeView::Pushed,
            FinishNotice::NotPushed => FinishNoticeView::NotPushed,
        }
    }
}

pub open spec fn notices_view(v: Seq<FinishNotice>) -> Seq<FinishNoticeView> {
    v.map_values(|n: FinishNotice| n@)
}

pub open spec fn undetected_message() -> Seq<char> {
    "catalog.toml exists but Git did not detect it as an initial change"@
}

pub open spec fn remote_not_empty_message() -> Seq<char> {
    "refusing to push because the remote is no longer empty"@
}

pub open spec fn finish_pending(s: Finishing) -> FinishActionView {
    match s.phase {
        FinishPhase::ReadingChanges => FinishActionView::ReadChanges,
        FinishPhase::Committing => FinishActionView::Commit,
        FinishPhase::ReadingHead => FinishActionView::ReadHead,
        FinishPhase::ReadingRemote => FinishActionView::ReadRemote,
        FinishPhase::Pushing => FinishActionView::Push,
        FinishPhase::Done => FinishActionView::Finish(Ok(())),
    }
}

pub open spec fn finish_at(s: Finishing, phase: FinishPhase, shown: Seq<FinishNoticeView>) -> (
    Finishing,
    Seq<FinishNoticeView>,
    FinishActionView,
) {
    let n = Finishing { phase, ..s };
    (n, shown, finish_pending(n))
}

pub open spec fn finish_done(s: Finishing, shown: Seq<FinishNoticeView>, r: Result<(), Seq<char>>) -> (
    Finishing,
    Seq<FinishNoticeView>,
    FinishActionView,
) {
    (Finishing { phase: FinishPhase::Done, ..s }, shown, FinishActionView::Finish(r))
}

/// After the commit is settled: push if asked, after checking the remote is
/// still empty; otherwise say that the commit stays local.
pub open spec fn after_commit(s: Finishing, shown: Seq<FinishNoticeView>) -> (
    Finishing,
    Seq<FinishNoticeView>,
    FinishActionView,
) {
    if s.push {
        finish_at(s, FinishPhase::ReadingRemote, shown)
    } else if s.commit {
        finish_done(s, shown.push(FinishNoticeView::NotPushed), Ok(()))
    } else {
        finish_done(s, shown, Ok(()))
    }
}

/// How finishing starts: an already initialized catalog is left as it is.
pub open spec fn spec_finish_start(already_initialized: bool, commit: bool, push: bool) -> (
    Finishing,
    Seq<FinishNoticeView>,
    FinishActionView,
) {
    let s = Finishing { commit, push, phase: FinishPhase::ReadingChanges, committed: false, remote_empty: false };
    if already_initialized {
        finish_done(s, seq![FinishNoticeView::AlreadyInitialized], Ok(()))
    } else if commit {
        (s, seq![], FinishActionView::ReadChanges)
    } else {
        after_commit(s, seq![FinishNoticeView::Uncommitted])
    }
}

/// One step of finishing. An event that does not answer the pending action
/// repeats it.
pub open spec fn spec_finish_step(s: Finishing, e: FinishEventView) -> (
    Finishing,
    Seq<FinishNoticeView>,
    FinishActionView,
) {
    match (s.phase, e) {
        (FinishPhase::ReadingChanges, FinishEventView::CatalogChanged(changed)) => if changed {
            finish_at(s, FinishPhase::Committing, seq![])
        } else {
            finish_at(s, FinishPhase::ReadingHead, seq![])
        },
        (FinishPhase::Committing, FinishEventView::Committed(hash)) => after_commit(
            Finishing { committed: true, ..s },
            seq![FinishNoticeView::Committed(hash)],
        ),
        (FinishPhase::ReadingHead, FinishEventView::HeadPresent(present)) => if present {
            after_commit(Finishing { committed: true, ..s }, seq![FinishNoticeView::AlreadyCommitted])
        } else {
            finish_done(s, seq![], Err(undetected_message()))
        },
        (FinishPhase::ReadingRemote, FinishEventView::RemoteHasRefs(refs)) => if refs {
            finish_done(s, seq![], Err(remote_not_empty_message()))
        } else {
            finish_at(Finishing { remote_empty: true, ..s }, FinishPhase::Pushing, seq![])
        },
        (FinishPhase::Pushing, FinishEventView::Pushed) => finish_done(s, seq![FinishNoticeView::Pushed], Ok(())),
        _ => (s, seq![], finish_pending(s)),
    }
}

fn pending(s: &Finishing) -> (r: FinishAction)
    ensures
        r@ == finish_pending(*s),
{
    match s.phase {
        FinishPhase::ReadingChanges => FinishAction::ReadChanges,
        FinishPhase::Committing => FinishAction::Commit,
        FinishPhase::ReadingHead => FinishAction::ReadHead,
        FinishPhase::ReadingRemote => FinishAction::ReadRemote,
        FinishPhase::Pushing => FinishAction::Push,
        FinishPhase::Done => FinishAction::Finish(Ok(())),
    }
}

fn settle(s: Finishing, shown: Vec<FinishNotice>) -> (r: (Finishing, Vec<FinishNotice>, FinishAction))
    ensures
        (r.0, notices_view(r.1@), r.2@) == after_commit(s, notices_view(shown@)),
{
    let mut shown = shown;
    if s.push {
        let mut n = s;
        n.phase = FinishPhase::ReadingRemote;
        (n, shown, FinishAction::ReadRemote)
    } else {
        let commit = s.commit;
        let mut n = s;
        n.phase = FinishPhase::Done;
        if commit {
            let ghost before = shown@;
            shown.push(FinishNotice::NotPushed);
            assert(notices_view(shown@) =~= notices_view(before).push(FinishNoticeView::NotPushed));
        }
        (n, shown, FinishAction::Finish(Ok(())))
    }
}

impl Finishing {
    /// Start finishing; `already_initialized` comes from the initialization plan.
    pub fn start(already_initialized: bool, commit: bool, push: bool) -> (r: (Self, Vec<FinishNotice>, FinishAction))
        ensures
            (r.0, notices_view(r.1@), r.2@) == spec_finish_start(already_initialized, commit, push),
    {
        let s = Finishing { commit, push, phase: FinishPhase::ReadingChanges, committed: false, remote_empty: false };
        if already_initialized {
            let mut n = s;
            n.phase = FinishPhase::Done;
            let shown = vec![FinishNotice::AlreadyInitialized];
            assert(notices_view(shown@) =~= seq![FinishNoticeView::AlreadyInitialized]);
            (n, shown, FinishAction::Finish(Ok(())))
        } else if commit {
            let shown: Vec<FinishNotice> = Vec::new();
            assert(notices_view(shown@) =~= seq![]);
            (s, shown, FinishAction::ReadChanges)
        } else {
            let shown = vec![FinishNotice::Uncommitted];
            assert(notices_view(shown@) =~= seq![FinishNoticeView::Uncommitted]);
            settle(s, shown)
        }
    }

    /// The next state, the notices to show and the next action for the
    /// reported event.
    pub fn step(self, event: FinishEvent) -> (r: (Self, Vec<FinishNotice>, FinishAction))
        requires
            self.phase != FinishPhase::Done,
        ensures
            (r.0, notices_view(r.1@), r.2@) == spec_finish_step(self, event@),
    {
        let none: Vec<FinishNotice> = Vec::new();
        assert(notices_view(none@) =~= seq![]);
        let s = self;
        match (s.phase, event) {
            (FinishPhase::ReadingChanges, FinishEvent::CatalogChanged(changed)) => {
                let mut n = s;
                n.phase = if changed { FinishPhase::Committing } else { FinishPhase::ReadingHead };
                let a = pending(&n);
                (n, none, a)
            },
            (FinishPhase::Committing, FinishEvent::Committed(hash)) => {
                let mut n = s;
                n.committed = true;
                let ghost h = hash@;
                let shown = vec![FinishNotice::Committed(hash)];
                assert(notices_view(shown@) =~= seq![FinishNoticeView::Committed(h)]);
                settle(n, shown)
            },
            (FinishPhase::ReadingHead, FinishEvent::HeadPresent(present)) => {
                if present {
                    let mut n = s;
                    n.committed = true;
                    let shown = vec![FinishNotice::AlreadyCommitted];
                    assert(notices_view(shown@) =~= seq![FinishNoticeView::AlreadyCommitted]);
                    settle(n, shown)
                } else {
                    let mut n = s;
                    n.phase = FinishPhase::Done;
                    (n, none, FinishAction::Finish(Err(
                        "catalog.toml exists but Git did not detect it as an initial change".to_string(),
                    )))
                }
            },
            (FinishPhase::ReadingRemote, FinishEvent::RemoteHasRefs(refs)) => {
                let mut n = s;
                if refs {
                    n.phase = FinishPhase::Done;
                    (n, none, FinishAction::Finish(Err(
                        "refusing to push because the remote is no longer empty".to_string(),
                    )))
                } else {
                    n.remote_empty = true;
                    n.phase = FinishPhase::Pushing;
                    (n, none, FinishAction::Push)
                }
            },
            (FinishPhase::Pushing, FinishEvent::Pushed) => {
                let mut n = s;
                n.phase = FinishPhase::Done;
                let shown = vec![FinishNotice::Pushed];
                assert(notices_view(shown@) =~= seq![FinishNoticeView::Pushed]);
                (n, shown, FinishAction::Finish(Ok(())))
            },
            (_, _) => {
                let a = pending(&s);
                (s, none, a)
            },
        }
    }
}

/// What holds of every reachable state: the commit is asked for only when
/// committing was requested, and the push only when pushing was, after a
/// commit was made or found and the remote was seen empty.
pub open spec fn finish_invariant(s: Finishing) -> bool {
    &&& (s.phase == FinishPhase::ReadingChanges || s.phase == FinishPhase::Committing || s.phase
        == FinishPhase::ReadingHead) ==> s.commit
    &&& s.phase == FinishPhase::ReadingRemote ==> s.push
    &&& s.phase == FinishPhase::Pushing ==> s.push && s.remote_empty
}

/// An initial catalog is committed only when committing was asked for, and
/// pushed only when pushing was, onto a remote seen empty just before; an
/// already initialized catalog is neither committed nor pushed again.
pub proof fn lemma_commit_and_push_only_as_asked(s: Finishing, e: FinishEventView)
    requires
        finish_invariant(s),
    ensures
        finish_invariant(spec_finish_step(s, e).0),
        spec_finish_step(s, e).2 is Commit ==> s.commit,
        spec_finish_step(s, e).2 is Push ==> spec_finish_step(s, e).0.push && spec_finish_step(s, e).0.remote_empty,
{
}

/// Starting keeps the invariant; an already initialized catalog finishes at
/// once, and without a commit request nothing is committed.
pub proof fn lemma_finish_start(already_initialized: bool, commit: bool, push: bool)
    ensures
        finish_invariant(spec_finish_start(already_initialized, commit, push).0),
        already_initialized ==> spec_finish_start(already_initialized, commit, push).2 == FinishActionView::Finish(
            Ok(()),
        ),
        !commit ==> !(spec_finish_start(already_initialized, commit, push).2 is ReadChanges),
{
}

/// Initializing again a catalog whose initial commit is the only ref that
/// origin holds, on the checked-out branch, finds it already initialized, and
/// finishing then neither commits nor pushes: running an initialization twice
/// changes nothing the second time.
pub proof fn lemma_initialized_catalog_is_left_alone(
    facts: InitializationFacts,
    branch: String,
    head: String,
    commit: bool,
    push: bool,
)
    requires
        facts.catalog == CatalogFileState::Initial,
        facts.changes@.len() == 0,
        only_catalog_file(facts.tracked_files@),
        facts.branch == Some(branch),
        facts.head == Some(head),
        facts.origin_refs@.len() == 1,
        facts.origin_refs@[0].0@ == head@,
        facts.origin_refs@[0].1@ == "refs/heads/"@ + branch@,
    ensures
        spec_plan_initialization(facts) == Ok::<InitializationPlan, crate::operations::InitializationError>(
            InitializationPlan { already_initialized: true, create_catalog: false },
        ),
        spec_finish_start(true, commit, push).0.phase == FinishPhase::Done,
        spec_finish_start(true, commit, push).2 == FinishActionView::Finish(Ok(())),
{
}

} // verus!
