//! UI-neutral decisions and structured operation progress.
use vstd::prelude::*;

use crate::catalog::ResolvedTool;
use crate::config::CatalogSource;
use crate::git::{RemoteRecoveryIncomplete, RepositoryStatus, RotIdentity};
use crate::launcher::ChildExit;
use crate::operations::{CatalogSummary, CatalogValidity, ToolSummary};
use crate::persistence::{Busy, DurabilityUncertain};
use crate::process::{Cancelled, CleanupIncomplete, TimedOut};

verus! {

/// One layer of an error: a message added as context, or a typed failure.
#[derive(Debug, Clone, PartialEq, Eq)]
pub enum ErrorLayer {
    Message(String),
    Busy(Busy),
    Cancelled(Cancelled),
    CleanupIncomplete(CleanupIncomplete),
    TimedOut(TimedOut),
    DurabilityUncertain(DurabilityUncertain),
    RemoteRecoveryIncomplete(RemoteRecoveryIncomplete),
    ChildExit(ChildExit),
}

/// The kind of an error layer, without its data.
#[derive(Debug, Clone, Copy, PartialEq, Eq, Structural)]
pub enum LayerKind {
    Message,
    Busy,
    Cancelled,
    CleanupIncomplete,
    TimedOut,
    DurabilityUncertain,
    RemoteRecoveryIncomplete,
    ChildExit,
}

impl ErrorLayer {
    pub open spec fn spec_kind(self) -> LayerKind {
        match self {
            ErrorLayer::Message(_) => LayerKind::Message,
            ErrorLayer::Busy(_) => LayerKind::Busy,
            ErrorLayer::Cancelled(_) => LayerKind::Cancelled,
            ErrorLayer::CleanupIncomplete(_) => LayerKind::CleanupIncomplete,
            ErrorLayer::TimedOut(_) => LayerKind::TimedOut,
            ErrorLayer::DurabilityUncertain(_) => LayerKind::DurabilityUncertain,
            ErrorLayer::RemoteRecoveryIncomplete(_) => LayerKind::RemoteRecoveryIncomplete,
            ErrorLayer::ChildExit(_) => LayerKind::ChildExit,
        }
    }

    /// A field-by-field copy.
    pub fn copy(&self) -> (r: Self)
        ensures
            r == *self,
    {
        match self {
            ErrorLayer::Message(m) => ErrorLayer::Message(m.clone()),
            ErrorLayer::Busy(b) => ErrorLayer::Busy(Busy { resource: b.resource.clone() }),
            ErrorLayer::Cancelled(c) => ErrorLayer::Cancelled(*c),
            ErrorLayer::CleanupIncomplete(c) => ErrorLayer::CleanupIncomplete(*c),
            ErrorLayer::TimedOut(t) => ErrorLayer::TimedOut(*t),
            ErrorLayer::DurabilityUncertain(d) => ErrorLayer::DurabilityUncertain(
                DurabilityUncertain { path: d.path.clone(), diagnostic: d.diagnostic.clone() },
            ),
            ErrorLayer::RemoteRecoveryIncomplete(r) => ErrorLayer::RemoteRecoveryIncomplete(
                RemoteRecoveryIncomplete { path: r.path.clone(), diagnostic: r.diagnostic.clone() },
            ),
            ErrorLayer::ChildExit(c) => ErrorLayer::ChildExit(c.copy()),
        }
    }

    /// The message of this layer.
    pub fn message(&self) -> (r: String)
        ensures
            r@ == spec_layer_message(self@),
    {
        match self {
            ErrorLayer::Message(m) => m.clone(),
            ErrorLayer::Busy(b) => crate::text::cat2(
                b.resource.as_str(),
                " is busy or changed while awaiting a decision; retry the operation",
            ),
            ErrorLayer::Cancelled(_) => "operation cancelled".to_string(),
            ErrorLayer::CleanupIncomplete(_) => "process cleanup could not be verified; cancellation is not complete and the checkout must be retained".to_string(),
            ErrorLayer::TimedOut(t) => {
                let d = crate::text::decimal(t.0);
                crate::text::cat3("process did not finish within ", d.as_str(), " seconds")
            },
            ErrorLayer::DurabilityUncertain(d) => crate::text::cat3(
                d.path.as_str(),
                " was replaced, but directory synchronization failed: ",
                d.diagnostic.as_str(),
            ),
            ErrorLayer::RemoteRecoveryIncomplete(r) => crate::text::cat4(
                "remote configuration recovery is incomplete in ",
                r.path.as_str(),
                "; inspect Git configuration before retrying: ",
                r.diagnostic.as_str(),
            ),
            ErrorLayer::ChildExit(c) => c.message(),
        }
    }

    pub fn kind(&self) -> (r: LayerKind)
        ensures
            r == self.spec_kind(),
    {
        match self {
            ErrorLayer::Message(_) => LayerKind::Message,
            ErrorLayer::Busy(_) => LayerKind::Busy,
            ErrorLayer::Cancelled(_) => LayerKind::Cancelled,
            ErrorLayer::CleanupIncomplete(_) => LayerKind::CleanupIncomplete,
            ErrorLayer::TimedOut(_) => LayerKind::TimedOut,
            ErrorLayer::DurabilityUncertain(_) => LayerKind::DurabilityUncertain,
            ErrorLayer::RemoteRecoveryIncomplete(_) => LayerKind::RemoteRecoveryIncomplete,
            ErrorLayer::ChildExit(_) => LayerKind::ChildExit,
        }
    }
}

/// The failure of an operation: its layers from the outermost context to the
/// original cause. A typed failure is found at whatever layer it stands.
#[derive(Debug, Clone, PartialEq, Eq)]
pub struct OperationError {
    pub layers: Vec<ErrorLayer>,
}

/// An error layer as plain values.
pub enum LayerView {
    Message(Seq<char>),
    Busy(Seq<char>),
    Cancelled,
    CleanupIncomplete,
    TimedOut(u64),
    DurabilityUncertain { path: Seq<char>, diagnostic: Seq<char> },
    RemoteRecoveryIncomplete { path: Seq<char>, diagnostic: Seq<char> },
    ChildExit { code: i32, target: Seq<char> },
}

impl View for ErrorLayer {
    type V = LayerView;

    open spec fn view(&self) -> LayerView {
        match self {
            ErrorLayer::Message(m) => LayerView::Message(m@),
            ErrorLayer::Busy(b) => LayerView::Busy(b.resource@),
            ErrorLayer::Cancelled(_) => LayerView::Cancelled,
            ErrorLayer::CleanupIncomplete(_) => LayerView::CleanupIncomplete,
            ErrorLayer::TimedOut(t) => LayerView::TimedOut(t.0),
            ErrorLayer::DurabilityUncertain(d) => LayerView::DurabilityUncertain {
                path: d.path@,
                diagnostic: d.diagnostic@,
            },
            ErrorLayer::RemoteRecoveryIncomplete(r) => LayerView::RemoteRecoveryIncomplete {
                path: r.path@,
                diagnostic: r.diagnostic@,
            },
            ErrorLayer::ChildExit(c) => LayerView::ChildExit { code: c.spec_code(), target: c.spec_target() },
        }
    }
}

impl View for OperationError {
    type V = Seq<LayerView>;

    open spec fn view(&self) -> Seq<LayerView> {
        self.layers@.map_values(|l: ErrorLayer| l@)
    }
}

/// The message of one layer, as its `Display` writes it.
pub open spec fn spec_layer_message(l: LayerView) -> Seq<char> {
    match l {
        LayerView::Message(m) => m,
        LayerView::Busy(resource) => resource + " is busy or changed while awaiting a decision; retry the operation"@,
        LayerView::Cancelled => "operation cancelled"@,
        LayerView::CleanupIncomplete => "process cleanup could not be verified; cancellation is not complete and the checkout must be retained"@,
        LayerView::TimedOut(seconds) => "process did not finish within "@ + crate::text::spec_decimal(seconds as nat)
            + " seconds"@,
        LayerView::DurabilityUncertain { path, diagnostic } => path
            + " was replaced, but directory synchronization failed: "@ + diagnostic,
        LayerView::RemoteRecoveryIncomplete { path, diagnostic } => "remote configuration recovery is incomplete in "@
            + path + "; inspect Git configuration before retrying: "@ + diagnostic,
        LayerView::ChildExit { code, target } => target + " exited with status "@
            + crate::launcher::spec_signed_decimal(code as int),
    }
}

/// The messages of all layers, outermost first, separated by `: `.
pub open spec fn spec_error_text(layers: Seq<LayerView>) -> Seq<char> {
    crate::text::spec_join_with(layers.map_values(|l: LayerView| spec_layer_message(l)), ": "@)
}

/// `e` is the single message `text`.
pub open spec fn is_message(e: OperationError, text: Seq<char>) -> bool {
    &&& e.layers@.len() == 1
    &&& e.layers@[0] matches ErrorLayer::Message(m) && m@ == text
}

/// `e` is a cancellation with `text` as its context.
pub open spec fn is_cancellation(e: OperationError, text: Seq<char>) -> bool {
    &&& e.layers@.len() == 2
    &&& e.layers@[0] matches ErrorLayer::Message(m) && m@ == text
    &&& e.layers@[1] == ErrorLayer::Cancelled(Cancelled)
}

impl OperationError {
    /// Whether some layer is of `kind`.
    pub open spec fn spec_has(self, kind: LayerKind) -> bool {
        exists|i: int| 0 <= i < self.layers@.len() && (#[trigger] self.layers@[i]).spec_kind() == kind
    }

    /// An error of one layer.
    pub fn new(layer: ErrorLayer) -> (r: Self)
        ensures
            r.layers@ == seq![layer],
    {
        let mut layers: Vec<ErrorLayer> = Vec::new();
        layers.push(layer);
        OperationError { layers }
    }

    /// A layer-by-layer copy.
    pub fn copy(&self) -> (r: Self)
        ensures
            r.layers@ == self.layers@,
            r@ == self@,
    {
        let mut layers: Vec<ErrorLayer> = Vec::new();
        let mut i: usize = 0;
        while i < self.layers.len()
            invariant
                i <= self.layers.len(),
                layers@ == self.layers@.subrange(0, i as int),
            decreases self.layers.len() - i,
        {
            layers.push(self.layers[i].copy());
            assert(layers@ =~= self.layers@.subrange(0, i + 1));
            i = i + 1;
        }
        assert(layers@ =~= self.layers@);
        let r = OperationError { layers };
        assert(r@ =~= self@);
        r
    }

    /// An error that is only a message.
    pub fn message(text: String) -> (r: Self)
        ensures
            r.layers@ == seq![ErrorLayer::Message(text)],
    {
        OperationError::new(ErrorLayer::Message(text))
    }

    /// This error with `text` added as its outermost context.
    pub fn context(self, text: String) -> (r: Self)
        ensures
            r.layers@ == seq![ErrorLayer::Message(text)] + self.layers@,
    {
        let mut layers = self.layers;
        layers.insert(0, ErrorLayer::Message(text));
        assert(layers@ =~= seq![ErrorLayer::Message(text)] + self.layers@);
        OperationError { layers }
    }

    /// Whether some layer is of `kind`.
    pub fn has(&self, kind: LayerKind) -> (r: bool)
        ensures
            r == self.spec_has(kind),
    {
        let mut i: usize = 0;
        while i < self.layers.len()
            invariant
                i <= self.layers.len(),
                forall|j: int| 0 <= j < i ==> (#[trigger] self.layers@[j]).spec_kind() != kind,
            decreases self.layers.len() - i,
        {
            if self.layers[i].kind() == kind {
                return true;
            }
            i = i + 1;
        }
        false
    }

    /// The whole error as one line: every layer's message, outermost first.
    pub fn text(&self) -> (r: String)
        ensures
            r@ == spec_error_text(self@),
    {
        let mut messages: Vec<String> = Vec::new();
        let mut i: usize = 0;
        while i < self.layers.len()
            invariant
                i <= self.layers.len(),
                messages@.len() == i,
                forall|j: int| 0 <= j < i ==> (#[trigger] messages@[j])@ == spec_layer_message(self.layers@[j]@),
            decreases self.layers.len() - i,
        {
            let m = self.layers[i].message();
            let ghost before = messages@;
            messages.push(m);
            assert forall|j: int| 0 <= j < i + 1 implies (#[trigger] messages@[j])@ == spec_layer_message(self.layers@[j]@) by {
                if j < i {
                    assert(messages@[j] == before[j]);
                }
            }
            i = i + 1;
        }
        assert(messages@.map_values(|m: String| m@) =~= self@.map_values(|l: LayerView| spec_layer_message(l)));
        crate::text::join_with(&messages, ": ")
    }

    /// The exit code for this error: that of the first launched program whose
    /// exit it reports, or 1.
    pub fn exit_code(&self) -> (r: i32)
        ensures
            (exists|i: int| 0 <= i < self.layers@.len() && (#[trigger] self.layers@[i]) is ChildExit) ==> exists|i: int|
                0 <= i < self.layers@.len() && ((#[trigger] self.layers@[i]) matches ErrorLayer::ChildExit(c) && r
                    == c.spec_code()) && forall|j: int| 0 <= j < i ==> !(self.layers@[j] is ChildExit),
            !(exists|i: int| 0 <= i < self.layers@.len() && (#[trigger] self.layers@[i]) is ChildExit) ==> r == 1,
    {
        let mut i: usize = 0;
        while i < self.layers.len()
            invariant
                i <= self.layers.len(),
                forall|j: int| 0 <= j < i ==> !((#[trigger] self.layers@[j]) is ChildExit),
            decreases self.layers.len() - i,
        {
            if let ErrorLayer::ChildExit(c) = &self.layers[i] {
                return c.code();
            }
            i = i + 1;
        }
        1
    }

    /// Whether the operation must stop rather than skip this failure: it was
    /// cancelled, its cleanup could not be verified, or a resource is busy.
    pub fn aborts_operation(&self) -> (r: bool)
        ensures
            r == (self.spec_has(LayerKind::Cancelled) || self.spec_has(LayerKind::CleanupIncomplete)
                || self.spec_has(LayerKind::Busy)),
    {
        self.has(LayerKind::Cancelled) || self.has(LayerKind::CleanupIncomplete) || self.has(
            LayerKind::Busy,
        )
    }

    /// Whether a fresh checkout may be removed after this failure.
    pub fn cleanup_is_safe(&self) -> (r: bool)
        ensures
            r == !(self.spec_has(LayerKind::Busy) || self.spec_has(LayerKind::CleanupIncomplete)
                || self.spec_has(LayerKind::DurabilityUncertain)),
    {
        !self.has(LayerKind::Busy) && !self.has(LayerKind::CleanupIncomplete) && !self.has(
            LayerKind::DurabilityUncertain,
        )
    }
}

/// Decisions discovered during Git operations, with domain data rather than
/// prompt text. Each default declines: it never authorizes an optional change.
pub trait Interaction {
    /// Whether a choice among identities can be asked for.
    fn can_choose(&self) -> (r: bool)
        default_ensures
            r == false,
    {
        false
    }

    /// The index of the identity to use, or `None` when none is chosen.
    fn choose_identity(&mut self, identities: &[RotIdentity]) -> (r: Result<Option<usize>, OperationError>)
        default_ensures
            r == Ok::<Option<usize>, OperationError>(None),
    {
        Ok(None)
    }

    /// Whether to configure an SSH push URL for a public HTTPS checkout.
    fn configure_push(&mut self) -> (r: Result<bool, OperationError>)
        default_ensures
            r == Ok::<bool, OperationError>(false),
    {
        Ok(false)
    }

    /// Whether to rewrite a checkout's fetch URL to the catalog's transport.
    fn reconcile_checkout(&mut self, fetch: &str, canonical: &str) -> (r: Result<bool, OperationError>)
        default_ensures
            r == Ok::<bool, OperationError>(false),
    {
        Ok(false)
    }

    /// Whether to replace an existing push URL.
    fn replace_push(&mut self, existing: &str, replacement: &str) -> (r: Result<bool, OperationError>)
        default_ensures
            r == Ok::<bool, OperationError>(false),
    {
        Ok(false)
    }

    /// Immediate progress notification, also retained in the operation's report.
    fn notice(&mut self, notice: &Notice) {
    }
}

/// One decision asked of an `Interaction`, with what came back.
pub enum Decision {
    /// The identities offered, and the index chosen, if any.
    Identity { identities: Seq<RotIdentity>, answer: Result<Option<usize>, OperationError> },
}

/// An interaction together with the record of the decisions asked of it and
/// what came back, so that what the library asks, and what it does with the
/// answer, can be stated.
pub struct Consulted<I> {
    pub interaction: I,
    history: Ghost<Seq<Decision>>,
}

impl<I: Interaction> Consulted<I> {
    /// The decisions asked so far, each with its answer, in order.
    pub closed spec fn decisions(&self) -> Seq<Decision> {
        self.history@
    }

    /// The interaction asked.
    pub closed spec fn consulting(&self) -> I {
        self.interaction
    }

    /// Start consulting `interaction`, with nothing asked yet.
    pub fn new(interaction: I) -> (r: Self)
        ensures
            r.consulting() == interaction,
            r.decisions() == Seq::<Decision>::empty(),
    {
        Consulted { interaction, history: Ghost(Seq::empty()) }
    }

    /// Ask which of `identities` to use.
    pub fn choose_identity(&mut self, identities: &[RotIdentity]) -> (r: Result<Option<usize>, OperationError>)
        ensures
            final(self).decisions() == old(self).decisions().push(
                Decision::Identity { identities: identities@, answer: r },
            ),
    {
        let r = self.interaction.choose_identity(identities);
        self.history = Ghost(self.history@.push(Decision::Identity { identities: identities@, answer: r }));
        r
    }
}

/// The answer of the last decision, when it was a choice of identity.
pub open spec fn identity_answer(decisions: Seq<Decision>) -> Result<Option<usize>, OperationError> {
    match decisions.last() {
        Decision::Identity { answer, .. } => answer,
    }
}

/// Safe unattended policy: never authorizes optional changes or chooses among identities.
pub struct Unattended;

impl Interaction for Unattended {

}

/// Progress and results of an operation, with domain data.
#[derive(Debug, Clone)]
pub enum Notice {
    CatalogInspected(CatalogSummary),
    ToolInspected(ToolSummary),
    CatalogResolved { name: String, path: String, source: CatalogSource },
    ToolResolved { tool: ResolvedTool, path: String },
    ToolSourceInspected { installed: bool, url: String, revision: Option<String> },
    RepositoryInspected(Option<RepositoryStatus>),
    CatalogFileInspected(CatalogValidity),
    CatalogRegistered { name: String },
    CatalogAlreadyRegistered { name: String },
    CatalogInstalled { name: String, path: String },
    CatalogAlreadyInstalled { name: String },
    CatalogCreated { name: String },
    CatalogAlreadyInitialized { name: String },
    InitialCatalogCommitted { commit_hash: String },
    InitialCatalogAlreadyCommitted,
    InitialCatalogUncommitted,
    InitialCatalogPushed { name: String },
    InitialCatalogNotPushed,
    CatalogCurrent { name: String, new_commit: String },
    CatalogSynced { name: String, old_commit: String, new_commit: String },
    CatalogMigrated { name: String },
    CatalogUncommitted,
    ToolAlreadyDefined { name: String, catalog_name: String },
    ToolAdded { name: String, catalog_name: String },
    CatalogCommitted { commit_hash: String },
    CatalogAlreadyCommitted,
    CatalogPushed { catalog_name: String },
    ToolAlreadyInstalled { name: String },
    ToolInstalled { name: String, path: String },
    PushUrlConfigured { push_url: String },
    ToolReconciled { name: String },
    ToolCurrent { name: String, new_commit: String },
    ToolUpdated { name: String, old_commit: String, new_commit: String },
    SkippedCatalog { name: String, diagnostic: String },
}

impl Notice {
    /// Whether the notice reports a change that was made: registering,
    /// installing, creating, committing, pushing, synchronizing, migrating,
    /// adding, configuring, reconciling or updating.
    pub open spec fn spec_completed_mutation(self) -> bool {
        ||| self is CatalogRegistered
        ||| self is CatalogInstalled
        ||| self is CatalogCreated
        ||| self is InitialCatalogCommitted
        ||| self is InitialCatalogPushed
        ||| self is CatalogSynced
        ||| self is CatalogMigrated
        ||| self is ToolAdded
        ||| self is CatalogCommitted
        ||| self is CatalogPushed
        ||| self is ToolInstalled
        ||| self is PushUrlConfigured
        ||| self is ToolReconciled
        ||| self is ToolUpdated
    }

    pub fn completed_mutation(&self) -> (r: bool)
        ensures
            r == self.spec_completed_mutation(),
    {
        match self {
            Notice::CatalogRegistered { .. } | Notice::CatalogInstalled { .. }
            | Notice::CatalogCreated { .. } | Notice::InitialCatalogCommitted { .. }
            | Notice::InitialCatalogPushed { .. } | Notice::CatalogSynced { .. }
            | Notice::CatalogMigrated { .. } | Notice::ToolAdded { .. }
            | Notice::CatalogCommitted { .. } | Notice::CatalogPushed { .. }
            | Notice::ToolInstalled { .. } | Notice::PushUrlConfigured { .. }
            | Notice::ToolReconciled { .. } | Notice::ToolUpdated { .. } => true,
            _ => false,
        }
    }
}

/// An operation's result together with all progress it reported, also on failure.
#[derive(Debug)]
pub struct OperationReport<T> {
    pub result: Result<T, OperationError>,
    pub notices: Vec<Notice>,
}

/// How an operation ended.
#[derive(Debug, Clone, Copy, PartialEq, Eq)]
pub enum OperationStatus {
    Succeeded,
    Busy,
    Cancelled,
    Failed,
}

/// The status of an operation's result: an incomplete remote recovery is a
/// failure before anything else; then a busy resource; then cancellation.
pub open spec fn spec_status<T>(result: Result<T, OperationError>) -> OperationStatus {
    match result {
        Ok(_) => OperationStatus::Succeeded,
        Err(e) => if e.spec_has(LayerKind::RemoteRecoveryIncomplete) {
            OperationStatus::Failed
        } else if e.spec_has(LayerKind::Busy) {
            OperationStatus::Busy
        } else if e.spec_has(LayerKind::Cancelled) {
            OperationStatus::Cancelled
        } else {
            OperationStatus::Failed
        },
    }
}

/// A failed operation is partial when it completed some change before failing,
/// or when its failure leaves durability or the remote configuration uncertain.
pub open spec fn spec_is_partial<T>(result: Result<T, OperationError>, notices: Seq<Notice>) -> bool {
    match result {
        Ok(_) => false,
        Err(e) => (exists|i: int| 0 <= i < notices.len() && (#[trigger] notices[i]).spec_completed_mutation())
            || e.spec_has(LayerKind::DurabilityUncertain) || e.spec_has(
            LayerKind::RemoteRecoveryIncomplete,
        ),
    }
}

/// Whether an operation may begin: one whose token was cancelled before it
/// began ends at once, cancelled, without running.
pub fn begin_operation(cancelled: bool) -> (r: Result<(), OperationError>)
    ensures
        !cancelled ==> r is Ok,
        cancelled ==> (r matches Err(e) && e.layers@ == seq![ErrorLayer::Cancelled(Cancelled)]),
{
    match crate::process::check_flag(cancelled) {
        Ok(()) => Ok(()),
        Err(c) => Err(OperationError::new(ErrorLayer::Cancelled(c))),
    }
}

/// The report of an operation that began when `notices` held `start` of them:
/// its result together with every notice recorded since, also on failure.
pub fn finish_report<T>(result: Result<T, OperationError>, notices: Vec<Notice>, start: usize) -> (r: OperationReport<T>)
    requires
        start <= notices.len(),
    ensures
        r.result == result,
        r.notices@ == notices@.subrange(start as int, notices@.len() as int),
{
    let mut all = notices;
    let since = all.split_off(start);
    OperationReport { result, notices: since }
}

impl<T> OperationReport<T> {
    pub fn status(&self) -> (r: OperationStatus)
        ensures
            r == spec_status(self.result),
    {
        match &self.result {
            Ok(_) => OperationStatus::Succeeded,
            Err(e) => {
                if e.has(LayerKind::RemoteRecoveryIncomplete) {
                    OperationStatus::Failed
                } else if e.has(LayerKind::Busy) {
                    OperationStatus::Busy
                } else if e.has(LayerKind::Cancelled) {
                    OperationStatus::Cancelled
                } else {
                    OperationStatus::Failed
                }
            },
        }
    }

    pub fn is_partial(&self) -> (r: bool)
        ensures
            r == spec_is_partial(self.result, self.notices@),
    {
        match &self.result {
            Ok(_) => false,
            Err(e) => {
                let mut i: usize = 0;
                while i < self.notices.len()
                    invariant
                        i <= self.notices.len(),
                        self.result is Err,
                        forall|j: int| 0 <= j < i ==> !(#[trigger] self.notices@[j]).spec_completed_mutation(),
                    decreases self.notices.len() - i,
                {
                    if self.notices[i].completed_mutation() {
                        return true;
                    }
                    i = i + 1;
                }
                e.has(LayerKind::DurabilityUncertain) || e.has(LayerKind::RemoteRecoveryIncomplete)
            },
        }
    }
}

/// Completed mutation steps of one operation.
#[derive(Debug, Clone)]
pub struct MutationOutcome {
    pub notices: Vec<Notice>,
}

} // verus!
