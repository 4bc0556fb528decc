//! The rules of catalog and tool operations: what is registered, what a
//! repository must look like before it becomes a catalog, and the values the
//! operations report. Reading files and running Git is the caller's part.
use vstd::prelude::*;

use crate::catalog::{CatalogFile, ResolvedTool, Runner, ToolConfig};
use crate::config::{
    catalogs_view, find_slot, keyed, keys_ascending, lemma_insert_ascending, lemma_position, lemma_position_view, lemma_same_keys, position, spec_insert, spec_lookup,
    spec_position, CatalogSource, LegacyConfig, LocalConfig, SourceView,
};
use crate::git::{lemma_views_push, lines, spec_lines, views};
use crate::paths::{spec_valid_name, validate_name};
use crate::recipe::{compare_text, lemma_lex_lt_irreflexive, lemma_lex_lt_transitive, lemma_lex_total, lex_lt};
use crate::text::{eq_ignore_ascii_case, chars_of, spec_eq_ignore_ascii_case, str_eq};
use crate::git::RepositoryStatus;
use crate::recipe::WorkingDirectory;

verus! {

/// Whether a registered catalog is installed as its configured repository.
#[derive(Debug, Clone, Copy, PartialEq, Eq)]
pub enum CatalogState {
    Missing,
    Installed,
    Mismatch,
}

/// What reading a catalog's file found.
#[derive(Debug, Clone, PartialEq, Eq)]
pub enum CatalogValidity {
    Unmanaged,
    Missing,
    Valid,
    Invalid(String),
}

/// One row of the catalog list.
#[derive(Debug, Clone)]
pub struct CatalogSummary {
    pub name: String,
    pub source: CatalogSource,
    pub state: CatalogState,
    pub default: bool,
}

/// The detailed status of one catalog.
#[derive(Debug, Clone)]
pub struct CatalogStatus {
    pub name: String,
    pub path: String,
    pub source: CatalogSource,
    pub repository: Option<RepositoryStatus>,
    pub file: CatalogValidity,
}

/// One row of the tool list.
#[derive(Debug, Clone)]
pub struct ToolSummary {
    pub tool: ResolvedTool,
    pub installed: bool,
}

/// The detailed status of one tool.
#[derive(Debug, Clone)]
pub struct ToolStatus {
    pub tool: ResolvedTool,
    pub path: String,
    pub installed: bool,
    pub repository: Option<RepositoryStatus>,
}

/// How a working-tree path changed.
#[derive(Debug, Clone, Copy, PartialEq, Eq)]
pub enum RepositoryChangeKind {
    Modified,
    Added,
    Deleted,
    Renamed,
}

/// One changed path of a working tree; a rename also names its original path.
#[derive(Debug, Clone, PartialEq, Eq)]
pub struct RepositoryChange {
    pub path: String,
    pub original_path: Option<String>,
    pub status: RepositoryChangeKind,
}

/// What a push would carry: uncommitted changes, and whether commits are ahead of origin.
#[derive(Debug, Clone, PartialEq, Eq)]
pub struct ToolPushInspection {
    pub changed_files: Vec<RepositoryChange>,
    pub commits_ahead: bool,
}

/// The name and owner of a personal shortcut.
#[derive(Debug, Clone, PartialEq, Eq)]
pub struct ShortcutIdentity {
    pub name: String,
    pub catalog: String,
    pub tool: String,
    pub path: Option<String>,
}

/// A request to probe the help of one project-owned target.
#[derive(Debug, Clone, PartialEq, Eq)]
pub struct ShortcutHelpRequest {
    pub catalog: String,
    pub tool: String,
    pub target: String,
    pub runner: Runner,
    pub working_directory: WorkingDirectory,
}

/// What a picked project path must be.
#[derive(Debug, Clone, Copy, PartialEq, Eq)]
pub enum ProjectPathKind {
    File,
    Directory,
}


/// Why a catalog cannot be registered as requested.
#[derive(Debug, Clone, PartialEq, Eq)]
pub enum RegistrationError {
    /// The name is registered with another URL or writability, and its checkout exists.
    DifferentSettings(String),
    /// Another registered name differs from this one only in ASCII case.
    NameConflict { name: String, existing: String },
    /// The configuration changed this entry while the operation ran.
    Busy,
    /// A name differing only in case was registered while the operation ran.
    ConcurrentConflict(String),
}

pub enum RegistrationErrorView {
    DifferentSettings(Seq<char>),
    NameConflict { name: Seq<char>, existing: Seq<char> },
    Busy,
    ConcurrentConflict(Seq<char>),
}

impl View for RegistrationError {
    type V = RegistrationErrorView;

    open spec fn view(&self) -> RegistrationErrorView {
        match self {
            RegistrationError::DifferentSettings(n) => RegistrationErrorView::DifferentSettings(n@),
            RegistrationError::NameConflict { name, existing } => RegistrationErrorView::NameConflict {
                name: name@,
                existing: existing@,
            },
            RegistrationError::Busy => RegistrationErrorView::Busy,
            RegistrationError::ConcurrentConflict(n) => RegistrationErrorView::ConcurrentConflict(n@),
        }
    }
}

impl RegistrationError {
    pub open spec fn spec_message(self, config_path: Seq<char>) -> Seq<char> {
        match self {
            RegistrationError::DifferentSettings(n) => "catalog '"@ + n@ + "' is already configured with different settings"@,
            RegistrationError::NameConflict { name, existing } => "catalog name '"@ + name@
                + "' conflicts with configured catalog '"@ + existing@ + "'"@,
            RegistrationError::Busy => config_path + " is busy or changed while awaiting a decision; retry the operation"@,
            RegistrationError::ConcurrentConflict(n) => "catalog name '"@ + n@
                + "' conflicts with a concurrently registered catalog"@,
        }
    }

    /// The message, naming the configuration file where it was busy.
    pub fn message(&self, config_path: &str) -> (r: String)
        ensures
            r@ == self.spec_message(config_path@),
    {
        match self {
            RegistrationError::DifferentSettings(n) => crate::text::cat3(
                "catalog '",
                n.as_str(),
                "' is already configured with different settings",
            ),
            RegistrationError::NameConflict { name, existing } => crate::text::cat5(
                "catalog name '",
                name.as_str(),
                "' conflicts with configured catalog '",
                existing.as_str(),
                "'",
            ),
            RegistrationError::Busy => crate::persistence::Busy { resource: config_path.to_string() }.message(),
            RegistrationError::ConcurrentConflict(n) => crate::text::cat3(
                "catalog name '",
                n.as_str(),
                "' conflicts with a concurrently registered catalog",
            ),
        }
    }
}

/// `name` is registered with another URL or writability than `source`.
pub open spec fn spec_existing_differs(
    catalogs: Seq<(Seq<char>, SourceView)>,
    name: Seq<char>,
    source: SourceView,
) -> bool {
    match spec_lookup(catalogs, name) {
        Some(existing) => existing.0 != source.0 || existing.1 != source.1,
        None => false,
    }
}

/// The first registered name, in order, that differs from `name` only in ASCII case.
pub open spec fn spec_case_conflict<V>(catalogs: Seq<(Seq<char>, V)>, name: Seq<char>) -> Option<
    Seq<char>,
>
    decreases catalogs.len(),
{
    if catalogs.len() == 0 {
        None
    } else if catalogs[0].0 != name && spec_eq_ignore_ascii_case(catalogs[0].0, name) {
        Some(catalogs[0].0)
    } else {
        spec_case_conflict(catalogs.drop_first(), name)
    }
}

/// Whether registering `name` with `source` changes the configuration, or why
/// it is refused: a registration with other settings whose checkout exists, or
/// a name that differs from a registered one only in case.
pub open spec fn spec_plan_registration(
    catalogs: Seq<(Seq<char>, SourceView)>,
    name: Seq<char>,
    source: SourceView,
    destination_exists: bool,
) -> Result<bool, RegistrationErrorView> {
    let differs = spec_existing_differs(catalogs, name, source);
    if differs && destination_exists {
        Err(RegistrationErrorView::DifferentSettings(name))
    } else {
        match spec_case_conflict(catalogs, name) {
            Some(existing) => Err(RegistrationErrorView::NameConflict { name, existing }),
            None => Ok(spec_lookup(catalogs, name) is None || differs),
        }
    }
}

/// A name not registered yet is taken unless it differs only in case from a
/// registered one, which is refused naming that one.
pub proof fn lemma_new_registration(
    catalogs: Seq<(Seq<char>, SourceView)>,
    name: Seq<char>,
    source: SourceView,
    destination_exists: bool,
)
    requires
        spec_lookup(catalogs, name) is None,
    ensures
        spec_case_conflict(catalogs, name) is None ==> spec_plan_registration(
            catalogs,
            name,
            source,
            destination_exists,
        ) == Ok::<bool, RegistrationErrorView>(true),
        spec_case_conflict(catalogs, name) matches Some(existing) ==> spec_plan_registration(
            catalogs,
            name,
            source,
            destination_exists,
        ) == Err::<bool, RegistrationErrorView>(RegistrationErrorView::NameConflict { name, existing }),
{
}

/// Registering again a catalog that is registered with another URL or another
/// writability, while its checkout exists, is refused as different settings;
/// with the same URL and writability and no conflicting name it changes
/// nothing; and with a checkout that does not exist yet the new settings are
/// taken.
pub proof fn lemma_registration_settings(
    catalogs: Seq<(Seq<char>, SourceView)>,
    name: Seq<char>,
    source: SourceView,
    destination_exists: bool,
    existing: SourceView,
)
    requires
        spec_lookup(catalogs, name) == Some(existing),
    ensures
        (existing.0 != source.0 || existing.1 != source.1) && destination_exists ==> spec_plan_registration(
            catalogs,
            name,
            source,
            destination_exists,
        ) == Err::<bool, RegistrationErrorView>(RegistrationErrorView::DifferentSettings(name)),
        existing.1 != source.1 && destination_exists ==> spec_plan_registration(
            catalogs,
            name,
            source,
            destination_exists,
        ) == Err::<bool, RegistrationErrorView>(RegistrationErrorView::DifferentSettings(name)),
        existing.0 == source.0 && existing.1 == source.1 && spec_case_conflict(catalogs, name) is None
            ==> spec_plan_registration(catalogs, name, source, destination_exists) == Ok::<bool, RegistrationErrorView>(
            false,
        ),
        (existing.0 != source.0 || existing.1 != source.1) && !destination_exists && spec_case_conflict(
            catalogs,
            name,
        ) is None ==> spec_plan_registration(catalogs, name, source, destination_exists) == Ok::<
            bool,
            RegistrationErrorView,
        >(true),
{
}

/// The case conflict depends on the names alone.
proof fn lemma_case_conflict_keys<V, W>(a: Seq<(Seq<char>, V)>, b: Seq<(Seq<char>, W)>, name: Seq<char>)
    requires
        a.len() == b.len(),
        forall|i: int| 0 <= i < a.len() ==> #[trigger] a[i].0 == b[i].0,
    ensures
        spec_case_conflict(a, name) == spec_case_conflict(b, name),
    decreases a.len(),
{
    if a.len() > 0 {
        let (af, bf) = (a.drop_first(), b.drop_first());
        assert forall|i: int| 0 <= i < af.len() implies #[trigger] af[i].0 == bf[i].0 by {
            assert(af[i] == a[i + 1] && bf[i] == b[i + 1]);
        }
        lemma_case_conflict_keys(af, bf, name);
        assert(a[0].0 == b[0].0);
    }
}

fn case_conflict<V>(entries: &Vec<(String, V)>, name: &str) -> (r: Option<String>)
    ensures
        crate::git::opt_string_view(r) == spec_case_conflict(keyed(entries@), name@),
{
    let ghost all = keyed(entries@);
    let n = chars_of(name);
    let mut i: usize = 0;
    assert(all.subrange(0, entries.len() as int) =~= all);
    while i < entries.len()
        invariant
            i <= entries.len(),
            all == keyed(entries@),
            n@ == name@,
            spec_case_conflict(all, name@) == spec_case_conflict(all.subrange(i as int, all.len() as int), name@),
        decreases entries.len() - i,
    {
        let ghost rest = all.subrange(i as int, all.len() as int);
        assert(rest[0] == all[i as int]);
        assert(rest.drop_first() =~= all.subrange(i + 1, all.len() as int));
        let key = chars_of(entries[i].0.as_str());
        if !crate::text::eq(&key, &n) && eq_ignore_ascii_case(&key, &n) {
            return Some(entries[i].0.clone());
        }
        i = i + 1;
    }
    None
}

/// The case conflict among registered catalogs.
fn catalog_case_conflict(catalogs: &Vec<(String, CatalogSource)>, name: &str) -> (r: Option<String>)
    ensures
        crate::git::opt_string_view(r) == spec_case_conflict(catalogs_view(catalogs@), name@),
{
    proof {
        assert forall|i: int| 0 <= i < catalogs@.len() implies #[trigger] keyed(catalogs@)[i].0
            == catalogs_view(catalogs@)[i].0 by {}
        lemma_case_conflict_keys(keyed(catalogs@), catalogs_view(catalogs@), name@);
    }
    case_conflict(catalogs, name)
}

/// Check a registration before anything is cloned or written, and say whether
/// it changes the configuration.
pub fn plan_registration(
    local: &LocalConfig,
    name: &str,
    source: &CatalogSource,
    destination_exists: bool,
) -> (r: Result<bool, RegistrationError>)
    ensures
        match r {
            Ok(b) => spec_plan_registration(catalogs_view(local.catalogs@), name@, source@, destination_exists)
                == Ok::<bool, RegistrationErrorView>(b),
            Err(e) => spec_plan_registration(catalogs_view(local.catalogs@), name@, source@, destination_exists)
                == Err::<bool, RegistrationErrorView>(e@),
        },
{
    let existing = local.source(name);
    let differs = match existing {
        Some(e) => !str_eq(e.url.as_str(), source.url.as_str()) || e.writable != source.writable,
        None => false,
    };
    if differs && destination_exists {
        return Err(RegistrationError::DifferentSettings(name.to_string()));
    }
    match catalog_case_conflict(&local.catalogs, name) {
        Some(existing_name) => Err(RegistrationError::NameConflict { name: name.to_string(), existing: existing_name }),
        None => Ok(existing.is_none() || differs),
    }
}

/// Register `source` under `name`, replacing an entry of that name, and make
/// it the default catalog when there is none.
pub fn register(local: &mut LocalConfig, name: &str, source: &CatalogSource)
    ensures
        catalogs_view(final(local).catalogs@) == spec_insert(catalogs_view(old(local).catalogs@), name@, source@),
        old(local).default_catalog is Some ==> final(local).default_catalog == old(local).default_catalog,
        old(local).default_catalog is None ==> (final(local).default_catalog matches Some(d) && d@ == name@),
        final(local).version == old(local).version,
        final(local).extra == old(local).extra,
        keys_ascending(catalogs_view(old(local).catalogs@)) ==> keys_ascending(catalogs_view(final(local).catalogs@)),
{
    proof {
        if keys_ascending(catalogs_view(local.catalogs@)) {
            lemma_insert_ascending(catalogs_view(local.catalogs@), name@, source@);
        }
    }
    insert_source(&mut local.catalogs, name.to_string(), source.copy());
    if local.default_catalog.is_none() {
        local.default_catalog = Some(name.to_string());
    }
}

/// The migration of a legacy configuration into the writable catalog `name`
/// at `url`: the catalog file holds the legacy tools, and the new
/// configuration registers that catalog alone, as the default, keeping the
/// legacy file's unknown fields.
pub fn migrate_legacy(legacy: LegacyConfig, name: &str, url: String) -> (r: (CatalogFile, LocalConfig))
    ensures
        r.0.version == crate::catalog::CATALOG_VERSION,
        r.0.tools == legacy.tools,
        r.0.extra@.len() == 0,
        r.1.version == crate::config::CONFIG_VERSION,
        r.1.default_catalog matches Some(d) && d@ == name@,
        catalogs_view(r.1.catalogs@) == seq![(name@, (url@, true, Seq::<(Seq<char>, Seq<char>)>::empty()))],
        r.1.extra == legacy.extra,
{
    let mut catalog = CatalogFile::new();
    catalog.tools = legacy.tools;
    let mut local = LocalConfig::new();
    local.extra = legacy.extra;
    let source = CatalogSource::new(url, true);
    let ghost empty = local.catalogs@;
    register(&mut local, name, &source);
    proof {
        assert(catalogs_view(empty) =~= Seq::<(Seq<char>, SourceView)>::empty());
        reveal_with_fuel(crate::config::spec_position, 2);
        assert(spec_insert(catalogs_view(empty), name@, source@) =~= seq![(name@, source@)]);
        assert(crate::config::extra_view(source.extra@) =~= Seq::<(Seq<char>, Seq<char>)>::empty());
    }
    (catalog, local)
}

/// Insert or replace the entry named `name`, keeping the names in order.
pub fn insert_source(entries: &mut Vec<(String, CatalogSource)>, name: String, source: CatalogSource)
    ensures
        catalogs_view(final(entries)@) == spec_insert(catalogs_view(old(entries)@), name@, source@),
{
    let ghost before = entries@;
    let (i, found) = find_slot(entries, name.as_str());
    proof {
        assert forall|j: int| 0 <= j < before.len() implies #[trigger] keyed(before)[j].0
            == catalogs_view(before)[j].0 by {}
        lemma_same_keys(keyed(before), catalogs_view(before), name@);
    }
    let ghost sv = source@;
    let ghost nv = name@;
    if found {
        entries.set(i, (name, source));
        assert(catalogs_view(entries@) =~= catalogs_view(before).update(i as int, (nv, sv)));
    } else {
        entries.insert(i, (name, source));
        assert(catalogs_view(entries@) =~= catalogs_view(before).insert(i as int, (nv, sv)));
    }
}


/// Apply the registrations of `entries` that differ from `original` to the
/// configuration read again at save time, `current`: an entry that `current`
/// changed meanwhile makes the configuration busy, and a name that differs
/// from a current one only in case is refused.
pub open spec fn spec_merge_entries(
    original: Seq<(Seq<char>, SourceView)>,
    entries: Seq<(Seq<char>, SourceView)>,
    current: Seq<(Seq<char>, SourceView)>,
) -> Result<Seq<(Seq<char>, SourceView)>, RegistrationErrorView>
    decreases entries.len(),
{
    if entries.len() == 0 {
        Ok(current)
    } else {
        let (name, source) = entries[0];
        if spec_lookup(original, name) == Some(source) {
            spec_merge_entries(original, entries.drop_first(), current)
        } else if spec_lookup(current, name) != spec_lookup(original, name) {
            Err(RegistrationErrorView::Busy)
        } else if spec_case_conflict(current, name) is Some {
            Err(RegistrationErrorView::ConcurrentConflict(name))
        } else {
            spec_merge_entries(original, entries.drop_first(), spec_insert(current, name, source))
        }
    }
}

/// Merging registrations into entries whose keys ascend keeps them ascending.
proof fn lemma_merge_ascending(
    original: Seq<(Seq<char>, SourceView)>,
    entries: Seq<(Seq<char>, SourceView)>,
    current: Seq<(Seq<char>, SourceView)>,
)
    requires
        keys_ascending(current),
    ensures
        spec_merge_entries(original, entries, current) matches Ok(m) ==> keys_ascending(m),
    decreases entries.len(),
{
    if entries.len() > 0 {
        let (name, source) = entries[0];
        lemma_insert_ascending(current, name, source);
        lemma_merge_ascending(original, entries.drop_first(), current);
        lemma_merge_ascending(original, entries.drop_first(), spec_insert(current, name, source));
    }
}

/// Merge this operation's registrations into the configuration as it is now,
/// so that concurrent registrations of other catalogs are kept. The default
/// catalog is set only where the current configuration has none.
pub fn merge_registration(original: &LocalConfig, desired: &LocalConfig, current: LocalConfig) -> (r: Result<
    LocalConfig,
    RegistrationError,
>)
    ensures
        r matches Ok(merged) ==> spec_merge_entries(
            catalogs_view(original.catalogs@),
            catalogs_view(desired.catalogs@),
            catalogs_view(current.catalogs@),
        ) == Ok::<Seq<(Seq<char>, SourceView)>, RegistrationErrorView>(catalogs_view(merged.catalogs@)),
        r matches Ok(merged) ==> merged.default_catalog == (if current.default_catalog is Some {
            current.default_catalog
        } else {
            desired.default_catalog
        }),
        r matches Ok(merged) ==> merged.version == current.version && merged.extra == current.extra,
        keys_ascending(catalogs_view(current.catalogs@)) ==> (r matches Ok(merged) ==> keys_ascending(
            catalogs_view(merged.catalogs@),
        )),
        r matches Err(e) ==> spec_merge_entries(
            catalogs_view(original.catalogs@),
            catalogs_view(desired.catalogs@),
            catalogs_view(current.catalogs@),
        ) == Err::<Seq<(Seq<char>, SourceView)>, RegistrationErrorView>(e@),
{
    let ghost orig = catalogs_view(original.catalogs@);
    let ghost all = catalogs_view(desired.catalogs@);
    let ghost goal = spec_merge_entries(orig, all, catalogs_view(current.catalogs@));
    proof {
        if keys_ascending(catalogs_view(current.catalogs@)) {
            lemma_merge_ascending(orig, all, catalogs_view(current.catalogs@));
        }
    }
    let mut merged = current;
    let mut i: usize = 0;
    assert(all.subrange(0, all.len() as int) =~= all);
    while i < desired.catalogs.len()
        invariant
            i <= desired.catalogs.len(),
            orig == catalogs_view(original.catalogs@),
            all == catalogs_view(desired.catalogs@),
            goal == spec_merge_entries(orig, all.subrange(i as int, all.len() as int), catalogs_view(merged.catalogs@)),
            goal == spec_merge_entries(orig, all, catalogs_view(current.catalogs@)),
            merged.default_catalog == current.default_catalog,
            merged.version == current.version,
            merged.extra == current.extra,
        decreases desired.catalogs.len() - i,
    {
        let ghost rest = all.subrange(i as int, all.len() as int);
        assert(rest[0] == all[i as int]);
        assert(rest.drop_first() =~= all.subrange(i + 1, all.len() as int));
        let name = &desired.catalogs[i].0;
        let source = &desired.catalogs[i].1;
        let before = original.source(name.as_str());
        let unchanged = match before {
            Some(b) => b.same(source),
            None => false,
        };
        if !unchanged {
            let now = merged.source(name.as_str());
            let same_as_before = match (now, before) {
                (Some(a), Some(b)) => a.same(b),
                (None, None) => true,
                _ => false,
            };
            if !same_as_before {
                return Err(RegistrationError::Busy);
            }
            if catalog_case_conflict(&merged.catalogs, name.as_str()).is_some() {
                return Err(RegistrationError::ConcurrentConflict(name.clone()));
            }
            insert_source(&mut merged.catalogs, name.clone(), source.copy());
        }
        i = i + 1;
    }
    if merged.default_catalog.is_none() {
        merged.default_catalog = match &desired.default_catalog {
            Some(d) => Some(d.clone()),
            None => None,
        };
    }
    Ok(merged)
}


/// Why a catalog cannot be initialized; the messages name the catalog.
#[derive(Debug, Clone, Copy, PartialEq, Eq, Structural)]
pub enum InitializationError {
    InvalidName,
    EmptyUrl,
    NotWritable,
    PushWithoutCommit,
    UnrelatedChanges,
    ConflictingCatalog,
    Detached,
    NoLocalCommit,
    NotEmptyCatalog,
    NoBranch,
    LocalOtherData,
    ExistingData,
    NotDetected,
}

impl InitializationError {
    /// The message for the error about the catalog `name`.
    pub open spec fn spec_message(self, name: Seq<char>) -> Seq<char> {
        match self {
            InitializationError::InvalidName => crate::paths::spec_name_message(name),
            InitializationError::EmptyUrl => "Git URL must not be empty"@,
            InitializationError::NotWritable => "a catalog initialized by Loadbot must be writable"@,
            InitializationError::PushWithoutCommit => "pushing the initial catalog requires committing it first"@,
            InitializationError::UnrelatedChanges => "refusing to initialize catalog '"@ + name
                + "': working tree has unrelated changes"@,
            InitializationError::ConflictingCatalog => "refusing initialization because catalog.toml contains conflicting data"@,
            InitializationError::Detached => "refusing initialization because the repository is detached"@,
            InitializationError::NoLocalCommit => "refusing initialization because the repository has no local commit"@,
            InitializationError::NotEmptyCatalog => "refusing to initialize catalog '"@ + name
                + "': the repository is not an empty or already initialized Loadbot catalog"@,
            InitializationError::NoBranch => "refusing to initialize catalog: repository has no checked-out branch"@,
            InitializationError::LocalOtherData => "refusing initialization because the local repository contains other data"@,
            InitializationError::ExistingData => "refusing to initialize catalog '"@ + name
                + "': repository contains existing data"@,
            InitializationError::NotDetected => "refusing initialization because Git does not detect catalog.toml as a change"@,
        }
    }

    pub fn message(self, name: &str) -> (r: String)
        ensures
            r@ == self.spec_message(name@),
    {
        match self {
            InitializationError::InvalidName => crate::paths::name_message(name),
            InitializationError::EmptyUrl => "Git URL must not be empty".to_string(),
            InitializationError::NotWritable => "a catalog initialized by Loadbot must be writable".to_string(),
            InitializationError::PushWithoutCommit => "pushing the initial catalog requires committing it first".to_string(),
            InitializationError::UnrelatedChanges => crate::text::cat3(
                "refusing to initialize catalog '",
                name,
                "': working tree has unrelated changes",
            ),
            InitializationError::ConflictingCatalog => "refusing initialization because catalog.toml contains conflicting data".to_string(),
            InitializationError::Detached => "refusing initialization because the repository is detached".to_string(),
            InitializationError::NoLocalCommit => "refusing initialization because the repository has no local commit".to_string(),
            InitializationError::NotEmptyCatalog => crate::text::cat3(
                "refusing to initialize catalog '",
                name,
                "': the repository is not an empty or already initialized Loadbot catalog",
            ),
            InitializationError::NoBranch => "refusing to initialize catalog: repository has no checked-out branch".to_string(),
            InitializationError::LocalOtherData => "refusing initialization because the local repository contains other data".to_string(),
            InitializationError::ExistingData => crate::text::cat3(
                "refusing to initialize catalog '",
                name,
                "': repository contains existing data",
            ),
            InitializationError::NotDetected => "refusing initialization because Git does not detect catalog.toml as a change".to_string(),
        }
    }
}

/// What the request itself must satisfy: a portable name, a URL, a writable
/// catalog, and a push only together with a commit.
pub open spec fn spec_check_initialization_request(
    name: Seq<char>,
    url: Seq<char>,
    writable: bool,
    commit: bool,
    push: bool,
) -> Result<(), InitializationError> {
    if !spec_valid_name(name) {
        Err(InitializationError::InvalidName)
    } else if url.len() == 0 {
        Err(InitializationError::EmptyUrl)
    } else if !writable {
        Err(InitializationError::NotWritable)
    } else if push && !commit {
        Err(InitializationError::PushWithoutCommit)
    } else {
        Ok(())
    }
}

/// Check an initialization request before anything is read or written.
pub fn check_initialization_request(name: &str, url: &str, writable: bool, commit: bool, push: bool) -> (r:
    Result<(), InitializationError>)
    ensures
        r == spec_check_initialization_request(name@, url@, writable, commit, push),
{
    if validate_name(name).is_err() {
        Err(InitializationError::InvalidName)
    } else if url.is_empty() {
        Err(InitializationError::EmptyUrl)
    } else if !writable {
        Err(InitializationError::NotWritable)
    } else if push && !commit {
        Err(InitializationError::PushWithoutCommit)
    } else {
        Ok(())
    }
}

/// The number of bytes `c` takes in UTF-8.
pub open spec fn utf8_len(c: char) -> nat {
    let x = c as u32;
    if x < 0x80 {
        1
    } else if x < 0x800 {
        2
    } else if x < 0x10000 {
        3
    } else {
        4
    }
}

/// The number of bytes `s` takes in UTF-8.
pub open spec fn byte_len(s: Seq<char>) -> nat
    decreases s.len(),
{
    if s.len() == 0 {
        0
    } else {
        byte_len(s.drop_last()) + utf8_len(s.last())
    }
}

/// A porcelain status line for `catalog.toml`: `line.get(3..)` is that path.
pub open spec fn spec_is_catalog_status_line(line: Seq<char>) -> bool {
    &&& line.len() >= 12
    &&& line.subrange(line.len() - 12, line.len() as int) == "catalog.toml"@
    &&& byte_len(line.subrange(0, line.len() - 12)) == 3
}

/// The working tree has changes other than to `catalog.toml`.
pub open spec fn spec_unrelated_changes(changes: Seq<char>) -> bool {
    changes.len() > 0 && exists|i: int|
        0 <= i < spec_lines(changes).len() && !spec_is_catalog_status_line(#[trigger] spec_lines(changes)[i])
}

fn char_utf8_len(c: char) -> (r: usize)
    ensures
        r == utf8_len(c),
{
    let x = c as u32;
    if x < 0x80 {
        1
    } else if x < 0x800 {
        2
    } else if x < 0x10000 {
        3
    } else {
        4
    }
}

proof fn lemma_byte_len_grows(s: Seq<char>, k: int)
    requires
        0 <= k <= s.len(),
    ensures
        byte_len(s.subrange(0, k)) <= byte_len(s),
        byte_len(s) >= s.len(),
    decreases s.len(),
{
    if s.len() > 0 {
        if k < s.len() {
            lemma_byte_len_grows(s.drop_last(), k);
            assert(s.drop_last().subrange(0, k) =~= s.subrange(0, k));
        } else {
            assert(s.subrange(0, k) =~= s);
            lemma_byte_len_grows(s.drop_last(), 0);
        }
    } else {
        assert(s.subrange(0, k) =~= s);
    }
}

fn is_catalog_status_line(line: &Vec<char>) -> (r: bool)
    ensures
        r == spec_is_catalog_status_line(line@),
{
    let n = line.len();
    if n < 12 {
        return false;
    }
    let suffix = crate::text::subvec(line, n - 12, n);
    if !crate::text::eq(&suffix, &chars_of("catalog.toml")) {
        return false;
    }
    let k = n - 12;
    if k > 3 {
        proof {
            let p = line@.subrange(0, k as int);
            lemma_byte_len_grows(p, 0);
        }
        return false;
    }
    let mut total: usize = 0;
    let mut i: usize = 0;
    while i < k
        invariant
            i <= k <= 3,
            k <= line.len(),
            total == byte_len(line@.subrange(0, i as int)),
            total <= 4 * i,
        decreases k - i,
    {
        assert(line@.subrange(0, i + 1).drop_last() =~= line@.subrange(0, i as int));
        total = total + char_utf8_len(line[i]);
        i = i + 1;
    }
    total == 3
}

/// Whether the working tree, as `git status --porcelain` printed it (trimmed),
/// has changes other than to `catalog.toml`.
pub fn unrelated_changes(changes: &str) -> (r: bool)
    ensures
        r == spec_unrelated_changes(changes@),
{
    let text = chars_of(changes);
    if text.len() == 0 {
        return false;
    }
    let all = lines(&text);
    let mut i: usize = 0;
    while i < all.len()
        invariant
            i <= all.len(),
            views(all@) == spec_lines(changes@),
            changes@.len() > 0,
            forall|j: int| 0 <= j < i ==> spec_is_catalog_status_line(#[trigger] spec_lines(changes@)[j]),
        decreases all.len() - i,
    {
        let line = chars_of(all[i].as_str());
        assert(views(all@)[i as int] == all@[i as int]@);
        if !is_catalog_status_line(&line) {
            return true;
        }
        i = i + 1;
    }
    false
}

/// Whether an existing `catalog.toml` is absent, the initial empty catalog, or something else.
#[derive(Debug, Clone, Copy, PartialEq, Eq)]
pub enum CatalogFileState {
    Absent,
    Initial,
    Conflicting,
}

/// What Git and the file system report about a repository being initialized.
#[derive(Debug, Clone)]
pub struct InitializationFacts {
    /// `git status --porcelain`, trimmed.
    pub changes: String,
    /// Origin's references as (commit, reference name).
    pub origin_refs: Vec<(String, String)>,
    pub head: Option<String>,
    pub branch: Option<String>,
    pub tracked_files: Vec<String>,
    pub catalog: CatalogFileState,
}

/// What initialization will do: nothing more for a catalog that is already
/// initialized and pushed, and whether `catalog.toml` must be created.
#[derive(Debug, Clone, Copy, PartialEq, Eq)]
pub struct InitializationPlan {
    pub already_initialized: bool,
    pub create_catalog: bool,
}

/// `catalog.toml` is the only file under version control.
pub open spec fn only_catalog_file(files: Seq<String>) -> bool {
    files.len() == 1 && files[0]@ == "catalog.toml"@
}

/// Decide whether a repository may become a catalog. With refs on origin it
/// must be exactly the already pushed initial catalog on the checked-out
/// branch; without, it must hold nothing but an uncommitted or committed
/// initial catalog, or nothing at all.
pub open spec fn spec_plan_initialization(facts: InitializationFacts) -> Result<InitializationPlan, InitializationError> {
    let present = facts.catalog != CatalogFileState::Absent;
    let clean = facts.changes@.len() == 0;
    if spec_unrelated_changes(facts.changes@) {
        Err(InitializationError::UnrelatedChanges)
    } else if facts.catalog == CatalogFileState::Conflicting {
        Err(InitializationError::ConflictingCatalog)
    } else if facts.origin_refs@.len() > 0 {
        match (facts.branch, facts.head) {
            (None, _) => Err(InitializationError::Detached),
            (Some(_), None) => Err(InitializationError::NoLocalCommit),
            (Some(branch), Some(head)) => {
                let exact = present && clean && only_catalog_file(facts.tracked_files@)
                    && facts.origin_refs@.len() == 1 && facts.origin_refs@[0].0@ == head@
                    && facts.origin_refs@[0].1@ == "refs/heads/"@ + branch@;
                if exact {
                    Ok(InitializationPlan { already_initialized: true, create_catalog: false })
                } else {
                    Err(InitializationError::NotEmptyCatalog)
                }
            },
        }
    } else if facts.branch is None {
        Err(InitializationError::NoBranch)
    } else if facts.head is Some && (!present || !only_catalog_file(facts.tracked_files@) || !clean) {
        Err(InitializationError::LocalOtherData)
    } else if facts.head is None && !present && (!clean || facts.tracked_files@.len() > 0) {
        Err(InitializationError::ExistingData)
    } else if facts.head is None && present && clean {
        Err(InitializationError::NotDetected)
    } else {
        Ok(InitializationPlan { already_initialized: false, create_catalog: !present })
    }
}

/// Decide, from what Git reports, whether and how a repository becomes a catalog.
pub fn plan_initialization(facts: &InitializationFacts) -> (r: Result<InitializationPlan, InitializationError>)
    ensures
        r == spec_plan_initialization(*facts),
{
    let present = match facts.catalog {
        CatalogFileState::Absent => false,
        _ => true,
    };
    let clean = facts.changes.as_str().is_empty();
    if unrelated_changes(facts.changes.as_str()) {
        return Err(InitializationError::UnrelatedChanges);
    }
    if let CatalogFileState::Conflicting = facts.catalog {
        return Err(InitializationError::ConflictingCatalog);
    }
    let only_catalog = facts.tracked_files.len() == 1 && str_eq(facts.tracked_files[0].as_str(), "catalog.toml");
    if facts.origin_refs.len() > 0 {
        return match (&facts.branch, &facts.head) {
            (None, _) => Err(InitializationError::Detached),
            (Some(_), None) => Err(InitializationError::NoLocalCommit),
            (Some(branch), Some(head)) => {
                let expected = crate::text::cat2("refs/heads/", branch.as_str());
                let exact = present && clean && only_catalog && facts.origin_refs.len() == 1 && str_eq(
                    facts.origin_refs[0].0.as_str(),
                    head.as_str(),
                ) && str_eq(facts.origin_refs[0].1.as_str(), expected.as_str());
                if exact {
                    Ok(InitializationPlan { already_initialized: true, create_catalog: false })
                } else {
                    Err(InitializationError::NotEmptyCatalog)
                }
            },
        };
    }
    if facts.branch.is_none() {
        return Err(InitializationError::NoBranch);
    }
    if facts.head.is_some() && (!present || !only_catalog || !clean) {
        return Err(InitializationError::LocalOtherData);
    }
    if facts.head.is_none() && !present && (!clean || facts.tracked_files.len() > 0) {
        return Err(InitializationError::ExistingData);
    }
    if facts.head.is_none() && present && clean {
        return Err(InitializationError::NotDetected);
    }
    Ok(InitializationPlan { already_initialized: false, create_catalog: !present })
}


/// Why a catalog name does not name a registered catalog.
#[derive(Debug, Clone, PartialEq, Eq)]
pub enum CatalogLookupError {
    InvalidName(crate::paths::NameError),
    NotConfigured(String),
}

impl CatalogLookupError {
    /// The message for the error.
    pub fn message(&self) -> (r: String)
        ensures
            r@ == (match self {
                CatalogLookupError::InvalidName(e) => crate::paths::spec_name_message(e.name@),
                CatalogLookupError::NotConfigured(n) => "catalog '"@ + n@ + "' is not configured"@,
            }),
    {
        match self {
            CatalogLookupError::InvalidName(e) => e.message(),
            CatalogLookupError::NotConfigured(n) => crate::text::cat3("catalog '", n.as_str(), "' is not configured"),
        }
    }
}

/// The source registered under a portable `name`.
pub fn configured_catalog<'a>(local: &'a LocalConfig, name: &str) -> (r: Result<&'a CatalogSource, CatalogLookupError>)
    ensures
        !spec_valid_name(name@) ==> (r matches Err(CatalogLookupError::InvalidName(e)) && e.name@ == name@),
        spec_valid_name(name@) ==> match r {
            Ok(s) => spec_lookup(catalogs_view(local.catalogs@), name@) == Some(s@),
            Err(e) => spec_lookup(catalogs_view(local.catalogs@), name@) is None && (e matches CatalogLookupError::NotConfigured(
                n,
            ) && n@ == name@),
        },
{
    if let Err(e) = validate_name(name) {
        return Err(CatalogLookupError::InvalidName(e));
    }
    match local.source(name) {
        Some(s) => Ok(s),
        None => Err(CatalogLookupError::NotConfigured(name.to_string())),
    }
}

/// The directory of a registered catalog.
pub fn catalog_path(paths: &crate::paths::Paths, local: &LocalConfig, name: &str) -> (r: Result<String, CatalogLookupError>)
    ensures
        !spec_valid_name(name@) ==> (r matches Err(CatalogLookupError::InvalidName(e)) && e.name@ == name@),
        spec_valid_name(name@) && spec_lookup(catalogs_view(local.catalogs@), name@) is None ==> (r matches Err(
            CatalogLookupError::NotConfigured(n),
        ) && n@ == name@),
        spec_valid_name(name@) && spec_lookup(catalogs_view(local.catalogs@), name@) is Some ==> (r matches Ok(p)
            && p@ == crate::paths::spec_join(crate::paths::spec_join(paths.spec_root(), "catalogs"@), name@)),
{
    match configured_catalog(local, name) {
        Err(e) => Err(e),
        Ok(_) => Ok(paths.catalog(name)),
    }
}

/// The registered catalog names, each once, in ascending order.
pub fn catalog_names(local: &LocalConfig) -> (r: Vec<String>)
    ensures
        crate::config::strictly_sorted(views(r@)),
        forall|x: Seq<char>| views(r@).contains(x) <==> catalogs_view(local.catalogs@).map_values(
            |e: (Seq<char>, SourceView)| e.0,
        ).contains(x),
{
    let names = local.catalog_names();
    let r = crate::config::sorted_names(&names);
    assert(views(names@) =~= catalogs_view(local.catalogs@).map_values(|e: (Seq<char>, SourceView)| e.0));
    r
}

/// Why a tool cannot be added to a catalog as requested.
#[derive(Debug, Clone, PartialEq, Eq)]
pub enum ToolAddError {
    /// The tool or catalog name is not portable; it holds that name.
    InvalidName(String),
    EmptyUrl,
    EmptyRevision,
    PushWithoutCommit,
    ReadOnly(String),
    /// `catalog.toml` already has changes that this addition would mix with.
    UncommittedChanges,
    DifferentSettings { name: String, catalog: String },
    NameConflict { name: String, existing: String },
    /// The catalog file was changed, but Git shows no change to commit.
    ChangeNotDetected,
}

pub enum ToolAddErrorView {
    InvalidName(Seq<char>),
    EmptyUrl,
    EmptyRevision,
    PushWithoutCommit,
    ReadOnly(Seq<char>),
    UncommittedChanges,
    DifferentSettings { name: Seq<char>, catalog: Seq<char> },
    NameConflict { name: Seq<char>, existing: Seq<char> },
    ChangeNotDetected,
}

impl View for ToolAddError {
    type V = ToolAddErrorView;

    open spec fn view(&self) -> ToolAddErrorView {
        match self {
            ToolAddError::InvalidName(n) => ToolAddErrorView::InvalidName(n@),
            ToolAddError::EmptyUrl => ToolAddErrorView::EmptyUrl,
            ToolAddError::EmptyRevision => ToolAddErrorView::EmptyRevision,
            ToolAddError::PushWithoutCommit => ToolAddErrorView::PushWithoutCommit,
            ToolAddError::ReadOnly(c) => ToolAddErrorView::ReadOnly(c@),
            ToolAddError::UncommittedChanges => ToolAddErrorView::UncommittedChanges,
            ToolAddError::DifferentSettings { name, catalog } => ToolAddErrorView::DifferentSettings {
                name: name@,
                catalog: catalog@,
            },
            ToolAddError::NameConflict { name, existing } => ToolAddErrorView::NameConflict {
                name: name@,
                existing: existing@,
            },
            ToolAddError::ChangeNotDetected => ToolAddErrorView::ChangeNotDetected,
        }
    }
}

impl ToolAddErrorView {
    pub open spec fn spec_message(self) -> Seq<char> {
        match self {
            ToolAddErrorView::InvalidName(n) => crate::paths::spec_name_message(n),
            ToolAddErrorView::EmptyUrl => "Git URL must not be empty"@,
            ToolAddErrorView::EmptyRevision => "revision must not be empty"@,
            ToolAddErrorView::PushWithoutCommit => "pushing a catalog change requires --commit"@,
            ToolAddErrorView::ReadOnly(c) => "catalog '"@ + c + "' is read-only"@,
            ToolAddErrorView::UncommittedChanges => "catalog.toml already has uncommitted changes; refusing to combine them with a new tool addition; commit or otherwise handle those changes manually before retrying"@,
            ToolAddErrorView::DifferentSettings { name, catalog } => "tool '"@ + name + "' already exists in catalog '"@
                + catalog + "' with different settings"@,
            ToolAddErrorView::NameConflict { name, existing } => "tool name '"@ + name
                + "' conflicts with existing tool '"@ + existing + "'"@,
            ToolAddErrorView::ChangeNotDetected => "catalog changed but Git did not detect a catalog.toml modification"@,
        }
    }
}

impl ToolAddError {
    pub fn message(&self) -> (r: String)
        ensures
            r@ == self@.spec_message(),
    {
        match self {
            ToolAddError::InvalidName(n) => crate::paths::name_message(n.as_str()),
            ToolAddError::EmptyUrl => "Git URL must not be empty".to_string(),
            ToolAddError::EmptyRevision => "revision must not be empty".to_string(),
            ToolAddError::PushWithoutCommit => "pushing a catalog change requires --commit".to_string(),
            ToolAddError::ReadOnly(c) => crate::text::cat3("catalog '", c.as_str(), "' is read-only"),
            ToolAddError::UncommittedChanges => "catalog.toml already has uncommitted changes; refusing to combine them with a new tool addition; commit or otherwise handle those changes manually before retrying".to_string(),
            ToolAddError::DifferentSettings { name, catalog } => crate::text::cat5(
                "tool '",
                name.as_str(),
                "' already exists in catalog '",
                catalog.as_str(),
                "' with different settings",
            ),
            ToolAddError::NameConflict { name, existing } => crate::text::cat5(
                "tool name '",
                name.as_str(),
                "' conflicts with existing tool '",
                existing.as_str(),
                "'",
            ),
            ToolAddError::ChangeNotDetected => "catalog changed but Git did not detect a catalog.toml modification".to_string(),
        }
    }
}

pub open spec fn opt_text(r: Option<&str>) -> Option<Seq<char>> {
    match r {
        Some(t) => Some(t@),
        None => None,
    }
}

/// What a tool addition must satisfy before anything is read: portable tool
/// and catalog names, a URL, no empty revision, and a push only with a commit.
pub open spec fn spec_check_tool_add_request(
    catalog_name: Seq<char>,
    name: Seq<char>,
    url: Seq<char>,
    revision: Option<Seq<char>>,
    commit: bool,
    push: bool,
) -> Result<(), ToolAddErrorView> {
    if !spec_valid_name(name) {
        Err(ToolAddErrorView::InvalidName(name))
    } else if !spec_valid_name(catalog_name) {
        Err(ToolAddErrorView::InvalidName(catalog_name))
    } else if url.len() == 0 {
        Err(ToolAddErrorView::EmptyUrl)
    } else if revision == Some(Seq::<char>::empty()) {
        Err(ToolAddErrorView::EmptyRevision)
    } else if push && !commit {
        Err(ToolAddErrorView::PushWithoutCommit)
    } else {
        Ok(())
    }
}

pub open spec fn unit_view(r: Result<(), ToolAddError>) -> Result<(), ToolAddErrorView> {
    match r {
        Ok(()) => Ok(()),
        Err(e) => Err(e@),
    }
}

/// Check a tool addition request before anything is read or written.
pub fn check_tool_add_request(
    catalog_name: &str,
    name: &str,
    url: &str,
    revision: Option<&str>,
    commit: bool,
    push: bool,
) -> (r: Result<(), ToolAddError>)
    ensures
        unit_view(r) == spec_check_tool_add_request(catalog_name@, name@, url@, opt_text(revision), commit, push),
{
    if validate_name(name).is_err() {
        return Err(ToolAddError::InvalidName(name.to_string()));
    }
    if validate_name(catalog_name).is_err() {
        return Err(ToolAddError::InvalidName(catalog_name.to_string()));
    }
    if url.is_empty() {
        return Err(ToolAddError::EmptyUrl);
    }
    let empty_revision = match revision {
        Some(r) => r.is_empty(),
        None => false,
    };
    if empty_revision {
        assert(opt_text(revision) == Some(Seq::<char>::empty()));
        return Err(ToolAddError::EmptyRevision);
    }
    if push && !commit {
        return Err(ToolAddError::PushWithoutCommit);
    }
    Ok(())
}

/// Tools are added only to a writable catalog.
pub fn require_writable(catalog_name: &str, source: &CatalogSource) -> (r: Result<(), ToolAddError>)
    ensures
        r is Ok <==> source.writable,
        r matches Err(e) ==> e@ == ToolAddErrorView::ReadOnly(catalog_name@),
{
    if source.writable {
        Ok(())
    } else {
        Err(ToolAddError::ReadOnly(catalog_name.to_string()))
    }
}

/// Whether adding `definition` as `name` changes the catalog's tools, or why it
/// is refused: uncommitted catalog changes unless the exact definition is
/// already there, the name with other settings, or a name that differs from
/// an existing one only in case.
pub open spec fn spec_add_tool(
    tools: Seq<(Seq<char>, ToolConfig)>,
    catalog_name: Seq<char>,
    name: Seq<char>,
    definition: ToolConfig,
    catalog_has_changes: bool,
) -> Result<bool, ToolAddErrorView> {
    let existing = spec_lookup(tools, name);
    let exact = existing matches Some(t) && t.spec_has_source(definition);
    if catalog_has_changes && !exact {
        Err(ToolAddErrorView::UncommittedChanges)
    } else {
        match existing {
            Some(t) => if t.spec_has_source(definition) {
                Ok(false)
            } else {
                Err(ToolAddErrorView::DifferentSettings { name, catalog: catalog_name })
            },
            None => match spec_case_conflict(tools, name) {
                Some(e) => Err(ToolAddErrorView::NameConflict { name, existing: e }),
                None => Ok(true),
            },
        }
    }
}

pub open spec fn bool_view(r: Result<bool, ToolAddError>) -> Result<bool, ToolAddErrorView> {
    match r {
        Ok(b) => Ok(b),
        Err(e) => Err(e@),
    }
}

/// Add `definition` to the catalog as `name` where the rules allow it, and say
/// whether the catalog changed. The tools stay in name order.
pub fn add_tool_definition(
    catalog: &mut CatalogFile,
    catalog_name: &str,
    name: &str,
    definition: ToolConfig,
    catalog_has_changes: bool,
) -> (r: Result<bool, ToolAddError>)
    ensures
        bool_view(r) == spec_add_tool(keyed(old(catalog).tools@), catalog_name@, name@, definition, catalog_has_changes),
        r matches Ok(true) ==> keyed(final(catalog).tools@) == spec_insert(keyed(old(catalog).tools@), name@, definition),
        !(r matches Ok(true)) ==> *final(catalog) == *old(catalog),
        final(catalog).version == old(catalog).version,
        final(catalog).extra == old(catalog).extra,
        keys_ascending(keyed(old(catalog).tools@)) ==> keys_ascending(keyed(final(catalog).tools@)),
{
    let ghost before = catalog.tools@;
    let (i, found) = find_slot(&catalog.tools, name);
    proof {
        lemma_position(keyed(before), name@);
    }
    let exact = found && catalog.tools[i].1.has_source(&definition);
    if catalog_has_changes && !exact {
        return Err(ToolAddError::UncommittedChanges);
    }
    if found {
        if exact {
            return Ok(false);
        }
        return Err(ToolAddError::DifferentSettings { name: name.to_string(), catalog: catalog_name.to_string() });
    }
    if let Some(existing) = case_conflict(&catalog.tools, name) {
        return Err(ToolAddError::NameConflict { name: name.to_string(), existing });
    }
    proof {
        if keys_ascending(keyed(before)) {
            lemma_insert_ascending(keyed(before), name@, definition);
        }
    }
    let key = name.to_string();
    let ghost entry = (key@, definition);
    catalog.tools.insert(i, (key, definition));
    assert(keyed(catalog.tools@) =~= keyed(before).insert(i as int, entry));
    Ok(true)
}

/// What to do about committing the catalog after a tool addition.
#[derive(Debug, Clone, PartialEq, Eq)]
pub enum CatalogCommit {
    /// Commit `catalog.toml` with this message.
    Commit(String),
    /// The definition was already committed.
    AlreadyCommitted,
}

/// Commit when Git shows a change to `catalog.toml`; a change this operation
/// made that Git does not show is an error.
pub fn catalog_commit_step(name: &str, has_changes: bool, changed: bool) -> (r: Result<
    CatalogCommit,
    ToolAddError,
>)
    ensures
        has_changes ==> (r matches Ok(CatalogCommit::Commit(m)) && m@ == "Add "@ + name@ + " to Loadbot catalog"@),
        !has_changes && changed ==> (r matches Err(e) && e@ == ToolAddErrorView::ChangeNotDetected),
        !has_changes && !changed ==> r == Ok::<CatalogCommit, ToolAddError>(CatalogCommit::AlreadyCommitted),
{
    if has_changes {
        Ok(CatalogCommit::Commit(crate::text::cat3("Add ", name, " to Loadbot catalog")))
    } else if changed {
        Err(ToolAddError::ChangeNotDetected)
    } else {
        Ok(CatalogCommit::AlreadyCommitted)
    }
}

/// Why a selection of changed paths cannot be committed.
#[derive(Debug, Clone, PartialEq, Eq)]
pub enum CommitSelectionError {
    NothingSelected,
    EmptyMessage,
    /// The path was selected more than once.
    SelectedTwice(String),
    /// The selected path is no longer among the working tree's changes.
    NotChanged(String),
}

impl CommitSelectionError {
    pub open spec fn spec_message(self) -> Seq<char> {
        match self {
            CommitSelectionError::NothingSelected => "select at least one changed file to commit"@,
            CommitSelectionError::EmptyMessage => "commit message must not be empty"@,
            CommitSelectionError::SelectedTwice(p) => "changed path '"@ + p@ + "' was selected more than once"@,
            CommitSelectionError::NotChanged(p) => "selected path '"@ + p@
                + "' is no longer in the working-tree change set"@,
        }
    }

    pub fn message(&self) -> (r: String)
        ensures
            r@ == self.spec_message(),
    {
        match self {
            CommitSelectionError::NothingSelected => "select at least one changed file to commit".to_string(),
            CommitSelectionError::EmptyMessage => "commit message must not be empty".to_string(),
            CommitSelectionError::SelectedTwice(p) => crate::text::cat3(
                "changed path '",
                p.as_str(),
                "' was selected more than once",
            ),
            CommitSelectionError::NotChanged(p) => crate::text::cat3(
                "selected path '",
                p.as_str(),
                "' is no longer in the working-tree change set",
            ),
        }
    }
}

/// A commit needs at least one selected path and a message that is not blank.
pub fn check_commit_request(selected: &Vec<String>, message: &str) -> (r: Result<(), CommitSelectionError>)
    ensures
        selected.len() == 0 ==> r == Err::<(), CommitSelectionError>(CommitSelectionError::NothingSelected),
        selected.len() > 0 && crate::text::spec_trim(message@).len() == 0 ==> r == Err::<(), CommitSelectionError>(
            CommitSelectionError::EmptyMessage,
        ),
        selected.len() > 0 && crate::text::spec_trim(message@).len() > 0 ==> r is Ok,
{
    if selected.len() == 0 {
        return Err(CommitSelectionError::NothingSelected);
    }
    if crate::text::trim(&chars_of(message)).len() == 0 {
        return Err(CommitSelectionError::EmptyMessage);
    }
    Ok(())
}

/// The first path, in order, that was already selected before.
pub open spec fn spec_first_duplicate(paths: Seq<Seq<char>>) -> Option<Seq<char>>
    decreases paths.len(),
{
    if paths.len() == 0 {
        None
    } else {
        match spec_first_duplicate(paths.drop_last()) {
            Some(p) => Some(p),
            None => if paths.drop_last().contains(paths.last()) {
                Some(paths.last())
            } else {
                None
            },
        }
    }
}

/// The selected paths gathered into a set, one insertion at a time.
pub open spec fn spec_path_set(paths: Seq<Seq<char>>) -> Seq<(Seq<char>, ())>
    decreases paths.len(),
{
    if paths.len() == 0 {
        Seq::empty()
    } else {
        spec_insert(spec_path_set(paths.drop_last()), paths.last(), ())
    }
}

pub open spec fn set_keys(set: Seq<(Seq<char>, ())>) -> Seq<Seq<char>> {
    set.map_values(|e: (Seq<char>, ())| e.0)
}

/// The selected paths form a set in ascending order: each selected path once,
/// and nothing else.
pub proof fn lemma_path_set(paths: Seq<Seq<char>>)
    ensures
        keys_ascending(spec_path_set(paths)),
        forall|k: Seq<char>| #[trigger] spec_lookup(spec_path_set(paths), k) is Some <==> paths.contains(k),
    decreases paths.len(),
{
    if paths.len() > 0 {
        let prefix = paths.drop_last();
        lemma_path_set(prefix);
        lemma_insert_ascending(spec_path_set(prefix), paths.last(), ());
        assert forall|k: Seq<char>| #[trigger] spec_lookup(spec_path_set(paths), k) is Some <==> paths.contains(k) by {
            if k != paths.last() {
                assert(spec_lookup(spec_path_set(paths), k) == spec_lookup(spec_path_set(prefix), k));
                assert(spec_lookup(spec_path_set(prefix), k) is Some <==> prefix.contains(k));
                if paths.contains(k) {
                    let i = choose|i: int| 0 <= i < paths.len() && paths[i] == k;
                    assert(prefix[i] == k);
                }
                if prefix.contains(k) {
                    let i = choose|i: int| 0 <= i < prefix.len() && prefix[i] == k;
                    assert(paths[i] == k);
                }
            } else {
                assert(paths[paths.len() - 1] == k);
                assert(spec_lookup(spec_path_set(paths), k) is Some);
            }
        }
    }
}

/// The first change recorded for `path`.
pub open spec fn spec_change_for(changes: Seq<RepositoryChange>, path: Seq<char>) -> Option<RepositoryChange>
    decreases changes.len(),
{
    if changes.len() == 0 {
        None
    } else if changes[0].path@ == path {
        Some(changes[0])
    } else {
        spec_change_for(changes.drop_first(), path)
    }
}

/// The paths to stage and the paths to commit for `paths` in order: a rename
/// commits its original path too, just before its new one. A path without a
/// change is refused.
pub open spec fn spec_commit_paths(paths: Seq<Seq<char>>, changes: Seq<RepositoryChange>) -> Result<
    (Seq<Seq<char>>, Seq<Seq<char>>),
    Seq<char>,
>
    decreases paths.len(),
{
    if paths.len() == 0 {
        Ok((Seq::empty(), Seq::empty()))
    } else {
        match spec_commit_paths(paths.drop_last(), changes) {
            Err(p) => Err(p),
            Ok((stage, commit)) => match spec_change_for(changes, paths.last()) {
                None => Err(paths.last()),
                Some(c) => Ok(
                    (
                        stage.push(paths.last()),
                        match c.original_path {
                            Some(o) => commit.push(o@).push(paths.last()),
                            None => commit.push(paths.last()),
                        },
                    ),
                ),
            },
        }
    }
}

/// What to stage and what to commit for a selection of changed paths.
#[derive(Debug, Clone, PartialEq, Eq)]
pub struct CommitSelection {
    pub stage_paths: Vec<String>,
    pub commit_paths: Vec<String>,
}

fn change_for(changes: &Vec<RepositoryChange>, path: &String) -> (r: Option<usize>)
    ensures
        match r {
            Some(i) => i < changes.len() && spec_change_for(changes@, path@) == Some(changes@[i as int]),
            None => spec_change_for(changes@, path@) is None,
        },
{
    let mut i: usize = 0;
    assert(changes@.subrange(0, changes.len() as int) =~= changes@);
    while i < changes.len()
        invariant
            i <= changes.len(),
            spec_change_for(changes@, path@) == spec_change_for(changes@.subrange(i as int, changes.len() as int), path@),
        decreases changes.len() - i,
    {
        let ghost rest = changes@.subrange(i as int, changes.len() as int);
        assert(rest[0] == changes@[i as int]);
        assert(rest.drop_first() =~= changes@.subrange(i + 1, changes.len() as int));
        if str_eq(changes[i].path.as_str(), path.as_str()) {
            return Some(i);
        }
        i = i + 1;
    }
    None
}

/// Gather the selected paths into a set, refusing a path selected twice, and
/// take them in ascending order to what is staged and what is committed.
pub fn select_changes(selected: &Vec<String>, changes: &Vec<RepositoryChange>) -> (r: Result<
    CommitSelection,
    CommitSelectionError,
>)
    ensures
        spec_first_duplicate(views(selected@)) matches Some(p) ==> (r matches Err(
            CommitSelectionError::SelectedTwice(q),
        ) && q@ == p),
        spec_first_duplicate(views(selected@)) is None ==> match spec_commit_paths(
            set_keys(spec_path_set(views(selected@))),
            changes@,
        ) {
            Ok((stage, commit)) => r matches Ok(sel) && views(sel.stage_paths@) == stage && views(sel.commit_paths@)
                == commit,
            Err(p) => r matches Err(CommitSelectionError::NotChanged(q)) && q@ == p,
        },
{
    let ghost all = views(selected@);
    let mut set: Vec<(String, ())> = Vec::new();
    let mut i: usize = 0;
    assert(keyed(set@) =~= spec_path_set(all.subrange(0, 0)));
    while i < selected.len()
        invariant
            i <= selected.len(),
            all == views(selected@),
            keyed(set@) == spec_path_set(all.subrange(0, i as int)),
            spec_first_duplicate(all.subrange(0, i as int)) is None,
        decreases selected.len() - i,
    {
        let ghost prefix = all.subrange(0, i as int);
        let ghost next = all.subrange(0, i + 1);
        assert(next.drop_last() =~= prefix);
        assert(next.last() == selected@[i as int]@);
        proof {
            lemma_path_set(prefix);
            lemma_position(keyed(set@), selected@[i as int]@);
        }
        let (slot, found) = find_slot(&set, selected[i].as_str());
        if found {
            assert(spec_lookup(spec_path_set(prefix), next.last()) is Some);
            assert(spec_first_duplicate(next) == Some(next.last()));
            proof {
                lemma_first_duplicate_extends(all, i as int + 1);
            }
            return Err(CommitSelectionError::SelectedTwice(selected[i].clone()));
        }
        let key = selected[i].clone();
        let ghost before = keyed(set@);
        set.insert(slot, (key, ()));
        assert(keyed(set@) =~= before.insert(slot as int, (next.last(), ())));
        i = i + 1;
    }
    assert(all.subrange(0, selected.len() as int) =~= all);
    let ghost keys = set_keys(keyed(set@));
    let mut stage_paths: Vec<String> = Vec::new();
    let mut commit_paths: Vec<String> = Vec::new();
    let mut j: usize = 0;
    assert(keys.subrange(0, 0) =~= Seq::<Seq<char>>::empty());
    assert(views(stage_paths@) =~= Seq::<Seq<char>>::empty());
    assert(views(commit_paths@) =~= Seq::<Seq<char>>::empty());
    while j < set.len()
        invariant
            j <= set.len(),
            keys == set_keys(keyed(set@)),
            all == views(selected@),
            keyed(set@) == spec_path_set(all),
            spec_first_duplicate(all) is None,
            spec_commit_paths(keys.subrange(0, j as int), changes@) == Ok::<
                (Seq<Seq<char>>, Seq<Seq<char>>),
                Seq<char>,
            >((views(stage_paths@), views(commit_paths@))),
        decreases set.len() - j,
    {
        let ghost prefix = keys.subrange(0, j as int);
        let ghost next = keys.subrange(0, j + 1);
        assert(next.drop_last() =~= prefix);
        assert(next.last() == set@[j as int].0@);
        let path = &set[j].0;
        match change_for(changes, path) {
            None => {
                proof {
                    lemma_commit_paths_extends(keys, changes@, j as int + 1);
                }
                return Err(CommitSelectionError::NotChanged(path.clone()));
            },
            Some(c) => {
                let ghost (s0, c0) = (views(stage_paths@), views(commit_paths@));
                proof {
                    lemma_views_push(stage_paths@, *path);
                }
                stage_paths.push(path.clone());
                match &changes[c].original_path {
                    Some(o) => {
                        proof {
                            lemma_views_push(commit_paths@, *o);
                        }
                        commit_paths.push(o.clone());
                        proof {
                            lemma_views_push(commit_paths@, *path);
                        }
                        commit_paths.push(path.clone());
                    },
                    None => {
                        proof {
                            lemma_views_push(commit_paths@, *path);
                        }
                        commit_paths.push(path.clone());
                    },
                }
            },
        }
        j = j + 1;
    }
    assert(keys.subrange(0, set.len() as int) =~= keys);
    Ok(CommitSelection { stage_paths, commit_paths })
}

/// A duplicate found in a prefix is the first duplicate of the whole.
proof fn lemma_first_duplicate_extends(all: Seq<Seq<char>>, n: int)
    requires
        0 <= n <= all.len(),
        spec_first_duplicate(all.subrange(0, n)) is Some,
    ensures
        spec_first_duplicate(all) == spec_first_duplicate(all.subrange(0, n)),
    decreases all.len() - n,
{
    if n < all.len() {
        let next = all.subrange(0, n + 1);
        assert(next.drop_last() =~= all.subrange(0, n));
        lemma_first_duplicate_extends(all, n + 1);
    } else {
        assert(all.subrange(0, n) =~= all);
    }
}

/// A refusal for a prefix is the refusal for the whole.
proof fn lemma_commit_paths_extends(all: Seq<Seq<char>>, changes: Seq<RepositoryChange>, n: int)
    requires
        0 <= n <= all.len(),
        spec_commit_paths(all.subrange(0, n), changes) is Err,
    ensures
        spec_commit_paths(all, changes) == spec_commit_paths(all.subrange(0, n), changes),
    decreases all.len() - n,
{
    if n < all.len() {
        let next = all.subrange(0, n + 1);
        assert(next.drop_last() =~= all.subrange(0, n));
        lemma_commit_paths_extends(all, changes, n + 1);
    } else {
        assert(all.subrange(0, n) =~= all);
    }
}

/// Why a tool name given without a catalog does not pick one tool.
#[derive(Debug, Clone, PartialEq, Eq)]
pub enum ToolLookupError {
    NotConfigured(String),
    /// The name is defined in each of these catalogs.
    Ambiguous { name: String, catalogs: Vec<String> },
}

impl ToolLookupError {
    pub open spec fn spec_message(self) -> Seq<char> {
        match self {
            ToolLookupError::NotConfigured(n) => "tool '"@ + n@ + "' is not configured in any catalog"@,
            ToolLookupError::Ambiguous { name, catalogs } => "tool '"@ + name@ + "' is ambiguous across catalogs: "@
                + crate::text::spec_join_with(views(catalogs@), ", "@) + "; specify --catalog <name>"@,
        }
    }

    pub fn message(&self) -> (r: String)
        ensures
            r@ == self.spec_message(),
    {
        match self {
            ToolLookupError::NotConfigured(n) => crate::text::cat3(
                "tool '",
                n.as_str(),
                "' is not configured in any catalog",
            ),
            ToolLookupError::Ambiguous { name, catalogs } => {
                let joined = crate::text::join_with(catalogs, ", ");
                assert(catalogs@.map_values(|p: String| p@) =~= views(catalogs@));
                crate::text::cat5(
                    "tool '",
                    name.as_str(),
                    "' is ambiguous across catalogs: ",
                    joined.as_str(),
                    "; specify --catalog <name>",
                )
            },
        }
    }
}

/// The positions, in order, of the tools named `name`.
pub open spec fn spec_tools_named(tools: Seq<ResolvedTool>, name: Seq<char>) -> Seq<int>
    decreases tools.len(),
{
    if tools.len() == 0 {
        Seq::empty()
    } else if tools.last().name@ == name {
        spec_tools_named(tools.drop_last(), name).push(tools.len() - 1)
    } else {
        spec_tools_named(tools.drop_last(), name)
    }
}

/// Pick the one tool named `name` among all catalogs' tools: its position, or
/// why there is none or more than one (naming their catalogs in order).
pub fn select_tool(tools: &Vec<ResolvedTool>, name: &str) -> (r: Result<usize, ToolLookupError>)
    ensures
        spec_tools_named(tools@, name@).len() == 0 ==> (r matches Err(ToolLookupError::NotConfigured(n))
            && n@ == name@),
        spec_tools_named(tools@, name@).len() == 1 ==> r == Ok::<usize, ToolLookupError>(
            spec_tools_named(tools@, name@)[0] as usize,
        ),
        spec_tools_named(tools@, name@).len() > 1 ==> (r matches Err(ToolLookupError::Ambiguous { name: n, catalogs })
            && n@ == name@ && views(catalogs@) == spec_tools_named(tools@, name@).map_values(
            |i: int| tools@[i].catalog@,
        )),
        r matches Ok(i) ==> i < tools.len() && tools@[i as int].name@ == name@,
{
    let mut first: usize = 0;
    let mut catalogs: Vec<String> = Vec::new();
    let mut i: usize = 0;
    assert(tools@.subrange(0, 0) =~= Seq::<ResolvedTool>::empty());
    while i < tools.len()
        invariant
            i <= tools.len(),
            views(catalogs@) == spec_tools_named(tools@.subrange(0, i as int), name@).map_values(
                |k: int| tools@[k].catalog@,
            ),
            forall|k: int| 0 <= k < spec_tools_named(tools@.subrange(0, i as int), name@).len()
                ==> 0 <= #[trigger] spec_tools_named(tools@.subrange(0, i as int), name@)[k] < i,
            spec_tools_named(tools@.subrange(0, i as int), name@).len() > 0 ==> first
                == spec_tools_named(tools@.subrange(0, i as int), name@)[0],
        decreases tools.len() - i,
    {
        let ghost prefix = tools@.subrange(0, i as int);
        let ghost next = tools@.subrange(0, i + 1);
        assert(next.drop_last() =~= prefix);
        assert(next.last() == tools@[i as int]);
        proof {
            lemma_tools_named_prefix(tools@, name@, i as int);
        }
        if str_eq(tools[i].name.as_str(), name) {
            if catalogs.len() == 0 {
                first = i;
            }
            proof {
                lemma_views_push(catalogs@, tools@[i as int].catalog);
            }
            catalogs.push(tools[i].catalog.clone());
            assert(views(catalogs@) =~= spec_tools_named(next, name@).map_values(|k: int| tools@[k].catalog@));
        }
        i = i + 1;
    }
    assert(tools@.subrange(0, tools.len() as int) =~= tools@);
    if catalogs.len() == 0 {
        Err(ToolLookupError::NotConfigured(name.to_string()))
    } else if catalogs.len() == 1 {
        proof {
            lemma_tools_named_prefix(tools@, name@, tools@.len() as int);
        }
        Ok(first)
    } else {
        Err(ToolLookupError::Ambiguous { name: name.to_string(), catalogs })
    }
}

/// The positions of named tools in a prefix name tools of that prefix.
proof fn lemma_tools_named_prefix(tools: Seq<ResolvedTool>, name: Seq<char>, n: int)
    requires
        0 <= n <= tools.len(),
    ensures
        forall|k: int| 0 <= k < spec_tools_named(tools.subrange(0, n), name).len() ==> {
            let i = #[trigger] spec_tools_named(tools.subrange(0, n), name)[k];
            0 <= i < n && tools[i].name@ == name
        },
    decreases n,
{
    if n > 0 {
        let prefix = tools.subrange(0, n - 1);
        assert(tools.subrange(0, n).drop_last() =~= prefix);
        lemma_tools_named_prefix(tools, name, n - 1);
    }
}

/// The order of a tool list: by name, then by catalog.
pub open spec fn tool_before(a: ResolvedTool, b: ResolvedTool) -> bool {
    lex_lt(a.name@, b.name@) || (a.name@ == b.name@ && lex_lt(a.catalog@, b.catalog@))
}

/// Where `t` goes in `s`: before the first tool that does not sort before it.
pub open spec fn spec_tool_slot(s: Seq<ResolvedTool>, t: ResolvedTool) -> int
    decreases s.len(),
{
    if s.len() == 0 {
        0
    } else if tool_before(s[0], t) {
        1 + spec_tool_slot(s.drop_first(), t)
    } else {
        0
    }
}

/// `s` sorted by name and catalog, inserting one tool at a time.
pub open spec fn spec_sort_tools(s: Seq<ResolvedTool>) -> Seq<ResolvedTool>
    decreases s.len(),
{
    if s.len() == 0 {
        Seq::empty()
    } else {
        let r = spec_sort_tools(s.drop_last());
        r.insert(spec_tool_slot(r, s.last()), s.last())
    }
}

pub open spec fn same_tool(a: ResolvedTool, b: ResolvedTool) -> bool {
    a.name@ == b.name@ && a.catalog@ == b.catalog@
}

/// No tool occurs twice: no two have the same name in the same catalog.
pub open spec fn distinct_tools(s: Seq<ResolvedTool>) -> bool {
    forall|i: int, j: int| 0 <= i < j < s.len() ==> !same_tool(#[trigger] s[i], #[trigger] s[j])
}

pub open spec fn tools_ascending(s: Seq<ResolvedTool>) -> bool {
    forall|i: int, j: int| 0 <= i < j < s.len() ==> tool_before(#[trigger] s[i], #[trigger] s[j])
}

proof fn lemma_tool_order(a: ResolvedTool, b: ResolvedTool, c: ResolvedTool)
    ensures
        tool_before(a, b) && tool_before(b, c) ==> tool_before(a, c),
        !tool_before(a, a),
        same_tool(a, b) || tool_before(a, b) || tool_before(b, a),
{
    lemma_lex_lt_irreflexive(a.name@);
    lemma_lex_lt_irreflexive(a.catalog@);
    lemma_lex_total(a.name@, b.name@);
    lemma_lex_total(a.catalog@, b.catalog@);
    if tool_before(a, b) && tool_before(b, c) {
        if lex_lt(a.name@, b.name@) && lex_lt(b.name@, c.name@) {
            lemma_lex_lt_transitive(a.name@, b.name@, c.name@);
        } else if a.name@ == b.name@ && b.name@ == c.name@ {
            lemma_lex_lt_transitive(a.catalog@, b.catalog@, c.catalog@);
        }
    }
}

proof fn lemma_tool_slot_bounds(s: Seq<ResolvedTool>, t: ResolvedTool)
    ensures
        0 <= spec_tool_slot(s, t) <= s.len(),
        forall|j: int| 0 <= j < spec_tool_slot(s, t) ==> tool_before(#[trigger] s[j], t),
        spec_tool_slot(s, t) < s.len() ==> !tool_before(s[spec_tool_slot(s, t)], t),
    decreases s.len(),
{
    if s.len() > 0 {
        let rest = s.drop_first();
        lemma_tool_slot_bounds(rest, t);
        if tool_before(s[0], t) {
            assert forall|j: int| 0 <= j < spec_tool_slot(s, t) implies tool_before(#[trigger] s[j], t) by {
                if j > 0 {
                    assert(s[j] == rest[j - 1]);
                }
            }
            if spec_tool_slot(s, t) < s.len() {
                assert(s[spec_tool_slot(s, t)] == rest[spec_tool_slot(rest, t)]);
            }
        }
    }
}

proof fn lemma_tool_slot_at(s: Seq<ResolvedTool>, t: ResolvedTool, p: int)
    requires
        0 <= p <= s.len(),
        forall|j: int| 0 <= j < p ==> tool_before(#[trigger] s[j], t),
        p == s.len() || !tool_before(s[p], t),
    ensures
        spec_tool_slot(s, t) == p,
    decreases p,
{
    if p > 0 {
        let rest = s.drop_first();
        assert(tool_before(s[0], t));
        assert forall|j: int| 0 <= j < p - 1 implies tool_before(#[trigger] rest[j], t) by {
            assert(rest[j] == s[j + 1]);
        }
        if p < s.len() {
            assert(rest[p - 1] == s[p]);
        }
        lemma_tool_slot_at(rest, t, p - 1);
    }
}

/// A tool list is sorted by name and then catalog, each tool once, and holds
/// exactly the tools it was made from.
pub proof fn lemma_sorted_tools(s: Seq<ResolvedTool>)
    requires
        distinct_tools(s),
    ensures
        tools_ascending(spec_sort_tools(s)),
        spec_sort_tools(s).to_multiset() == s.to_multiset(),
    decreases s.len(),
{
    broadcast use vstd::seq_lib::group_to_multiset_ensures;

    if s.len() == 0 {
        assert(s =~= Seq::<ResolvedTool>::empty());
        assert(spec_sort_tools(s) =~= s);
    } else {
        let prefix = s.drop_last();
        let t = s.last();
        assert forall|i: int, j: int| 0 <= i < j < prefix.len() implies !same_tool(#[trigger] prefix[i], #[trigger] prefix[j]) by {
            assert(prefix[i] == s[i] && prefix[j] == s[j]);
        }
        lemma_sorted_tools(prefix);
        let r = spec_sort_tools(prefix);
        let p = spec_tool_slot(r, t);
        lemma_tool_slot_bounds(r, t);
        vstd::seq_lib::to_multiset_insert(r, p, t);
        vstd::seq_lib::to_multiset_build(prefix, t);
        assert(s =~= prefix.push(t));
        assert forall|k: int| 0 <= k < r.len() implies !same_tool(#[trigger] r[k], t) by {
            vstd::seq_lib::to_multiset_contains(r, r[k]);
            vstd::seq_lib::to_multiset_contains(prefix, r[k]);
            assert(r.contains(r[k]));
            assert(prefix.to_multiset().count(r[k]) > 0);
            assert(prefix.contains(r[k]));
            let i = choose|i: int| 0 <= i < prefix.len() && prefix[i] == r[k];
            assert(s[i] == r[k]);
            assert(!same_tool(s[i], s[s.len() - 1]));
        }
        let q = r.insert(p, t);
        assert forall|a: int, b: int| 0 <= a < b < q.len() implies tool_before(#[trigger] q[a], #[trigger] q[b]) by {
            if b < p {
                assert(q[a] == r[a] && q[b] == r[b]);
            } else if b == p {
                assert(q[a] == r[a]);
            } else if a == p {
                assert(q[b] == r[b - 1]);
                lemma_tool_order(r[p], t, r[p]);
                lemma_tool_order(t, r[p], r[b - 1]);
            } else if a < p {
                assert(q[a] == r[a] && q[b] == r[b - 1]);
                lemma_tool_order(r[p], t, r[p]);
                lemma_tool_order(t, r[p], r[b - 1]);
                lemma_tool_order(r[a], t, r[b - 1]);
            } else {
                assert(q[a] == r[a - 1] && q[b] == r[b - 1]);
            }
        }
    }
}

/// Whether `a` sorts before `b` by name and then catalog.
fn tool_sorts_before(a: &ResolvedTool, b: &ResolvedTool) -> (r: bool)
    ensures
        r == tool_before(*a, *b),
{
    let by_name = compare_text(&chars_of(a.name.as_str()), &chars_of(b.name.as_str()));
    if by_name != 0 {
        by_name < 0
    } else {
        compare_text(&chars_of(a.catalog.as_str()), &chars_of(b.catalog.as_str())) < 0
    }
}

/// Insert `t` into a tool list where it sorts.
fn insert_tool(sorted: &mut Vec<ResolvedTool>, t: ResolvedTool)
    ensures
        final(sorted)@ == old(sorted)@.insert(spec_tool_slot(old(sorted)@, t), t),
{
    let mut p: usize = 0;
    while p < sorted.len() && tool_sorts_before(&sorted[p], &t)
        invariant
            p <= sorted.len(),
            forall|j: int| 0 <= j < p ==> tool_before(#[trigger] sorted@[j], t),
        decreases sorted.len() - p,
    {
        p = p + 1;
    }
    proof {
        lemma_tool_slot_at(sorted@, t, p as int);
    }
    sorted.insert(p, t);
}

/// Why the tools of the available catalogs cannot be listed together.
#[derive(Debug, Clone, PartialEq, Eq)]
pub enum ToolIndexError {
    UnsafeToolName { catalog: String, name: String },
    /// Two tools of one catalog differ only in ASCII case.
    CatalogCollision { catalog: String, existing: String, name: String },
    /// Tools of different catalogs whose names differ only in ASCII case.
    CaseConflict { existing: String, name: String },
}

pub enum ToolIndexErrorView {
    UnsafeToolName { catalog: Seq<char>, name: Seq<char> },
    CatalogCollision { catalog: Seq<char>, existing: Seq<char>, name: Seq<char> },
    CaseConflict { existing: Seq<char>, name: Seq<char> },
}

impl View for ToolIndexError {
    type V = ToolIndexErrorView;

    open spec fn view(&self) -> ToolIndexErrorView {
        match self {
            ToolIndexError::UnsafeToolName { catalog, name } => ToolIndexErrorView::UnsafeToolName {
                catalog: catalog@,
                name: name@,
            },
            ToolIndexError::CatalogCollision { catalog, existing, name } => ToolIndexErrorView::CatalogCollision {
                catalog: catalog@,
                existing: existing@,
                name: name@,
            },
            ToolIndexError::CaseConflict { existing, name } => ToolIndexErrorView::CaseConflict {
                existing: existing@,
                name: name@,
            },
        }
    }
}

impl ToolIndexErrorView {
    pub open spec fn spec_message(self) -> Seq<char> {
        match self {
            ToolIndexErrorView::UnsafeToolName { catalog, name } => "catalog '"@ + catalog
                + "' contains an unsafe tool name: "@ + crate::paths::spec_name_message(name),
            ToolIndexErrorView::CatalogCollision { catalog, existing, name } => "catalog '"@ + catalog
                + "' contains case-insensitive tool-name collision '"@ + existing + "' and '"@ + name + "'"@,
            ToolIndexErrorView::CaseConflict { existing, name } => "tool names '"@ + existing + "' and '"@ + name
                + "' conflict on case-insensitive filesystems"@,
        }
    }
}

impl ToolIndexError {
    pub fn message(&self) -> (r: String)
        ensures
            r@ == self@.spec_message(),
    {
        match self {
            ToolIndexError::UnsafeToolName { catalog, name } => {
                let detail = crate::paths::name_message(name.as_str());
                crate::text::cat4(
                    "catalog '",
                    catalog.as_str(),
                    "' contains an unsafe tool name: ",
                    detail.as_str(),
                )
            },
            ToolIndexError::CatalogCollision { catalog, existing, name } => crate::text::cat7(
                "catalog '",
                catalog.as_str(),
                "' contains case-insensitive tool-name collision '",
                existing.as_str(),
                "' and '",
                name.as_str(),
                "'",
            ),
            ToolIndexError::CaseConflict { existing, name } => crate::text::cat5(
                "tool names '",
                existing.as_str(),
                "' and '",
                name.as_str(),
                "' conflict on case-insensitive filesystems",
            ),
        }
    }
}

/// The tools of one catalog, in its order.
pub open spec fn catalog_tools(c: (String, CatalogFile)) -> Seq<ResolvedTool> {
    c.1.tools@.map_values(|t: (String, ToolConfig)| ResolvedTool { name: t.0, catalog: c.0, definition: t.1 })
}

/// The tools of all catalogs, catalog after catalog.
pub open spec fn spec_flat_tools(catalogs: Seq<(String, CatalogFile)>) -> Seq<ResolvedTool>
    decreases catalogs.len(),
{
    if catalogs.len() == 0 {
        Seq::empty()
    } else {
        spec_flat_tools(catalogs.drop_last()) + catalog_tools(catalogs.last())
    }
}

/// Catalog and name of each tool.
pub open spec fn tool_keys(tools: Seq<ResolvedTool>) -> Seq<(Seq<char>, Seq<char>)> {
    tools.map_values(|t: ResolvedTool| (t.catalog@, t.name@))
}

/// The name of the last tool whose name equals `name` but for ASCII case.
pub open spec fn spec_last_match(keys: Seq<(Seq<char>, Seq<char>)>, name: Seq<char>) -> Option<Seq<char>>
    decreases keys.len(),
{
    if keys.len() == 0 {
        None
    } else if spec_eq_ignore_ascii_case(keys.last().1, name) {
        Some(keys.last().1)
    } else {
        spec_last_match(keys.drop_last(), name)
    }
}

/// The same, among the tools of `catalog`.
pub open spec fn spec_last_match_in(keys: Seq<(Seq<char>, Seq<char>)>, catalog: Seq<char>, name: Seq<char>) -> Option<
    Seq<char>,
>
    decreases keys.len(),
{
    if keys.len() == 0 {
        None
    } else if keys.last().0 == catalog && spec_eq_ignore_ascii_case(keys.last().1, name) {
        Some(keys.last().1)
    } else {
        spec_last_match_in(keys.drop_last(), catalog, name)
    }
}

/// The first problem, in order, with listing `tools` together: an unportable
/// name, two names of one catalog that differ only in case, or a name that
/// differs only in case from the last such name of any catalog before it.
pub open spec fn spec_index_error(tools: Seq<ResolvedTool>) -> Option<ToolIndexErrorView>
    decreases tools.len(),
{
    if tools.len() == 0 {
        None
    } else {
        match spec_index_error(tools.drop_last()) {
            Some(e) => Some(e),
            None => {
                let t = tools.last();
                let earlier = tool_keys(tools.drop_last());
                if !spec_valid_name(t.name@) {
                    Some(ToolIndexErrorView::UnsafeToolName { catalog: t.catalog@, name: t.name@ })
                } else {
                    match spec_last_match_in(earlier, t.catalog@, t.name@) {
                        Some(x) => Some(
                            ToolIndexErrorView::CatalogCollision { catalog: t.catalog@, existing: x, name: t.name@ },
                        ),
                        None => match spec_last_match(earlier, t.name@) {
                            Some(x) => if x != t.name@ {
                                Some(ToolIndexErrorView::CaseConflict { existing: x, name: t.name@ })
                            } else {
                                None
                            },
                            None => None,
                        },
                    }
                }
            },
        }
    }
}

pub open spec fn pair_views(v: Seq<(String, String)>) -> Seq<(Seq<char>, Seq<char>)> {
    v.map_values(|p: (String, String)| (p.0@, p.1@))
}

fn last_match(seen: &Vec<(String, String)>, catalog: Option<&str>, name: &str) -> (r: Option<String>)
    ensures
        crate::git::opt_string_view(r) == match catalog {
            Some(c) => spec_last_match_in(pair_views(seen@), c@, name@),
            None => spec_last_match(pair_views(seen@), name@),
        },
{
    let ghost keys = pair_views(seen@);
    let n = chars_of(name);
    let mut i: usize = seen.len();
    assert(keys.subrange(0, seen.len() as int) =~= keys);
    while i > 0
        invariant
            i <= seen.len(),
            keys == pair_views(seen@),
            n@ == name@,
            (match catalog {
                Some(c) => spec_last_match_in(keys, c@, name@) == spec_last_match_in(keys.subrange(0, i as int), c@, name@),
                None => spec_last_match(keys, name@) == spec_last_match(keys.subrange(0, i as int), name@),
            }),
        decreases i,
    {
        let ghost part = keys.subrange(0, i as int);
        assert(part.drop_last() =~= keys.subrange(0, i - 1));
        assert(part.last() == keys[i - 1]);
        let in_catalog = match catalog {
            Some(c) => str_eq(seen[i - 1].0.as_str(), c),
            None => true,
        };
        if in_catalog && eq_ignore_ascii_case(&chars_of(seen[i - 1].1.as_str()), &n) {
            return Some(seen[i - 1].1.clone());
        }
        i = i - 1;
    }
    None
}

/// List the tools of the available catalogs together, sorted by name and then
/// catalog, or say why their names cannot stand side by side.
pub fn tool_index(catalogs: Vec<(String, CatalogFile)>) -> (r: Result<Vec<ResolvedTool>, ToolIndexError>)
    ensures
        match spec_index_error(spec_flat_tools(catalogs@)) {
            Some(e) => r matches Err(x) && x@ == e,
            None => r matches Ok(v) && v@ == spec_sort_tools(spec_flat_tools(catalogs@)),
        },
        r matches Ok(v) ==> tools_ascending(v@) && v@.to_multiset() == spec_flat_tools(catalogs@).to_multiset(),
{
    let ghost orig = catalogs@;
    let mut rest = catalogs;
    let ghost mut k: int = 0;
    let mut seen: Vec<(String, String)> = Vec::new();
    let mut sorted: Vec<ResolvedTool> = Vec::new();
    assert(orig.subrange(0, 0) =~= Seq::<(String, CatalogFile)>::empty());
    assert(orig.subrange(0, orig.len() as int) =~= orig);
    assert(pair_views(seen@) =~= tool_keys(spec_flat_tools(orig.subrange(0, 0))));
    while rest.len() > 0
        invariant
            0 <= k <= orig.len(),
            orig == catalogs@,
            rest@ == orig.subrange(k, orig.len() as int),
            pair_views(seen@) == tool_keys(spec_flat_tools(orig.subrange(0, k))),
            spec_index_error(spec_flat_tools(orig.subrange(0, k))) is None,
            sorted@ == spec_sort_tools(spec_flat_tools(orig.subrange(0, k))),
        decreases rest.len(),
    {
        let ghost before = spec_flat_tools(orig.subrange(0, k));
        let ghost entry = rest@[0];
        assert(entry == orig[k]);
        let (catalog, file) = rest.remove(0);
        let ghost all_tools = catalog_tools(entry);
        let mut tools = file.tools;
        let ghost mut m: int = 0;
        assert(tools@.subrange(0, tools@.len() as int) =~= tools@);
        assert(before + all_tools.subrange(0, 0) =~= before);
        while tools.len() > 0
            invariant
                0 <= m <= entry.1.tools@.len(),
                0 <= k < orig.len(),
                orig == catalogs@,
                entry == orig[k],
                before == spec_flat_tools(orig.subrange(0, k)),
                entry.0 == catalog,
                all_tools == catalog_tools(entry),
                tools@ == entry.1.tools@.subrange(m, entry.1.tools@.len() as int),
                pair_views(seen@) == tool_keys(before + all_tools.subrange(0, m)),
                spec_index_error(before + all_tools.subrange(0, m)) is None,
                sorted@ == spec_sort_tools(before + all_tools.subrange(0, m)),
            decreases tools.len(),
        {
            let ghost cur = before + all_tools.subrange(0, m);
            let ghost next = before + all_tools.subrange(0, m + 1);
            let (name, definition) = tools.remove(0);
            let t = ResolvedTool { name, catalog: catalog.clone(), definition };
            assert(t == all_tools[m]);
            assert(next =~= cur.push(t));
            assert(next.drop_last() =~= cur);
            if validate_name(t.name.as_str()).is_err() {
                proof {
                    lemma_index_error_extends(orig, k, m + 1);
                }
                return Err(ToolIndexError::UnsafeToolName { catalog: t.catalog.clone(), name: t.name.clone() });
            }
            if let Some(existing) = last_match(&seen, Some(t.catalog.as_str()), t.name.as_str()) {
                proof {
                    lemma_index_error_extends(orig, k, m + 1);
                }
                return Err(ToolIndexError::CatalogCollision { catalog: t.catalog.clone(), existing, name: t.name.clone() });
            }
            if let Some(existing) = last_match(&seen, None, t.name.as_str()) {
                if !str_eq(existing.as_str(), t.name.as_str()) {
                    proof {
                        lemma_index_error_extends(orig, k, m + 1);
                    }
                    return Err(ToolIndexError::CaseConflict { existing, name: t.name.clone() });
                }
            }
            let ghost pair = (t.catalog@, t.name@);
            seen.push((t.catalog.clone(), t.name.clone()));
            assert(pair_views(seen@) =~= tool_keys(cur).push(pair));
            assert(tool_keys(next) =~= tool_keys(cur).push(pair));
            insert_tool(&mut sorted, t);
            proof {
                m = m + 1;
            }
        }
        proof {
            assert(all_tools.subrange(0, m) =~= all_tools);
            let upto = orig.subrange(0, k + 1);
            assert(upto.drop_last() =~= orig.subrange(0, k));
            assert(upto.last() == entry);
            assert(spec_flat_tools(upto) =~= before + all_tools);
            assert(rest@ =~= orig.subrange(k + 1, orig.len() as int));
            k = k + 1;
        }
    }
    proof {
        assert(orig.subrange(0, k) =~= orig);
        lemma_index_distinct(spec_flat_tools(orig));
        lemma_sorted_tools(spec_flat_tools(orig));
    }
    Ok(sorted)
}

proof fn lemma_last_match_in_found(keys: Seq<(Seq<char>, Seq<char>)>, catalog: Seq<char>, name: Seq<char>, i: int)
    requires
        0 <= i < keys.len(),
        keys[i].0 == catalog,
        spec_eq_ignore_ascii_case(keys[i].1, name),
    ensures
        spec_last_match_in(keys, catalog, name) is Some,
    decreases keys.len(),
{
    if !(keys.last().0 == catalog && spec_eq_ignore_ascii_case(keys.last().1, name)) {
        assert(i < keys.len() - 1);
        assert(keys.drop_last()[i] == keys[i]);
        lemma_last_match_in_found(keys.drop_last(), catalog, name, i);
    }
}

/// Tools that can be listed together are each there once.
pub proof fn lemma_index_distinct(tools: Seq<ResolvedTool>)
    requires
        spec_index_error(tools) is None,
    ensures
        distinct_tools(tools),
    decreases tools.len(),
{
    if tools.len() > 0 {
        let prefix = tools.drop_last();
        lemma_index_distinct(prefix);
        let t = tools.last();
        let keys = tool_keys(prefix);
        assert forall|i: int, j: int| 0 <= i < j < tools.len() implies !same_tool(#[trigger] tools[i], #[trigger] tools[j]) by {
            if j < tools.len() - 1 {
                assert(tools[i] == prefix[i] && tools[j] == prefix[j]);
            } else if same_tool(tools[i], tools[j]) {
                assert(tools[j] == t);
                assert(keys[i] == (prefix[i].catalog@, prefix[i].name@));
                assert(prefix[i] == tools[i]);
                assert(spec_eq_ignore_ascii_case(keys[i].1, t.name@));
                lemma_last_match_in_found(keys, t.catalog@, t.name@, i);
            }
        }
    }
}

/// A problem found among the first tools is the first problem of all of them.
proof fn lemma_index_error_extends(orig: Seq<(String, CatalogFile)>, k: int, m: int)
    requires
        0 <= k < orig.len(),
        0 <= m <= catalog_tools(orig[k]).len(),
        spec_index_error(spec_flat_tools(orig.subrange(0, k)) + catalog_tools(orig[k]).subrange(0, m)) is Some,
    ensures
        spec_index_error(spec_flat_tools(orig)) == spec_index_error(
            spec_flat_tools(orig.subrange(0, k)) + catalog_tools(orig[k]).subrange(0, m),
        ),
{
    let a = spec_flat_tools(orig.subrange(0, k)) + catalog_tools(orig[k]).subrange(0, m);
    let whole = spec_flat_tools(orig);
    lemma_flat_prefix(orig, k + 1);
    let upto = orig.subrange(0, k + 1);
    assert(upto.drop_last() =~= orig.subrange(0, k));
    assert(upto.last() == orig[k]);
    let full = spec_flat_tools(upto);
    assert(full == spec_flat_tools(orig.subrange(0, k)) + catalog_tools(orig[k]));
    assert(whole.subrange(0, a.len() as int) =~= a) by {
        assert forall|i: int| 0 <= i < a.len() implies whole[i] == a[i] by {
            assert(whole[i] == full[i]);
        }
    }
    let b = whole.subrange(a.len() as int, whole.len() as int);
    assert(whole =~= a + b);
    lemma_index_error_append(a, b);
}

/// The tools of the first catalogs come first among the tools of all.
proof fn lemma_flat_prefix(orig: Seq<(String, CatalogFile)>, j: int)
    requires
        0 <= j <= orig.len(),
    ensures
        spec_flat_tools(orig.subrange(0, j)).len() <= spec_flat_tools(orig).len(),
        spec_flat_tools(orig).subrange(0, spec_flat_tools(orig.subrange(0, j)).len() as int)
            == spec_flat_tools(orig.subrange(0, j)),
    decreases orig.len() - j,
{
    if j == orig.len() {
        assert(orig.subrange(0, j) =~= orig);
        assert(spec_flat_tools(orig).subrange(0, spec_flat_tools(orig).len() as int) =~= spec_flat_tools(orig));
    } else {
        lemma_flat_prefix(orig, j + 1);
        let next = orig.subrange(0, j + 1);
        assert(next.drop_last() =~= orig.subrange(0, j));
        let small = spec_flat_tools(orig.subrange(0, j));
        let big = spec_flat_tools(next);
        assert(big == small + catalog_tools(next.last()));
        let whole = spec_flat_tools(orig);
        assert(whole.subrange(0, small.len() as int) =~= small) by {
            assert forall|i: int| 0 <= i < small.len() implies whole[i] == small[i] by {
                assert(whole[i] == big[i]);
            }
        }
    }
}

/// Tools added after a problem do not change which problem comes first.
proof fn lemma_index_error_append(a: Seq<ResolvedTool>, b: Seq<ResolvedTool>)
    requires
        spec_index_error(a) is Some,
    ensures
        spec_index_error(a + b) == spec_index_error(a),
    decreases b.len(),
{
    if b.len() == 0 {
        assert(a + b =~= a);
    } else {
        lemma_index_error_append(a, b.drop_last());
        assert((a + b).drop_last() =~= a + b.drop_last());
    }
}

/// What an operation is about to do with an installed checkout.
#[derive(Debug, Clone, Copy, PartialEq, Eq, Structural)]
pub enum CheckoutUse {
    /// Remove or replace it: it must hold nothing that is not on origin.
    Remove,
    /// Push its commits: its working tree must be clean.
    Push,
    /// Look at it, or commit selected changes before pushing.
    Inspect,
}

/// What was found about an installed checkout, in the order it is checked.
#[derive(Debug, Clone, Copy, PartialEq, Eq, Structural)]
pub struct CheckoutFacts {
    /// The tool's definition is still the one the operation started with.
    pub definition_unchanged: bool,
    pub installed: bool,
    /// A real directory, not a link, that is a Git repository.
    pub managed_directory: bool,
    pub configured_repository: bool,
    pub dirty: bool,
    pub commits_ahead: bool,
}

/// Why an installed checkout may not be used as intended.
#[derive(Debug, Clone, Copy, PartialEq, Eq, Structural)]
pub enum CheckoutProblem {
    /// The definition changed while the operation ran.
    Busy,
    NotInstalled,
    NotManaged,
    NotConfigured,
    Dirty,
    LocalCommits,
}

/// The first check, in order, that the checkout fails for `purpose`.
pub open spec fn spec_checkout_problem(purpose: CheckoutUse, facts: CheckoutFacts) -> Option<CheckoutProblem> {
    if !facts.definition_unchanged {
        Some(CheckoutProblem::Busy)
    } else if !facts.installed {
        Some(CheckoutProblem::NotInstalled)
    } else if !facts.managed_directory {
        Some(CheckoutProblem::NotManaged)
    } else if !facts.configured_repository {
        Some(CheckoutProblem::NotConfigured)
    } else if purpose != CheckoutUse::Inspect && facts.dirty {
        Some(CheckoutProblem::Dirty)
    } else if purpose == CheckoutUse::Remove && facts.commits_ahead {
        Some(CheckoutProblem::LocalCommits)
    } else {
        None
    }
}

/// Check an installed checkout before it is removed, replaced, pushed or
/// inspected. Facts after the first failing one are not consulted, so a caller
/// may stop gathering them there.
pub fn checkout_problem(purpose: CheckoutUse, facts: &CheckoutFacts) -> (r: Option<CheckoutProblem>)
    ensures
        r == spec_checkout_problem(purpose, *facts),
{
    if !facts.definition_unchanged {
        Some(CheckoutProblem::Busy)
    } else if !facts.installed {
        Some(CheckoutProblem::NotInstalled)
    } else if !facts.managed_directory {
        Some(CheckoutProblem::NotManaged)
    } else if !facts.configured_repository {
        Some(CheckoutProblem::NotConfigured)
    } else if purpose != CheckoutUse::Inspect && facts.dirty {
        Some(CheckoutProblem::Dirty)
    } else if purpose == CheckoutUse::Remove && facts.commits_ahead {
        Some(CheckoutProblem::LocalCommits)
    } else {
        None
    }
}

/// What each use of a checkout refuses, for a checkout that is unchanged,
/// installed, managed and the configured repository: a push or a removal
/// refuses uncommitted changes, a removal also refuses commits not on origin,
/// and an inspection refuses neither. A clean checkout with nothing ahead is
/// fit for every use, and the first failing earlier check is reported before
/// any of these.
pub proof fn lemma_checkout_uses(purpose: CheckoutUse, facts: CheckoutFacts)
    ensures
        !facts.definition_unchanged ==> spec_checkout_problem(purpose, facts) == Some(CheckoutProblem::Busy),
        facts.definition_unchanged && !facts.installed ==> spec_checkout_problem(purpose, facts) == Some(
            CheckoutProblem::NotInstalled,
        ),
        facts.definition_unchanged && facts.installed && !facts.managed_directory ==> spec_checkout_problem(
            purpose,
            facts,
        ) == Some(CheckoutProblem::NotManaged),
        facts.definition_unchanged && facts.installed && facts.managed_directory && !facts.configured_repository
            ==> spec_checkout_problem(purpose, facts) == Some(CheckoutProblem::NotConfigured),
        facts.definition_unchanged && facts.installed && facts.managed_directory && facts.configured_repository ==> {
            &&& (purpose == CheckoutUse::Push && facts.dirty) ==> spec_checkout_problem(purpose, facts) == Some(
                CheckoutProblem::Dirty,
            )
            &&& (purpose == CheckoutUse::Remove && facts.dirty) ==> spec_checkout_problem(purpose, facts) == Some(
                CheckoutProblem::Dirty,
            )
            &&& (purpose == CheckoutUse::Remove && !facts.dirty && facts.commits_ahead) ==> spec_checkout_problem(
                purpose,
                facts,
            ) == Some(CheckoutProblem::LocalCommits)
            &&& (purpose == CheckoutUse::Push && !facts.dirty) ==> spec_checkout_problem(purpose, facts) is None
            &&& purpose == CheckoutUse::Inspect ==> spec_checkout_problem(purpose, facts) is None
            &&& (!facts.dirty && !facts.commits_ahead) ==> spec_checkout_problem(purpose, facts) is None
        },
{
}

impl CheckoutProblem {
    pub open spec fn spec_message(
        self,
        purpose: CheckoutUse,
        name: Seq<char>,
        catalog: Seq<char>,
        destination: Seq<char>,
    ) -> Seq<char> {
        let verb = if purpose == CheckoutUse::Remove { "remove"@ } else { "push"@ };
        match self {
            CheckoutProblem::Busy => destination + " is busy or changed while awaiting a decision; retry the operation"@,
            CheckoutProblem::NotInstalled => "tool '"@ + name + "' from catalog '"@ + catalog + "' is not installed"@,
            CheckoutProblem::NotManaged => "refusing to "@ + verb + " a destination that is not a managed Git checkout"@,
            CheckoutProblem::NotConfigured => "refusing to "@ + verb
                + " a checkout that is not the configured Git repository"@,
            CheckoutProblem::Dirty => if purpose == CheckoutUse::Remove {
                "working tree has local changes; preserve or discard them explicitly before retrying"@
            } else {
                "working tree has local changes; commit or discard them explicitly before retrying"@
            },
            CheckoutProblem::LocalCommits => "repository has local commits not present on origin; push or preserve them before retrying"@,
        }
    }

    /// The message for this problem of the tool `name` of `catalog`, installed at `destination`.
    pub fn message(self, purpose: CheckoutUse, name: &str, catalog: &str, destination: &str) -> (r: String)
        ensures
            r@ == self.spec_message(purpose, name@, catalog@, destination@),
    {
        let verb = if purpose == CheckoutUse::Remove { "remove" } else { "push" };
        proof {
            reveal_strlit("remove");
            reveal_strlit("push");
        }
        match self {
            CheckoutProblem::Busy => crate::persistence::Busy { resource: destination.to_string() }.message(),
            CheckoutProblem::NotInstalled => crate::text::cat5(
                "tool '",
                name,
                "' from catalog '",
                catalog,
                "' is not installed",
            ),
            CheckoutProblem::NotManaged => crate::text::cat3(
                "refusing to ",
                verb,
                " a destination that is not a managed Git checkout",
            ),
            CheckoutProblem::NotConfigured => crate::text::cat3(
                "refusing to ",
                verb,
                " a checkout that is not the configured Git repository",
            ),
            CheckoutProblem::Dirty => if purpose == CheckoutUse::Remove {
                "working tree has local changes; preserve or discard them explicitly before retrying".to_string()
            } else {
                "working tree has local changes; commit or discard them explicitly before retrying".to_string()
            },
            CheckoutProblem::LocalCommits => "repository has local commits not present on origin; push or preserve them before retrying".to_string(),
        }
    }
}

} // verus!
