//! The text that reports operation progress: one block of lines per notice.
use vstd::prelude::*;

use crate::git::{RepositoryStatus, RotIdentity};
use crate::interaction::Notice;
use crate::operations::{CatalogState, CatalogSummary, CatalogValidity};
use crate::text::{cat2, cat3, cat4, cat5, cat7};

verus! {

/// Which question the notices answer: the catalog list prints a table.
#[derive(Debug, Clone, Copy, PartialEq, Eq)]
pub enum Query {
    General,
    CatalogList,
}

/// Text lines for one notice, and whether they belong on standard error.
#[derive(Debug, Clone, PartialEq, Eq)]
pub struct Rendered {
    pub lines: Vec<String>,
    pub to_stderr: bool,
}

/// Renders notices in order; the first tool of a list is not preceded by a
/// blank line, and the catalog table has one header.
#[derive(Debug, Clone, Copy, PartialEq, Eq)]
pub struct Renderer {
    pub query: Query,
    pub first: bool,
}

pub open spec fn yes_no(b: bool) -> Seq<char> {
    if b { "yes"@ } else { "no"@ }
}

pub open spec fn or_text(value: Option<String>, fallback: Seq<char>) -> Seq<char> {
    match value {
        Some(v) => v@,
        None => fallback,
    }
}

/// The five lines describing a repository, or dashes when there is none.
pub open spec fn spec_repository_lines(status: Option<RepositoryStatus>) -> Seq<Seq<char>> {
    match status {
        Some(r) => seq![
            "Current branch: "@ + or_text(r.branch, "(detached)"@),
            "Current commit: "@ + or_text(r.commit, "(none)"@),
            "Working tree: "@ + (if r.dirty { "dirty"@ } else { "clean"@ }),
            "Fetch URL: "@ + or_text(r.origin, "(none)"@),
            match (r.push_url, r.origin) {
                (Some(p), _) => "Push URL: "@ + p@,
                (None, Some(f)) => "Push URL: "@ + f@ + " (uses fetch URL)"@,
                (None, None) => "Push URL: (none)"@,
            },
        ],
        None => seq![
            "Current branch: -"@,
            "Current commit: -"@,
            "Working tree: -"@,
            "Fetch URL: -"@,
            "Push URL: -"@,
        ],
    }
}

pub open spec fn spec_state_name(state: CatalogState) -> Seq<char> {
    match state {
        CatalogState::Missing => "missing"@,
        CatalogState::Installed => "installed"@,
        CatalogState::Mismatch => "mismatch"@,
    }
}

/// One tab-separated row of the catalog table.
pub open spec fn spec_catalog_row(row: CatalogSummary) -> Seq<char> {
    row.name@ + "\t"@ + spec_state_name(row.state) + "\t"@ + (if row.source.writable {
        "writable"@
    } else {
        "read-only"@
    }) + "\t"@ + yes_no(row.default) + "\t"@ + row.source.url@
}

pub open spec fn spec_validity_line(v: CatalogValidity) -> Seq<char> {
    match v {
        CatalogValidity::Unmanaged => "Catalog file: unavailable (destination is not a managed repository)"@,
        CatalogValidity::Missing => "Catalog file: missing"@,
        CatalogValidity::Valid => "Catalog file: valid"@,
        CatalogValidity::Invalid(e) => "Catalog file: invalid ("@ + e@ + ")"@,
    }
}

/// The one-line report of a notice that needs no state.
pub open spec fn spec_simple_line(notice: Notice) -> Seq<char> {
    match notice {
        Notice::CatalogRegistered { name } => "registered catalog '"@ + name@ + "'"@,
        Notice::CatalogAlreadyRegistered { name } => "catalog '"@ + name@ + "' is already registered"@,
        Notice::CatalogInstalled { name, path } => "installed catalog '"@ + name@ + "' at "@ + path@,
        Notice::CatalogAlreadyInstalled { name } => "catalog '"@ + name@ + "' is already installed"@,
        Notice::CatalogCreated { name } => "created initial catalog.toml for catalog '"@ + name@ + "'"@,
        Notice::CatalogAlreadyInitialized { name } => "catalog '"@ + name@ + "' is already initialized"@,
        Notice::InitialCatalogCommitted { commit_hash } => "committed initial catalog at "@ + commit_hash@,
        Notice::InitialCatalogAlreadyCommitted => "initial catalog is already committed"@,
        Notice::InitialCatalogUncommitted => "initial catalog.toml was not committed or pushed"@,
        Notice::InitialCatalogPushed { name } => "pushed initial catalog '"@ + name@ + "' to origin"@,
        Notice::InitialCatalogNotPushed => "initial catalog commit was not pushed"@,
        Notice::CatalogCurrent { name, new_commit } => "catalog '"@ + name@ + "' is already current at "@
            + new_commit@,
        Notice::CatalogSynced { name, old_commit, new_commit } => "synchronized catalog '"@ + name@
            + "' from "@ + old_commit@ + " to "@ + new_commit@,
        Notice::CatalogMigrated { name } => "migrated legacy tools to writable catalog '"@ + name@ + "'"@,
        Notice::CatalogUncommitted => "catalog changes were not committed or pushed"@,
        Notice::ToolAlreadyDefined { name, catalog_name } => "tool '"@ + name@ + "' is already defined in catalog '"@
            + catalog_name@ + "'"@,
        Notice::ToolAdded { name, catalog_name } => "added tool '"@ + name@ + "' to catalog '"@ + catalog_name@
            + "'"@,
        Notice::CatalogCommitted { commit_hash } => "committed catalog change at "@ + commit_hash@,
        Notice::CatalogAlreadyCommitted => "catalog change is already committed"@,
        Notice::CatalogPushed { catalog_name } => "pushed catalog '"@ + catalog_name@ + "' to origin"@,
        Notice::ToolAlreadyInstalled { name } => "tool '"@ + name@ + "' is already installed"@,
        Notice::ToolInstalled { name, path } => "installed tool '"@ + name@ + "' at "@ + path@,
        Notice::PushUrlConfigured { push_url } => "configured SSH push URL: "@ + push_url@,
        Notice::ToolReconciled { name } => "reconciled tool '"@ + name@ + "' fetch and push URLs"@,
        Notice::ToolCurrent { name, new_commit } => "tool '"@ + name@ + "' is already current at "@ + new_commit@,
        Notice::ToolUpdated { name, old_commit, new_commit } => "updated tool '"@ + name@ + "' from "@
            + old_commit@ + " to "@ + new_commit@,
        Notice::SkippedCatalog { name, diagnostic } => "warning: skipping catalog '"@ + name@ + "': "@
            + diagnostic@ + "; run 'loadbot catalog status "@ + name@ + "' for details"@,
        _ => Seq::empty(),
    }
}

/// The lines for a notice, whether they go to standard error, and the
/// renderer's state afterwards.
pub open spec fn spec_render(r: Renderer, notice: Notice) -> (Seq<Seq<char>>, bool, Renderer) {
    match notice {
        Notice::CatalogInspected(row) => (seq![spec_catalog_row(row)], false, r),
        Notice::ToolInspected(row) => {
            let block = seq![
                row.tool.name@,
                "  catalog  "@ + row.tool.catalog@,
                "  type     "@ + "git"@,
                "  state    "@ + (if row.installed { "installed"@ } else { "missing"@ }),
            ];
            (if r.first { block } else { seq![Seq::empty()] + block }, false, Renderer { first: false, ..r })
        },
        Notice::CatalogResolved { name, path, source } => if r.query == Query::CatalogList {
            if r.first {
                (seq!["NAME\tSTATE\tACCESS\tDEFAULT\tURL"@], false, Renderer { first: false, ..r })
            } else {
                (seq![], false, r)
            }
        } else {
            (
                seq![
                    "Name: "@ + name@,
                    "Path: "@ + path@,
                    "Catalog fetch URL: "@ + source.url@,
                    "Writable: "@ + yes_no(source.writable),
                ],
                false,
                r,
            )
        },
        Notice::ToolResolved { tool, path } => (
            seq!["Name: "@ + tool.name@, "Catalog: "@ + tool.catalog@, "Path: "@ + path@],
            false,
            r,
        ),
        Notice::ToolSourceInspected { installed, url, revision } => (
            seq![
                "Installed: "@ + yes_no(installed),
                "Catalog fetch URL: "@ + url@,
                "Configured revision: "@ + or_text(revision, "(default)"@),
            ],
            false,
            r,
        ),
        Notice::RepositoryInspected(value) => (spec_repository_lines(value), false, r),
        Notice::CatalogFileInspected(value) => (seq![spec_validity_line(value)], false, r),
        Notice::SkippedCatalog { .. } => (seq![spec_simple_line(notice)], true, r),
        _ => (seq![spec_simple_line(notice)], false, r),
    }
}

fn or_str(value: &Option<String>, fallback: &str) -> (r: String)
    ensures
        r@ == or_text(*value, fallback@),
{
    match value {
        Some(v) => v.clone(),
        None => fallback.to_string(),
    }
}

fn yes_no_str(b: bool) -> (r: &'static str)
    ensures
        r@ == yes_no(b),
{
    if b { "yes" } else { "no" }
}

/// The five lines describing a repository.
pub fn repository_lines(status: &Option<RepositoryStatus>) -> (r: Vec<String>)
    ensures
        crate::git::views(r@) == spec_repository_lines(*status),
{
    let mut v: Vec<String> = Vec::new();
    match status {
        Some(repository) => {
            let branch = or_str(&repository.branch, "(detached)");
            v.push(cat2("Current branch: ", branch.as_str()));
            let commit = or_str(&repository.commit, "(none)");
            v.push(cat2("Current commit: ", commit.as_str()));
            v.push(cat2("Working tree: ", if repository.dirty { "dirty" } else { "clean" }));
            let origin = or_str(&repository.origin, "(none)");
            v.push(cat2("Fetch URL: ", origin.as_str()));
            let push = match (&repository.push_url, &repository.origin) {
                (Some(p), _) => cat2("Push URL: ", p.as_str()),
                (None, Some(f)) => cat3("Push URL: ", f.as_str(), " (uses fetch URL)"),
                (None, None) => "Push URL: (none)".to_string(),
            };
            v.push(push);
        },
        None => {
            v.push("Current branch: -".to_string());
            v.push("Current commit: -".to_string());
            v.push("Working tree: -".to_string());
            v.push("Fetch URL: -".to_string());
            v.push("Push URL: -".to_string());
        },
    }
    assert(crate::git::views(v@) =~= spec_repository_lines(*status));
    v
}

/// One row of the catalog table.
pub fn catalog_row(row: &CatalogSummary) -> (r: String)
    ensures
        r@ == spec_catalog_row(*row),
{
    let state = match row.state {
        CatalogState::Missing => "missing",
        CatalogState::Installed => "installed",
        CatalogState::Mismatch => "mismatch",
    };
    let access = if row.source.writable { "writable" } else { "read-only" };
    let head = cat5(row.name.as_str(), "\t", state, "\t", access);
    cat5(head.as_str(), "\t", yes_no_str(row.default), "\t", row.source.url.as_str())
}

fn simple_line(notice: &Notice) -> (r: String)
    ensures
        r@ == spec_simple_line(*notice),
{
    match notice {
        Notice::CatalogRegistered { name } => cat3("registered catalog '", name.as_str(), "'"),
        Notice::CatalogAlreadyRegistered { name } => cat3("catalog '", name.as_str(), "' is already registered"),
        Notice::CatalogInstalled { name, path } => cat4("installed catalog '", name.as_str(), "' at ", path.as_str()),
        Notice::CatalogAlreadyInstalled { name } => cat3("catalog '", name.as_str(), "' is already installed"),
        Notice::CatalogCreated { name } => cat3("created initial catalog.toml for catalog '", name.as_str(), "'"),
        Notice::CatalogAlreadyInitialized { name } => cat3("catalog '", name.as_str(), "' is already initialized"),
        Notice::InitialCatalogCommitted { commit_hash } => cat2("committed initial catalog at ", commit_hash.as_str()),
        Notice::InitialCatalogAlreadyCommitted => "initial catalog is already committed".to_string(),
        Notice::InitialCatalogUncommitted => "initial catalog.toml was not committed or pushed".to_string(),
        Notice::InitialCatalogPushed { name } => cat3("pushed initial catalog '", name.as_str(), "' to origin"),
        Notice::InitialCatalogNotPushed => "initial catalog commit was not pushed".to_string(),
        Notice::CatalogCurrent { name, new_commit } => cat4(
            "catalog '",
            name.as_str(),
            "' is already current at ",
            new_commit.as_str(),
        ),
        Notice::CatalogSynced { name, old_commit, new_commit } => {
            let head = cat4("synchronized catalog '", name.as_str(), "' from ", old_commit.as_str());
            cat3(head.as_str(), " to ", new_commit.as_str())
        },
        Notice::CatalogMigrated { name } => cat3("migrated legacy tools to writable catalog '", name.as_str(), "'"),
        Notice::CatalogUncommitted => "catalog changes were not committed or pushed".to_string(),
        Notice::ToolAlreadyDefined { name, catalog_name } => cat5(
            "tool '",
            name.as_str(),
            "' is already defined in catalog '",
            catalog_name.as_str(),
            "'",
        ),
        Notice::ToolAdded { name, catalog_name } => cat5(
            "added tool '",
            name.as_str(),
            "' to catalog '",
            catalog_name.as_str(),
            "'",
        ),
        Notice::CatalogCommitted { commit_hash } => cat2("committed catalog change at ", commit_hash.as_str()),
        Notice::CatalogAlreadyCommitted => "catalog change is already committed".to_string(),
        Notice::CatalogPushed { catalog_name } => cat3("pushed catalog '", catalog_name.as_str(), "' to origin"),
        Notice::ToolAlreadyInstalled { name } => cat3("tool '", name.as_str(), "' is already installed"),
        Notice::ToolInstalled { name, path } => cat4("installed tool '", name.as_str(), "' at ", path.as_str()),
        Notice::PushUrlConfigured { push_url } => cat2("configured SSH push URL: ", push_url.as_str()),
        Notice::ToolReconciled { name } => cat3("reconciled tool '", name.as_str(), "' fetch and push URLs"),
        Notice::ToolCurrent { name, new_commit } => cat4(
            "tool '",
            name.as_str(),
            "' is already current at ",
            new_commit.as_str(),
        ),
        Notice::ToolUpdated { name, old_commit, new_commit } => {
            let head = cat4("updated tool '", name.as_str(), "' from ", old_commit.as_str());
            cat3(head.as_str(), " to ", new_commit.as_str())
        },
        Notice::SkippedCatalog { name, diagnostic } => cat7(
            "warning: skipping catalog '",
            name.as_str(),
            "': ",
            diagnostic.as_str(),
            "; run 'loadbot catalog status ",
            name.as_str(),
            "' for details",
        ),
        _ => String::new(),
    }
}

fn one(line: String) -> (r: Vec<String>)
    ensures
        crate::git::views(r@) == seq![line@],
{
    let mut v: Vec<String> = Vec::new();
    v.push(line);
    assert(crate::git::views(v@) =~= seq![line@]);
    v
}

impl Renderer {
    /// A renderer before its first notice.
    pub fn new(query: Query) -> (r: Self)
        ensures
            r.query == query,
            r.first,
    {
        Renderer { query, first: true }
    }

    /// The lines reporting `notice`.
    pub fn notice(&mut self, notice: &Notice) -> (r: Rendered)
        ensures
            crate::git::views(r.lines@) == spec_render(*old(self), *notice).0,
            r.to_stderr == spec_render(*old(self), *notice).1,
            *final(self) == spec_render(*old(self), *notice).2,
    {
        match notice {
            Notice::CatalogInspected(row) => Rendered { lines: one(catalog_row(row)), to_stderr: false },
            Notice::ToolInspected(row) => {
                let mut v: Vec<String> = Vec::new();
                if !self.first {
                    v.push(String::new());
                }
                self.first = false;
                v.push(row.tool.name.clone());
                v.push(cat2("  catalog  ", row.tool.catalog.as_str()));
                v.push(cat2("  type     ", row.tool.definition.source_type.as_str()));
                v.push(cat2("  state    ", if row.installed { "installed" } else { "missing" }));
                let ghost block = seq![
                    row.tool.name@,
                    "  catalog  "@ + row.tool.catalog@,
                    "  type     "@ + "git"@,
                    "  state    "@ + (if row.installed { "installed"@ } else { "missing"@ }),
                ];
                proof {
                    if old(self).first {
                        assert(crate::git::views(v@) =~= block);
                    } else {
                        assert(crate::git::views(v@) =~= seq![Seq::<char>::empty()] + block);
                    }
                }
                Rendered { lines: v, to_stderr: false }
            },
            Notice::CatalogResolved { name, path, source } => {
                if let Query::CatalogList = self.query {
                    if self.first {
                        self.first = false;
                        return Rendered { lines: one("NAME\tSTATE\tACCESS\tDEFAULT\tURL".to_string()), to_stderr: false };
                    }
                    let v: Vec<String> = Vec::new();
                    assert(crate::git::views(v@) =~= seq![]);
                    return Rendered { lines: v, to_stderr: false };
                }
                let mut v: Vec<String> = Vec::new();
                v.push(cat2("Name: ", name.as_str()));
                v.push(cat2("Path: ", path.as_str()));
                v.push(cat2("Catalog fetch URL: ", source.url.as_str()));
                v.push(cat2("Writable: ", yes_no_str(source.writable)));
                assert(crate::git::views(v@) =~= spec_render(*old(self), *notice).0);
                Rendered { lines: v, to_stderr: false }
            },
            Notice::ToolResolved { tool, path } => {
                let mut v: Vec<String> = Vec::new();
                v.push(cat2("Name: ", tool.name.as_str()));
                v.push(cat2("Catalog: ", tool.catalog.as_str()));
                v.push(cat2("Path: ", path.as_str()));
                assert(crate::git::views(v@) =~= spec_render(*old(self), *notice).0);
                Rendered { lines: v, to_stderr: false }
            },
            Notice::ToolSourceInspected { installed, url, revision } => {
                let mut v: Vec<String> = Vec::new();
                v.push(cat2("Installed: ", yes_no_str(*installed)));
                v.push(cat2("Catalog fetch URL: ", url.as_str()));
                let rev = or_str(revision, "(default)");
                v.push(cat2("Configured revision: ", rev.as_str()));
                assert(crate::git::views(v@) =~= spec_render(*old(self), *notice).0);
                Rendered { lines: v, to_stderr: false }
            },
            Notice::RepositoryInspected(value) => Rendered { lines: repository_lines(value), to_stderr: false },
            Notice::CatalogFileInspected(value) => {
                let line = match value {
                    CatalogValidity::Unmanaged => "Catalog file: unavailable (destination is not a managed repository)".to_string(),
                    CatalogValidity::Missing => "Catalog file: missing".to_string(),
                    CatalogValidity::Valid => "Catalog file: valid".to_string(),
                    CatalogValidity::Invalid(e) => cat3("Catalog file: invalid (", e.as_str(), ")"),
                };
                Rendered { lines: one(line), to_stderr: false }
            },
            Notice::SkippedCatalog { .. } => Rendered { lines: one(simple_line(notice)), to_stderr: true },
            _ => Rendered { lines: one(simple_line(notice)), to_stderr: false },
        }
    }
}

/// The choices offered for Rot identities: `<alias> -> <username>`.
pub open spec fn spec_identity_choice(identity: RotIdentity) -> Seq<char> {
    identity.alias@ + " -> "@ + or_text(identity.username, ""@)
}

/// The choices offered for verified Rot identities, in order.
pub fn identity_choices(identities: &[RotIdentity]) -> (r: Vec<String>)
    ensures
        r@.len() == identities@.len(),
        forall|i: int| 0 <= i < r@.len() ==> (#[trigger] r@[i])@ == spec_identity_choice(identities@[i]),
{
    let mut r: Vec<String> = Vec::new();
    let mut i: usize = 0;
    while i < identities.len()
        invariant
            i <= identities.len(),
            r@.len() == i,
            forall|j: int| 0 <= j < i ==> (#[trigger] r@[j])@ == spec_identity_choice(identities@[j]),
        decreases identities.len() - i,
    {
        let user = or_str(&identities[i].username, "");
        let line = cat3(identities[i].alias.as_str(), " -> ", user.as_str());
        let ghost before = r@;
        r.push(line);
        assert forall|j: int| 0 <= j < i + 1 implies (#[trigger] r@[j])@ == spec_identity_choice(identities@[j]) by {
            if j < i {
                assert(r@[j] == before[j]);
            }
        }
        i = i + 1;
    }
    r
}

/// The index of the first choice equal to `selection`.
pub fn choice_index(choices: &Vec<String>, selection: &str) -> (r: Option<usize>)
    ensures
        r matches Some(i) ==> i < choices@.len() && choices@[i as int]@ == selection@ && forall|j: int|
            0 <= j < i ==> choices@[j]@ != selection@,
        r is None ==> forall|j: int| 0 <= j < choices@.len() ==> choices@[j]@ != selection@,
{
    let mut i: usize = 0;
    while i < choices.len()
        invariant
            i <= choices.len(),
            forall|j: int| 0 <= j < i ==> choices@[j]@ != selection@,
        decreases choices.len() - i,
    {
        if crate::text::str_eq(choices[i].as_str(), selection) {
            return Some(i);
        }
        i = i + 1;
    }
    None
}

} // verus!
