//! Catalog definitions: tools, their shared commands, and interpreters.
use vstd::prelude::*;

use crate::git::views;
use crate::paths::{spec_valid_name, validate_name};
use crate::recipe::{
    spec_validate, unit_view, LegacyInvocation, RecipeDefinition, RecipeError, RecipeErrorView,
    StoredInvocation,
};
use crate::shortcuts::{relative_path, spec_relative_path, ShortcutPathError};
use crate::text::{opt_str_eq, str_eq};

verus! {

/// The interpreter a project file runs with.
#[derive(Debug, Clone, Copy, PartialEq, Eq)]
pub enum Runner {
    Direct,
    Bash,
    Sh,
    Python,
    Powershell,
}

/// The operating-system family whose executable naming applies.
#[derive(Debug, Clone, Copy, PartialEq, Eq)]
pub enum Platform {
    Windows,
    Other,
}

impl Runner {
    pub open spec fn spec_name(self) -> Seq<char> {
        match self {
            Runner::Direct => "direct"@,
            Runner::Bash => "bash"@,
            Runner::Sh => "sh"@,
            Runner::Python => "python"@,
            Runner::Powershell => "powershell"@,
        }
    }

    /// The executable names tried in order, which depend on the platform.
    pub open spec fn spec_candidates(self, platform: Platform) -> Seq<Seq<char>> {
        match self {
            Runner::Direct => seq![],
            Runner::Bash => seq!["bash"@],
            Runner::Sh => seq!["sh"@],
            Runner::Python => if platform is Windows {
                seq!["python"@, "python3"@]
            } else {
                seq!["python3"@, "python"@]
            },
            Runner::Powershell => if platform is Windows {
                seq!["powershell"@, "pwsh"@]
            } else {
                seq!["pwsh"@, "powershell"@]
            },
        }
    }

    /// The configuration name of the runner.
    pub fn as_str(self) -> (r: &'static str)
        ensures
            r@ == self.spec_name(),
    {
        match self {
            Runner::Direct => "direct",
            Runner::Bash => "bash",
            Runner::Sh => "sh",
            Runner::Python => "python",
            Runner::Powershell => "powershell",
        }
    }

    /// The executable names searched for, in order, on the given platform.
    pub fn executable_candidates(self, platform: Platform) -> (r: Vec<String>)
        ensures
            views(r@) == self.spec_candidates(platform),
    {
        let mut r: Vec<String> = Vec::new();
        let windows = match platform {
            Platform::Windows => true,
            Platform::Other => false,
        };
        match self {
            Runner::Direct => {},
            Runner::Bash => {
                r.push("bash".to_string());
            },
            Runner::Sh => {
                r.push("sh".to_string());
            },
            Runner::Python => {
                if windows {
                    r.push("python".to_string());
                    r.push("python3".to_string());
                } else {
                    r.push("python3".to_string());
                    r.push("python".to_string());
                }
            },
            Runner::Powershell => {
                if windows {
                    r.push("powershell".to_string());
                    r.push("pwsh".to_string());
                } else {
                    r.push("pwsh".to_string());
                    r.push("powershell".to_string());
                }
            },
        }
        assert(views(r@) =~= self.spec_candidates(platform));
        r
    }

    /// The runner with the given configuration name.
    pub fn from_name(name: &str) -> (r: Option<Runner>)
        ensures
            r matches Some(runner) ==> runner.spec_name() == name@,
            r is None ==> forall|runner: Runner| runner.spec_name() != name@,
    {
        let n = crate::text::chars_of(name);
        if crate::text::eq(&n, &crate::text::chars_of("direct")) {
            Some(Runner::Direct)
        } else if crate::text::eq(&n, &crate::text::chars_of("bash")) {
            Some(Runner::Bash)
        } else if crate::text::eq(&n, &crate::text::chars_of("sh")) {
            Some(Runner::Sh)
        } else if crate::text::eq(&n, &crate::text::chars_of("python")) {
            Some(Runner::Python)
        } else if crate::text::eq(&n, &crate::text::chars_of("powershell")) {
            Some(Runner::Powershell)
        } else {
            None
        }
    }
}

/// The kind of source a tool is fetched from.
#[derive(Debug, Clone, Copy, PartialEq, Eq)]
pub enum SourceType {
    Git,
}

impl SourceType {
    /// The configuration name of the source type.
    pub fn as_str(self) -> (r: &'static str)
        ensures
            r@ == "git"@,
    {
        match self {
            SourceType::Git => "git",
        }
    }
}


/// The catalog format version this library reads and writes.
pub const CATALOG_VERSION: u32 = 1;

/// A named value of a field this library does not interpret, kept as its
/// serialized text so that it survives a rewrite unchanged.
pub type ExtraField = (String, String);

/// One tool of a catalog: where its source is fetched from, and its shared commands.
#[derive(Debug, Clone, PartialEq, Eq)]
pub struct ToolConfig {
    pub source_type: SourceType,
    pub url: String,
    pub revision: Option<String>,
    pub commands: Vec<(String, CommandConfig)>,
    pub extra: Vec<ExtraField>,
}

/// A shared command of a tool: how it is invoked, and an optional description.
#[derive(Debug, Clone, PartialEq, Eq)]
pub struct CommandConfig {
    pub invocation: StoredInvocation,
    pub description: Option<String>,
    pub extra: Vec<ExtraField>,
}

/// The contents of a catalog file: its version and its tools by name.
#[derive(Debug, Clone)]
pub struct CatalogFile {
    pub version: u32,
    pub tools: Vec<(String, ToolConfig)>,
    pub extra: Vec<ExtraField>,
}

/// A tool definition together with its name and the catalog that defines it.
#[derive(Debug, Clone)]
pub struct ResolvedTool {
    pub name: String,
    pub catalog: String,
    pub definition: ToolConfig,
}

impl ToolConfig {
    /// A Git tool with the given URL and revision, no commands and no extra fields.
    pub fn git(url: String, revision: Option<String>) -> (r: Self)
        ensures
            r.source_type == SourceType::Git,
            r.url == url,
            r.revision == revision,
            r.commands@.len() == 0,
            r.extra@.len() == 0,
    {
        ToolConfig { source_type: SourceType::Git, url, revision, commands: Vec::new(), extra: Vec::new() }
    }

    /// Whether `other` names the same source: type, URL and revision.
    pub open spec fn spec_has_source(self, other: Self) -> bool {
        &&& self.source_type == other.source_type
        &&& self.url@ == other.url@
        &&& crate::git::opt_string_view(self.revision) == crate::git::opt_string_view(other.revision)
    }

    /// Whether `other` names the same source: type, URL and revision.
    pub fn has_source(&self, other: &Self) -> (r: bool)
        ensures
            r == self.spec_has_source(*other),
    {
        let same_type = match (self.source_type, other.source_type) {
            (SourceType::Git, SourceType::Git) => true,
        };
        same_type && str_eq(self.url.as_str(), other.url.as_str()) && opt_str_eq(
            &self.revision,
            &other.revision,
        )
    }
}

impl CommandConfig {
    /// A command that runs a project file, optionally through a runner.
    pub fn legacy(path: String, runner: Option<Runner>) -> (r: Self)
        ensures
            r.invocation == StoredInvocation::Legacy(LegacyInvocation { path, runner }),
            r.description is None,
            r.extra@.len() == 0,
    {
        CommandConfig {
            invocation: StoredInvocation::legacy(path, runner),
            description: None,
            extra: Vec::new(),
        }
    }

    /// The legacy invocation, if this command has one.
    pub fn legacy_invocation(&self) -> (r: Option<&LegacyInvocation>)
        ensures
            r == (match self.invocation {
                StoredInvocation::Legacy(l) => Some(&l),
                StoredInvocation::Recipe(_) => None::<&LegacyInvocation>,
            }),
    {
        self.invocation.as_legacy()
    }

    /// A command for a recipe, which must be valid.
    pub fn recipe(recipe: RecipeDefinition) -> (r: Result<Self, RecipeError>)
        ensures
            r matches Ok(c) ==> spec_validate(recipe) is Ok && c.invocation == StoredInvocation::Recipe(
                recipe,
            ) && c.description is None && c.extra@.len() == 0,
            r matches Err(e) ==> spec_validate(recipe) == Err::<(), RecipeErrorView>(e@),
    {
        match recipe.validate() {
            Err(e) => Err(e),
            Ok(()) => Ok(
                CommandConfig {
                    invocation: StoredInvocation::Recipe(recipe),
                    description: None,
                    extra: Vec::new(),
                },
            ),
        }
    }
}

impl CatalogFile {
    /// An empty catalog of the current version.
    pub fn new() -> (r: Self)
        ensures
            r.version == CATALOG_VERSION,
            r.tools@.len() == 0,
            r.extra@.len() == 0,
    {
        CatalogFile { version: CATALOG_VERSION, tools: Vec::new(), extra: Vec::new() }
    }

    /// Whether this is the catalog that initialization writes: current version,
    /// no tools and no other fields.
    pub open spec fn spec_is_initial(self) -> bool {
        self.version == CATALOG_VERSION && self.tools@.len() == 0 && self.extra@.len() == 0
    }

    pub fn is_initial(&self) -> (r: bool)
        ensures
            r == self.spec_is_initial(),
    {
        self.version == CATALOG_VERSION && self.tools.len() == 0 && self.extra.len() == 0
    }
}

/// Why a catalog file is rejected.
#[derive(Debug, Clone)]
pub enum CatalogError {
    UnsupportedVersion(u32),
    UnsafeToolName(String),
    UnsafeCommandName { tool: String, command: String },
    UnsafeCommandPath { tool: String, command: String, error: ShortcutPathError },
    InvalidRecipe { tool: String, command: String, error: RecipeError },
}

pub enum CatalogErrorView {
    UnsupportedVersion(u32),
    UnsafeToolName(Seq<char>),
    UnsafeCommandName { tool: Seq<char>, command: Seq<char> },
    UnsafeCommandPath { tool: Seq<char>, command: Seq<char>, error: ShortcutPathError },
    InvalidRecipe { tool: Seq<char>, command: Seq<char>, error: RecipeErrorView },
}

impl CatalogError {
    pub open spec fn spec_message(self, path: Seq<char>) -> Seq<char> {
        match self {
            CatalogError::UnsupportedVersion(v) => "unsupported catalog version "@ + crate::text::spec_decimal(v as nat)
                + " in "@ + path,
            CatalogError::UnsafeToolName(t) => "catalog contains an unsafe tool name '"@ + t@ + "': "@
                + crate::paths::spec_name_message(t@),
            CatalogError::UnsafeCommandName { tool, command } => "tool '"@ + tool@ + "' contains an unsafe command name: "@
                + crate::paths::spec_name_message(command@),
            CatalogError::UnsafeCommandPath { tool, command, error } => "command '"@ + command@ + "' for tool '"@ + tool@
                + "' contains an unsafe path: "@ + error.spec_message(),
            CatalogError::InvalidRecipe { tool, command, error } => "command '"@ + command@ + "' for tool '"@ + tool@
                + "' contains an invalid recipe: "@ + error@.spec_message(),
        }
    }

    /// The message for the catalog file at `path`.
    pub fn message(&self, path: &str) -> (r: String)
        ensures
            r@ == self.spec_message(path@),
    {
        match self {
            CatalogError::UnsupportedVersion(v) => {
                let d = crate::text::decimal(*v as u64);
                crate::text::cat4("unsupported catalog version ", d.as_str(), " in ", path)
            },
            CatalogError::UnsafeToolName(t) => {
                let detail = crate::paths::name_message(t.as_str());
                crate::text::cat4("catalog contains an unsafe tool name '", t.as_str(), "': ", detail.as_str())
            },
            CatalogError::UnsafeCommandName { tool, command } => {
                let detail = crate::paths::name_message(command.as_str());
                crate::text::cat4("tool '", tool.as_str(), "' contains an unsafe command name: ", detail.as_str())
            },
            CatalogError::UnsafeCommandPath { tool, command, error } => {
                let detail = error.message();
                let head = crate::text::cat5(
                    "command '",
                    command.as_str(),
                    "' for tool '",
                    tool.as_str(),
                    "' contains an unsafe path: ",
                );
                crate::text::cat2(head.as_str(), detail.as_str())
            },
            CatalogError::InvalidRecipe { tool, command, error } => {
                let detail = error.message();
                let head = crate::text::cat5(
                    "command '",
                    command.as_str(),
                    "' for tool '",
                    tool.as_str(),
                    "' contains an invalid recipe: ",
                );
                crate::text::cat2(head.as_str(), detail.as_str())
            },
        }
    }
}

impl View for CatalogError {
    type V = CatalogErrorView;

    open spec fn view(&self) -> CatalogErrorView {
        match self {
            CatalogError::UnsupportedVersion(v) => CatalogErrorView::UnsupportedVersion(*v),
            CatalogError::UnsafeToolName(n) => CatalogErrorView::UnsafeToolName(n@),
            CatalogError::UnsafeCommandName { tool, command } => CatalogErrorView::UnsafeCommandName {
                tool: tool@,
                command: command@,
            },
            CatalogError::UnsafeCommandPath { tool, command, error } =>
                CatalogErrorView::UnsafeCommandPath { tool: tool@, command: command@, error: *error },
            CatalogError::InvalidRecipe { tool, command, error } => CatalogErrorView::InvalidRecipe {
                tool: tool@,
                command: command@,
                error: error@,
            },
        }
    }
}

pub open spec fn catalog_unit_view(r: Result<(), CatalogError>) -> Result<(), CatalogErrorView> {
    match r {
        Ok(()) => Ok(()),
        Err(e) => Err(e@),
    }
}

/// The first problem with one command of `tool`: its name, then its path or recipe.
pub open spec fn spec_validate_command(tool: Seq<char>, name: Seq<char>, command: CommandConfig) -> Result<
    (),
    CatalogErrorView,
> {
    if !spec_valid_name(name) {
        Err(CatalogErrorView::UnsafeCommandName { tool, command: name })
    } else {
        match command.invocation {
            StoredInvocation::Legacy(legacy) => match spec_relative_path(legacy.path@) {
                Ok(_) => Ok(()),
                Err(error) => Err(CatalogErrorView::UnsafeCommandPath { tool, command: name, error }),
            },
            StoredInvocation::Recipe(recipe) => match spec_validate(recipe) {
                Ok(()) => Ok(()),
                Err(error) => Err(CatalogErrorView::InvalidRecipe { tool, command: name, error }),
            },
        }
    }
}

/// The first problem among the commands of `tool`, in order.
pub open spec fn spec_validate_commands(tool: Seq<char>, commands: Seq<(String, CommandConfig)>) -> Result<
    (),
    CatalogErrorView,
>
    decreases commands.len(),
{
    if commands.len() == 0 {
        Ok(())
    } else {
        match spec_validate_command(tool, commands[0].0@, commands[0].1) {
            Err(e) => Err(e),
            Ok(()) => spec_validate_commands(tool, commands.drop_first()),
        }
    }
}

/// The first problem among the tools, in order: a tool's name before its commands.
pub open spec fn spec_validate_tools(tools: Seq<(String, ToolConfig)>) -> Result<(), CatalogErrorView>
    decreases tools.len(),
{
    if tools.len() == 0 {
        Ok(())
    } else {
        match spec_validate_tool(tools[0].0@, tools[0].1) {
            Err(e) => Err(e),
            Ok(()) => spec_validate_tools(tools.drop_first()),
        }
    }
}

/// The first problem with one tool: its name, then its commands.
pub open spec fn spec_validate_tool(name: Seq<char>, tool: ToolConfig) -> Result<(), CatalogErrorView> {
    if !spec_valid_name(name) {
        Err(CatalogErrorView::UnsafeToolName(name))
    } else {
        spec_validate_commands(name, tool.commands@)
    }
}

fn validate_tool(name: &String, tool: &ToolConfig) -> (r: Result<(), CatalogError>)
    ensures
        catalog_unit_view(r) == spec_validate_tool(name@, *tool),
{
    if validate_name(name.as_str()).is_err() {
        return Err(CatalogError::UnsafeToolName(name.clone()));
    }
    validate_commands(name, &tool.commands)
}

/// A catalog is valid when its version is supported and every tool and
/// command name, command path and recipe is.
pub open spec fn spec_validate_catalog(catalog: CatalogFile) -> Result<(), CatalogErrorView> {
    if catalog.version != CATALOG_VERSION {
        Err(CatalogErrorView::UnsupportedVersion(catalog.version))
    } else {
        spec_validate_tools(catalog.tools@)
    }
}

fn validate_command(tool: &String, name: &String, command: &CommandConfig) -> (r: Result<(), CatalogError>)
    ensures
        catalog_unit_view(r) == spec_validate_command(tool@, name@, *command),
{
    if validate_name(name.as_str()).is_err() {
        return Err(CatalogError::UnsafeCommandName { tool: tool.clone(), command: name.clone() });
    }
    match &command.invocation {
        StoredInvocation::Legacy(legacy) => match relative_path(legacy.path.as_str()) {
            Ok(_) => Ok(()),
            Err(error) => Err(CatalogError::UnsafeCommandPath { tool: tool.clone(), command: name.clone(), error }),
        },
        StoredInvocation::Recipe(recipe) => match recipe.validate() {
            Ok(()) => Ok(()),
            Err(error) => Err(CatalogError::InvalidRecipe { tool: tool.clone(), command: name.clone(), error }),
        },
    }
}

fn validate_commands(tool: &String, commands: &Vec<(String, CommandConfig)>) -> (r: Result<(), CatalogError>)
    ensures
        catalog_unit_view(r) == spec_validate_commands(tool@, commands@),
{
    let mut i: usize = 0;
    assert(commands@.subrange(0, commands.len() as int) =~= commands@);
    while i < commands.len()
        invariant
            i <= commands.len(),
            spec_validate_commands(tool@, commands@) == spec_validate_commands(
                tool@,
                commands@.subrange(i as int, commands.len() as int),
            ),
        decreases commands.len() - i,
    {
        let ghost rest = commands@.subrange(i as int, commands.len() as int);
        assert(rest[0] == commands@[i as int]);
        assert(rest.drop_first() =~= commands@.subrange(i + 1, commands.len() as int));
        let r = validate_command(tool, &commands[i].0, &commands[i].1);
        if r.is_err() {
            return r;
        }
        i = i + 1;
    }
    Ok(())
}

/// Check a catalog as it is read and before it is written.
pub fn validate(catalog: &CatalogFile) -> (r: Result<(), CatalogError>)
    ensures
        catalog_unit_view(r) == spec_validate_catalog(*catalog),
{
    if catalog.version != CATALOG_VERSION {
        return Err(CatalogError::UnsupportedVersion(catalog.version));
    }
    let tools = &catalog.tools;
    let mut i: usize = 0;
    assert(tools@.subrange(0, tools.len() as int) =~= tools@);
    while i < tools.len()
        invariant
            i <= tools.len(),
            catalog.version == CATALOG_VERSION,
            tools@ == catalog.tools@,
            spec_validate_tools(tools@) == spec_validate_tools(tools@.subrange(i as int, tools.len() as int)),
        decreases tools.len() - i,
    {
        let ghost rest = tools@.subrange(i as int, tools.len() as int);
        assert(rest[0] == tools@[i as int]);
        assert(rest.drop_first() =~= tools@.subrange(i + 1, tools.len() as int));
        let r = validate_tool(&tools[i].0, &tools[i].1);
        if r.is_err() {
            return r;
        }
        i = i + 1;
    }
    Ok(())
}

} // verus!
