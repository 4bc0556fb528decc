//! Structured, shell-free recipe definitions and their resolution into invocations.
use vstd::prelude::*;

use crate::catalog::Runner;
use crate::git::{lemma_views_push, views};
use crate::paths::spec_valid_name;
use crate::shortcuts::spec_relative_path;
use crate::text::{cat2, cat3, cat5, chars_of, is_ascii_alphanumeric, spec_is_ascii_alphanumeric, spec_trim, trim};

verus! {

/// The recipe format version this library reads and writes.
pub const RECIPE_VERSION: u32 = 1;

/// A stored command: a legacy project path with an optional runner, or a recipe.
#[derive(Debug, Clone, PartialEq, Eq)]
pub enum StoredInvocation {
    Legacy(LegacyInvocation),
    Recipe(RecipeDefinition),
}

#[derive(Debug, Clone, PartialEq, Eq)]
pub struct LegacyInvocation {
    pub path: String,
    pub runner: Option<Runner>,
}

#[derive(Debug, Clone, PartialEq, Eq)]
pub struct RecipeDefinition {
    pub version: u32,
    pub behavior: InvocationBehavior,
    pub program: RecipeProgram,
    pub working_directory: WorkingDirectory,
    pub arguments: Vec<RecipeArgument>,
}

#[derive(Debug, Clone, Copy, PartialEq, Eq)]
pub enum InvocationBehavior {
    Run,
    Launch,
}

#[derive(Debug, Clone, PartialEq, Eq)]
pub enum RecipeProgram {
    ProjectFile { path: String },
    Interpreter { runner: Runner },
    Executable { name: String },
}

#[derive(Debug, Clone, PartialEq, Eq)]
pub enum WorkingDirectory {
    ProjectRoot,
    TargetParent,
    ProjectRelative { path: String },
}

#[derive(Debug, Clone, PartialEq, Eq)]
pub enum RecipeArgument {
    ProjectPath { path: String },
    Literal { value: String },
    Input {
        id: String,
        label: String,
        kind: InputKind,
        required: bool,
        default: Option<String>,
        prefix: Option<String>,
    },
    Switch { id: String, label: String, value: String, default: bool },
}

#[derive(Debug, Clone, Copy, PartialEq, Eq)]
pub enum InputKind {
    Text,
    File,
    Directory,
}

/// A value supplied at run time for a declared input or switch.
#[derive(Debug, Clone, PartialEq, Eq)]
pub enum RuntimeInput {
    Text(String),
    File(String),
    Directory(String),
    Switch(bool),
}

/// Why a recipe is invalid or cannot be resolved.
#[derive(Debug, Clone, PartialEq, Eq)]
pub enum RecipeError {
    UnsupportedVersion(u32),
    MissingInvocation,
    MixedInvocation,
    RunnerWithoutLegacyPath,
    InvalidProjectPath { field: &'static str, value: String },
    InvalidExecutable(String),
    DirectIsNotInterpreter,
    InvalidParameterId(String),
    EmptyLabel(String),
    EmptyPrefix(String),
    EmptySwitchValue(String),
    DuplicateParameterId(String),
    UnknownInput(String),
    MissingRequiredInput(String),
    InputKindMismatch { id: String, expected: &'static str },
    ProjectRoot(String),
    ProjectEntry { path: String, expected: &'static str },
    TargetParentWithoutProjectFile,
    RuntimePathMustBeAbsolute(String),
    RuntimePath { id: String, expected: InputKind },
}

/// `RecipeError` with its text as character sequences.
pub enum RecipeErrorView {
    UnsupportedVersion(u32),
    MissingInvocation,
    MixedInvocation,
    RunnerWithoutLegacyPath,
    InvalidProjectPath { field: Seq<char>, value: Seq<char> },
    InvalidExecutable(Seq<char>),
    DirectIsNotInterpreter,
    InvalidParameterId(Seq<char>),
    EmptyLabel(Seq<char>),
    EmptyPrefix(Seq<char>),
    EmptySwitchValue(Seq<char>),
    DuplicateParameterId(Seq<char>),
    UnknownInput(Seq<char>),
    MissingRequiredInput(Seq<char>),
    InputKindMismatch { id: Seq<char>, expected: Seq<char> },
    ProjectRoot(Seq<char>),
    ProjectEntry { path: Seq<char>, expected: Seq<char> },
    TargetParentWithoutProjectFile,
    RuntimePathMustBeAbsolute(Seq<char>),
    RuntimePath { id: Seq<char>, expected: InputKind },
}

impl View for RecipeError {
    type V = RecipeErrorView;

    open spec fn view(&self) -> RecipeErrorView {
        match self {
            RecipeError::UnsupportedVersion(v) => RecipeErrorView::UnsupportedVersion(*v),
            RecipeError::MissingInvocation => RecipeErrorView::MissingInvocation,
            RecipeError::MixedInvocation => RecipeErrorView::MixedInvocation,
            RecipeError::RunnerWithoutLegacyPath => RecipeErrorView::RunnerWithoutLegacyPath,
            RecipeError::InvalidProjectPath { field, value } => RecipeErrorView::InvalidProjectPath {
                field: field@,
                value: value@,
            },
            RecipeError::InvalidExecutable(s) => RecipeErrorView::InvalidExecutable(s@),
            RecipeError::DirectIsNotInterpreter => RecipeErrorView::DirectIsNotInterpreter,
            RecipeError::InvalidParameterId(s) => RecipeErrorView::InvalidParameterId(s@),
            RecipeError::EmptyLabel(s) => RecipeErrorView::EmptyLabel(s@),
            RecipeError::EmptyPrefix(s) => RecipeErrorView::EmptyPrefix(s@),
            RecipeError::EmptySwitchValue(s) => RecipeErrorView::EmptySwitchValue(s@),
            RecipeError::DuplicateParameterId(s) => RecipeErrorView::DuplicateParameterId(s@),
            RecipeError::UnknownInput(s) => RecipeErrorView::UnknownInput(s@),
            RecipeError::MissingRequiredInput(s) => RecipeErrorView::MissingRequiredInput(s@),
            RecipeError::InputKindMismatch { id, expected } => RecipeErrorView::InputKindMismatch {
                id: id@,
                expected: expected@,
            },
            RecipeError::ProjectRoot(s) => RecipeErrorView::ProjectRoot(s@),
            RecipeError::ProjectEntry { path, expected } => RecipeErrorView::ProjectEntry {
                path: path@,
                expected: expected@,
            },
            RecipeError::TargetParentWithoutProjectFile =>
                RecipeErrorView::TargetParentWithoutProjectFile,
            RecipeError::RuntimePathMustBeAbsolute(s) => RecipeErrorView::RuntimePathMustBeAbsolute(
                s@,
            ),
            RecipeError::RuntimePath { id, expected } => RecipeErrorView::RuntimePath {
                id: id@,
                expected: *expected,
            },
        }
    }
}

/// A unit result with its error viewed.
pub open spec fn unit_view(r: Result<(), RecipeError>) -> Result<(), RecipeErrorView> {
    match r {
        Ok(()) => Ok(()),
        Err(e) => Err(e@),
    }
}

impl InputKind {
    /// The noun phrase for the kind, as error messages use it.
    pub open spec fn spec_description(self) -> Seq<char> {
        match self {
            InputKind::Text => "text"@,
            InputKind::File => "a file"@,
            InputKind::Directory => "a directory"@,
        }
    }

    pub fn description(self) -> (r: &'static str)
        ensures
            r@ == self.spec_description(),
    {
        match self {
            InputKind::Text => "text",
            InputKind::File => "a file",
            InputKind::Directory => "a directory",
        }
    }
}

/// A project path field must be a portable path inside the project.
pub open spec fn spec_validate_project_path(field: Seq<char>, value: Seq<char>) -> Result<
    (),
    RecipeErrorView,
> {
    if spec_relative_path(value) is Ok {
        Ok(())
    } else {
        Err(RecipeErrorView::InvalidProjectPath { field, value })
    }
}

/// An executable searched on PATH: a portable name beginning with a letter or digit.
pub open spec fn spec_validate_executable(name: Seq<char>) -> Result<(), RecipeErrorView> {
    if name.len() > 0 && spec_is_ascii_alphanumeric(name[0]) && spec_valid_name(name) {
        Ok(())
    } else {
        Err(RecipeErrorView::InvalidExecutable(name))
    }
}

/// A parameter needs a portable id, a label that is not blank, and an id not yet used.
pub open spec fn spec_validate_parameter(id: Seq<char>, label: Seq<char>, ids: Set<Seq<char>>) -> Result<
    Set<Seq<char>>,
    RecipeErrorView,
> {
    if !spec_valid_name(id) {
        Err(RecipeErrorView::InvalidParameterId(id))
    } else if spec_trim(label).len() == 0 {
        Err(RecipeErrorView::EmptyLabel(id))
    } else if ids.contains(id) {
        Err(RecipeErrorView::DuplicateParameterId(id))
    } else {
        Ok(ids.insert(id))
    }
}

/// The arguments in order, with the parameter ids already declared.
pub open spec fn spec_validate_arguments(args: Seq<RecipeArgument>, ids: Set<Seq<char>>) -> Result<
    (),
    RecipeErrorView,
>
    decreases args.len(),
{
    if args.len() == 0 {
        Ok(())
    } else {
        match args[0] {
            RecipeArgument::ProjectPath { path } => match spec_validate_project_path(
                "argument"@,
                path@,
            ) {
                Ok(()) => spec_validate_arguments(args.drop_first(), ids),
                Err(e) => Err(e),
            },
            RecipeArgument::Literal { .. } => spec_validate_arguments(args.drop_first(), ids),
            RecipeArgument::Input { id, label, prefix, .. } => match spec_validate_parameter(
                id@,
                label@,
                ids,
            ) {
                Ok(next) => if prefix matches Some(p) && p@.len() == 0 {
                    Err(RecipeErrorView::EmptyPrefix(id@))
                } else {
                    spec_validate_arguments(args.drop_first(), next)
                },
                Err(e) => Err(e),
            },
            RecipeArgument::Switch { id, label, value, .. } => match spec_validate_parameter(
                id@,
                label@,
                ids,
            ) {
                Ok(next) => if value@.len() == 0 {
                    Err(RecipeErrorView::EmptySwitchValue(id@))
                } else {
                    spec_validate_arguments(args.drop_first(), next)
                },
                Err(e) => Err(e),
            },
        }
    }
}

/// The program and working directory, before the arguments.
pub open spec fn spec_validate_head(recipe: RecipeDefinition) -> Result<(), RecipeErrorView> {
    if recipe.version != RECIPE_VERSION {
        Err(RecipeErrorView::UnsupportedVersion(recipe.version))
    } else {
        let program = match recipe.program {
            RecipeProgram::ProjectFile { path } => spec_validate_project_path("program"@, path@),
            RecipeProgram::Interpreter { runner } => if runner is Direct {
                Err(RecipeErrorView::DirectIsNotInterpreter)
            } else {
                Ok(())
            },
            RecipeProgram::Executable { name } => spec_validate_executable(name@),
        };
        if program is Err {
            program
        } else {
            let cwd = match recipe.working_directory {
                WorkingDirectory::ProjectRelative { path } => spec_validate_project_path(
                    "working-directory"@,
                    path@,
                ),
                _ => Ok(()),
            };
            if cwd is Err {
                cwd
            } else if recipe.working_directory is TargetParent && !(recipe.program is ProjectFile) {
                Err(RecipeErrorView::TargetParentWithoutProjectFile)
            } else {
                Ok(())
            }
        }
    }
}

/// Whether a recipe definition is valid, and its first problem otherwise.
pub open spec fn spec_validate(recipe: RecipeDefinition) -> Result<(), RecipeErrorView> {
    match spec_validate_head(recipe) {
        Ok(()) => spec_validate_arguments(recipe.arguments@, Set::empty()),
        Err(e) => Err(e),
    }
}

fn validate_project_path(field: &'static str, value: &String) -> (r: Result<(), RecipeError>)
    ensures
        unit_view(r) == spec_validate_project_path(field@, value@),
{
    match crate::shortcuts::relative_path(value.as_str()) {
        Ok(_) => Ok(()),
        Err(_) => Err(RecipeError::InvalidProjectPath { field, value: value.clone() }),
    }
}

fn validate_executable(name: &String) -> (r: Result<(), RecipeError>)
    ensures
        unit_view(r) == spec_validate_executable(name@),
{
    let n = chars_of(name.as_str());
    if n.len() > 0 && is_ascii_alphanumeric(n[0]) && crate::paths::validate_name(
        name.as_str(),
    ).is_ok() {
        Ok(())
    } else {
        Err(RecipeError::InvalidExecutable(name.clone()))
    }
}

fn contains_id(ids: &Vec<String>, id: &String) -> (r: bool)
    ensures
        r == views(ids@).contains(id@),
{
    let target = chars_of(id.as_str());
    let mut i: usize = 0;
    while i < ids.len()
        invariant
            i <= ids.len(),
            target@ == id@,
            forall|j: int| 0 <= j < i ==> ids@[j]@ != id@,
        decreases ids.len() - i,
    {
        if crate::text::eq(&chars_of(ids[i].as_str()), &target) {
            assert(views(ids@)[i as int] == id@);
            return true;
        }
        i = i + 1;
    }
    proof {
        if views(ids@).contains(id@) {
            let k = choose|k: int| 0 <= k < views(ids@).len() && views(ids@)[k] == id@;
            assert(ids@[k]@ == id@);
        }
    }
    false
}

proof fn lemma_push_to_set(s: Seq<Seq<char>>, x: Seq<char>)
    ensures
        s.push(x).to_set() == s.to_set().insert(x),
{
    assert forall|y: Seq<char>| s.push(x).to_set().contains(y) == s.to_set().insert(x).contains(
        y,
    ) by {
        if s.push(x).contains(y) {
            let k = choose|k: int| 0 <= k < s.push(x).len() && s.push(x)[k] == y;
            if k < s.len() {
                assert(s[k] == y);
            }
        }
        if s.contains(y) {
            let k = choose|k: int| 0 <= k < s.len() && s[k] == y;
            assert(s.push(x)[k] == y);
        }
        if y == x {
            assert(s.push(x)[s.len() as int] == x);
        }
    }
    assert(s.push(x).to_set() =~= s.to_set().insert(x));
}

fn validate_parameter(id: &String, label: &String, ids: &mut Vec<String>) -> (r: Result<
    (),
    RecipeError,
>)
    ensures
        spec_validate_parameter(id@, label@, views(old(ids)@).to_set()) matches Ok(next) ==> (r
            is Ok && views(final(ids)@).to_set() == next),
        spec_validate_parameter(id@, label@, views(old(ids)@).to_set()) matches Err(e) ==> (r
            matches Err(x) && x@ == e),
{
    if crate::paths::validate_name(id.as_str()).is_err() {
        return Err(RecipeError::InvalidParameterId(id.clone()));
    }
    if trim(&chars_of(label.as_str())).len() == 0 {
        return Err(RecipeError::EmptyLabel(id.clone()));
    }
    if contains_id(ids, id) {
        assert(views(ids@).to_set().contains(id@));
        return Err(RecipeError::DuplicateParameterId(id.clone()));
    }
    proof {
        if views(ids@).to_set().contains(id@) {
            assert(views(ids@).contains(id@));
        }
        lemma_views_push(ids@, *id);
        lemma_push_to_set(views(ids@), id@);
    }
    ids.push(id.clone());
    Ok(())
}

proof fn lemma_validate_arguments_step(args: Seq<RecipeArgument>, i: int, ids: Set<Seq<char>>)
    requires
        0 <= i < args.len(),
    ensures
        spec_validate_arguments(args.subrange(i, args.len() as int), ids) == (match args[i] {
            RecipeArgument::ProjectPath { path } => match spec_validate_project_path(
                "argument"@,
                path@,
            ) {
                Ok(()) => spec_validate_arguments(args.subrange(i + 1, args.len() as int), ids),
                Err(e) => Err(e),
            },
            RecipeArgument::Literal { .. } => spec_validate_arguments(
                args.subrange(i + 1, args.len() as int),
                ids,
            ),
            RecipeArgument::Input { id, label, prefix, .. } => match spec_validate_parameter(
                id@,
                label@,
                ids,
            ) {
                Ok(next) => if prefix matches Some(p) && p@.len() == 0 {
                    Err(RecipeErrorView::EmptyPrefix(id@))
                } else {
                    spec_validate_arguments(args.subrange(i + 1, args.len() as int), next)
                },
                Err(e) => Err(e),
            },
            RecipeArgument::Switch { id, label, value, .. } => match spec_validate_parameter(
                id@,
                label@,
                ids,
            ) {
                Ok(next) => if value@.len() == 0 {
                    Err(RecipeErrorView::EmptySwitchValue(id@))
                } else {
                    spec_validate_arguments(args.subrange(i + 1, args.len() as int), next)
                },
                Err(e) => Err(e),
            },
        }),
{
    let rest = args.subrange(i, args.len() as int);
    assert(rest[0] == args[i]);
    assert(rest.drop_first() =~= args.subrange(i + 1, args.len() as int));
}

impl RecipeDefinition {
    /// Check the definition: supported version, a valid program and working
    /// directory, and arguments with portable paths and unique, labelled parameters.
    pub fn validate(&self) -> (r: Result<(), RecipeError>)
        ensures
            unit_view(r) == spec_validate(*self),
    {
        if self.version != RECIPE_VERSION {
            return Err(RecipeError::UnsupportedVersion(self.version));
        }
        match &self.program {
            RecipeProgram::ProjectFile { path } => validate_project_path("program", path)?,
            RecipeProgram::Interpreter { runner } => {
                if let Runner::Direct = runner {
                    return Err(RecipeError::DirectIsNotInterpreter);
                }
            },
            RecipeProgram::Executable { name } => validate_executable(name)?,
        }
        if let WorkingDirectory::ProjectRelative { path } = &self.working_directory {
            validate_project_path("working-directory", path)?;
        }
        let target_parent = match &self.working_directory {
            WorkingDirectory::TargetParent => true,
            _ => false,
        };
        let project_file = match &self.program {
            RecipeProgram::ProjectFile { .. } => true,
            _ => false,
        };
        if target_parent && !project_file {
            return Err(RecipeError::TargetParentWithoutProjectFile);
        }
        assert(spec_validate_head(*self) == Ok::<(), RecipeErrorView>(()));
        let mut ids: Vec<String> = Vec::new();
        assert(views(ids@).to_set() =~= Set::<Seq<char>>::empty());
        assert(self.arguments@.subrange(0, self.arguments.len() as int) =~= self.arguments@);
        let mut i: usize = 0;
        while i < self.arguments.len()
            invariant
                i <= self.arguments.len(),
                spec_validate_head(*self) == Ok::<(), RecipeErrorView>(()),
                self.arguments@.subrange(0, self.arguments.len() as int) =~= self.arguments@,
                spec_validate(*self) == spec_validate_arguments(
                    self.arguments@.subrange(i as int, self.arguments.len() as int),
                    views(ids@).to_set(),
                ),
            decreases self.arguments.len() - i,
        {
            proof {
                lemma_validate_arguments_step(self.arguments@, i as int, views(ids@).to_set());
            }
            match &self.arguments[i] {
                RecipeArgument::ProjectPath { path } => validate_project_path("argument", path)?,
                RecipeArgument::Literal { .. } => {},
                RecipeArgument::Input { id, label, prefix, .. } => {
                    validate_parameter(id, label, &mut ids)?;
                    if let Some(p) = prefix {
                        if p.as_str().is_empty() {
                            return Err(RecipeError::EmptyPrefix(id.clone()));
                        }
                    }
                },
                RecipeArgument::Switch { id, label, value, .. } => {
                    validate_parameter(id, label, &mut ids)?;
                    if value.as_str().is_empty() {
                        return Err(RecipeError::EmptySwitchValue(id.clone()));
                    }
                },
            }
            i = i + 1;
        }
        assert(self.arguments@.subrange(self.arguments.len() as int, self.arguments.len() as int)
            =~= seq![]);
        Ok(())
    }
}

/// The stored command for a legacy path, or a recipe, or neither, or both.
pub open spec fn spec_from_parts(
    has_path: bool,
    has_runner: bool,
    has_recipe: bool,
) -> Result<(), RecipeErrorView> {
    if has_path && !has_recipe {
        Ok(())
    } else if !has_path && !has_runner && has_recipe {
        Ok(())
    } else if has_recipe {
        Err(RecipeErrorView::MixedInvocation)
    } else if has_runner {
        Err(RecipeErrorView::RunnerWithoutLegacyPath)
    } else {
        Err(RecipeErrorView::MissingInvocation)
    }
}

impl StoredInvocation {
    /// A legacy invocation of a project path.
    pub fn legacy(path: String, runner: Option<Runner>) -> (r: Self)
        ensures
            r == StoredInvocation::Legacy(LegacyInvocation { path, runner }),
    {
        StoredInvocation::Legacy(LegacyInvocation { path, runner })
    }

    /// A legacy path must be portable; a recipe must be valid.
    pub fn validate(&self) -> (r: Result<(), RecipeError>)
        ensures
            unit_view(r) == (match *self {
                StoredInvocation::Legacy(legacy) => spec_validate_project_path(
                    "legacy"@,
                    legacy.path@,
                ),
                StoredInvocation::Recipe(recipe) => spec_validate(recipe),
            }),
    {
        match self {
            StoredInvocation::Legacy(legacy) => validate_project_path("legacy", &legacy.path),
            StoredInvocation::Recipe(recipe) => recipe.validate(),
        }
    }

    pub fn as_legacy(&self) -> (r: Option<&LegacyInvocation>)
        ensures
            r == (match self {
                StoredInvocation::Legacy(legacy) => Some(legacy),
                StoredInvocation::Recipe(_) => None::<&LegacyInvocation>,
            }),
    {
        match self {
            StoredInvocation::Legacy(legacy) => Some(legacy),
            StoredInvocation::Recipe(_) => None,
        }
    }

    pub fn as_recipe(&self) -> (r: Option<&RecipeDefinition>)
        ensures
            r == (match self {
                StoredInvocation::Legacy(_) => None::<&RecipeDefinition>,
                StoredInvocation::Recipe(recipe) => Some(recipe),
            }),
    {
        match self {
            StoredInvocation::Legacy(_) => None,
            StoredInvocation::Recipe(recipe) => Some(recipe),
        }
    }

    /// Build the stored command from the fields of a stored record: a legacy path
    /// (with an optional runner) or a recipe, exactly one of the two.
    pub fn from_parts(
        path: Option<String>,
        runner: Option<Runner>,
        recipe: Option<RecipeDefinition>,
    ) -> (r: Result<Self, RecipeError>)
        ensures
            (match r {
                Ok(_) => Ok(()),
                Err(e) => Err(e@),
            }) == spec_from_parts(path is Some, runner is Some, recipe is Some),
            r matches Ok(StoredInvocation::Legacy(l)) ==> Some(l.path) == path && l.runner == runner,
            r matches Ok(StoredInvocation::Recipe(d)) ==> Some(d) == recipe,
    {
        match (path, runner, recipe) {
            (Some(path), runner, None) => Ok(Self::legacy(path, runner)),
            (None, None, Some(recipe)) => Ok(StoredInvocation::Recipe(recipe)),
            (Some(_), _, Some(_)) => Err(RecipeError::MixedInvocation),
            (None, Some(_), None) => Err(RecipeError::RunnerWithoutLegacyPath),
            (None, Some(_), Some(_)) => Err(RecipeError::MixedInvocation),
            (None, None, None) => Err(RecipeError::MissingInvocation),
        }
    }

    /// The fields of a stored record: the legacy path and runner, or the recipe.
    pub fn parts(self) -> (r: (Option<String>, Option<Runner>, Option<RecipeDefinition>))
        ensures
            match self {
                StoredInvocation::Legacy(l) => r.0 == Some(l.path) && r.1 == l.runner && r.2 is None,
                StoredInvocation::Recipe(d) => r.0 is None && r.1 is None && r.2 == Some(d),
            },
    {
        match self {
            StoredInvocation::Legacy(legacy) => (Some(legacy.path), legacy.runner, None),
            StoredInvocation::Recipe(recipe) => (None, None, Some(recipe)),
        }
    }
}

/// Code-point order on character sequences, which is `String`'s order.
pub open spec fn lex_lt(a: Seq<char>, b: Seq<char>) -> bool
    decreases a.len(),
{
    if a.len() == 0 {
        b.len() > 0
    } else if b.len() == 0 {
        false
    } else if a[0] == b[0] {
        lex_lt(a.drop_first(), b.drop_first())
    } else {
        (a[0] as u32) < (b[0] as u32)
    }
}

pub proof fn lemma_lex_lt_irreflexive(a: Seq<char>)
    ensures
        !lex_lt(a, a),
    decreases a.len(),
{
    if a.len() > 0 {
        lemma_lex_lt_irreflexive(a.drop_first());
    }
}

pub proof fn lemma_lex_lt_transitive(a: Seq<char>, b: Seq<char>, c: Seq<char>)
    requires
        lex_lt(a, b),
        lex_lt(b, c),
    ensures
        lex_lt(a, c),
    decreases a.len(),
{
    if a.len() > 0 && b.len() > 0 && c.len() > 0 {
        if a[0] == b[0] && b[0] == c[0] {
            lemma_lex_lt_transitive(a.drop_first(), b.drop_first(), c.drop_first());
        }
    }
}

/// Two different texts are ordered one way or the other.
pub proof fn lemma_lex_total(a: Seq<char>, b: Seq<char>)
    ensures
        a == b || lex_lt(a, b) || lex_lt(b, a),
    decreases a.len(),
{
    if a.len() > 0 && b.len() > 0 {
        if a[0] == b[0] {
            lemma_lex_total(a.drop_first(), b.drop_first());
            if a.drop_first() == b.drop_first() {
                assert(a =~= seq![a[0]] + a.drop_first());
                assert(b =~= seq![b[0]] + b.drop_first());
            }
        } else {
            lemma_code_injective(a[0], b[0]);
        }
    } else if a.len() == 0 && b.len() == 0 {
        assert(a =~= b);
    }
}

proof fn lemma_lex_common_prefix(a: Seq<char>, b: Seq<char>, i: int)
    requires
        0 <= i <= a.len(),
        i <= b.len(),
        forall|j: int| 0 <= j < i ==> a[j] == b[j],
    ensures
        lex_lt(a, b) == lex_lt(a.subrange(i, a.len() as int), b.subrange(i, b.len() as int)),
    decreases i,
{
    if i > 0 {
        assert(a[0] == b[0]);
        lemma_lex_common_prefix(a.drop_first(), b.drop_first(), i - 1);
        assert(a.drop_first().subrange(i - 1, a.len() - 1) =~= a.subrange(i, a.len() as int));
        assert(b.drop_first().subrange(i - 1, b.len() - 1) =~= b.subrange(i, b.len() as int));
    } else {
        assert(a.subrange(0, a.len() as int) =~= a);
        assert(b.subrange(0, b.len() as int) =~= b);
    }
}

proof fn lemma_code_injective(c1: char, c2: char)
    ensures
        (c1 as u32) == (c2 as u32) ==> c1 == c2,
{
    vstd::utf8::char_u32_cast(c1, c1 as u32);
    vstd::utf8::char_u32_cast(c2, c2 as u32);
}

/// -1, 0 or 1 as `a` sorts before, equal to, or after `b`.
pub fn compare_text(a: &Vec<char>, b: &Vec<char>) -> (r: i8)
    ensures
        r == -1 <==> lex_lt(a@, b@),
        r == 0 <==> a@ == b@,
        r == 1 <==> lex_lt(b@, a@),
        r == -1 || r == 0 || r == 1,
{
    proof {
        lemma_lex_lt_irreflexive(a@);
    }
    let mut i: usize = 0;
    while i < a.len() && i < b.len()
        invariant
            i <= a.len(),
            i <= b.len(),
            forall|j: int| 0 <= j < i ==> a@[j] == b@[j],
        decreases a.len() - i,
    {
        if a[i] != b[i] {
            proof {
                lemma_lex_common_prefix(a@, b@, i as int);
                lemma_lex_common_prefix(b@, a@, i as int);
                let sa = a@.subrange(i as int, a.len() as int);
                let sb = b@.subrange(i as int, b.len() as int);
                assert(sa[0] == a@[i as int]);
                assert(sb[0] == b@[i as int]);
                if a@ == b@ {
                    assert(a@[i as int] == b@[i as int]);
                }
            }
            proof {
                lemma_code_injective(a@[i as int], b@[i as int]);
            }
            if (a[i] as u32) < (b[i] as u32) {
                return -1;
            } else {
                return 1;
            }
        }
        i = i + 1;
    }
    proof {
        lemma_lex_common_prefix(a@, b@, i as int);
        lemma_lex_common_prefix(b@, a@, i as int);
    }
    if a.len() == b.len() {
        assert(a@ =~= b@);
        0
    } else if a.len() < b.len() {
        proof {
            if a@ == b@ {
                assert(a@.len() == b@.len());
            }
        }
        -1
    } else {
        proof {
            if a@ == b@ {
                assert(a@.len() == b@.len());
            }
        }
        1
    }
}

/// Runtime values keyed by parameter id, in ascending id order with no id twice.
#[derive(Debug)]
pub struct RuntimeInputs {
    entries: Vec<(String, RuntimeInput)>,
}

pub open spec fn entry_keys(entries: Seq<(String, RuntimeInput)>) -> Seq<Seq<char>> {
    entries.map_values(|e: (String, RuntimeInput)| e.0@)
}

pub open spec fn strictly_ascending(keys: Seq<Seq<char>>) -> bool {
    forall|i: int, j: int| 0 <= i < j < keys.len() ==> lex_lt(#[trigger] keys[i], #[trigger] keys[j])
}

/// The value under `key`, if any.
pub open spec fn spec_lookup_input(entries: Seq<(String, RuntimeInput)>, key: Seq<char>) -> Option<
    RuntimeInput,
>
    decreases entries.len(),
{
    if entries.len() == 0 {
        None
    } else if entries[0].0@ == key {
        Some(entries[0].1)
    } else {
        spec_lookup_input(entries.drop_first(), key)
    }
}

proof fn lemma_lookup_first(entries: Seq<(String, RuntimeInput)>, key: Seq<char>, at: int)
    requires
        0 <= at < entries.len(),
        entries[at].0@ == key,
        forall|j: int| 0 <= j < at ==> entries[j].0@ != key,
    ensures
        spec_lookup_input(entries, key) == Some(entries[at].1),
    decreases at,
{
    if at > 0 {
        assert(entries[0].0@ != key);
        lemma_lookup_first(entries.drop_first(), key, at - 1);
    }
}

proof fn lemma_lookup_absent(entries: Seq<(String, RuntimeInput)>, key: Seq<char>)
    requires
        forall|j: int| 0 <= j < entries.len() ==> entries[j].0@ != key,
    ensures
        spec_lookup_input(entries, key) is None,
    decreases entries.len(),
{
    if entries.len() > 0 {
        assert(entries[0].0@ != key);
        lemma_lookup_absent(entries.drop_first(), key);
    }
}

proof fn lemma_unique_key(entries: Seq<(String, RuntimeInput)>, i: int, j: int)
    requires
        strictly_ascending(entry_keys(entries)),
        0 <= i < entries.len(),
        0 <= j < entries.len(),
        entries[i].0@ == entries[j].0@,
    ensures
        i == j,
{
    lemma_lex_lt_irreflexive(entries[i].0@);
    if i < j {
        assert(lex_lt(entry_keys(entries)[i], entry_keys(entries)[j]));
    } else if j < i {
        assert(lex_lt(entry_keys(entries)[j], entry_keys(entries)[i]));
    }
}

proof fn lemma_lookup_at(entries: Seq<(String, RuntimeInput)>, at: int)
    requires
        strictly_ascending(entry_keys(entries)),
        0 <= at < entries.len(),
    ensures
        spec_lookup_input(entries, entries[at].0@) == Some(entries[at].1),
{
    assert forall|j: int| 0 <= j < at implies entries[j].0@ != entries[at].0@ by {
        if entries[j].0@ == entries[at].0@ {
            lemma_unique_key(entries, j, at);
        }
    }
    lemma_lookup_first(entries, entries[at].0@, at);
}

/// Looking a key up in sorted entries: the value where it occurs, or nothing.
proof fn lemma_lookup_sorted(entries: Seq<(String, RuntimeInput)>, key: Seq<char>)
    requires
        strictly_ascending(entry_keys(entries)),
    ensures
        (forall|j: int| 0 <= j < entries.len() ==> entries[j].0@ != key) ==> spec_lookup_input(
            entries,
            key,
        ) is None,
        forall|j: int|
            0 <= j < entries.len() && entries[j].0@ == key ==> spec_lookup_input(entries, key)
                == Some(#[trigger] entries[j].1),
{
    if forall|j: int| 0 <= j < entries.len() ==> entries[j].0@ != key {
        lemma_lookup_absent(entries, key);
    }
    assert forall|j: int| 0 <= j < entries.len() && entries[j].0@ == key implies spec_lookup_input(
        entries,
        key,
    ) == Some(#[trigger] entries[j].1) by {
        lemma_lookup_at(entries, j);
    }
}

impl RuntimeInputs {
    #[verifier::type_invariant]
    closed spec fn sorted(self) -> bool {
        strictly_ascending(entry_keys(self.entries@))
    }

    /// The entries in ascending id order.
    pub closed spec fn spec_entries(self) -> Seq<(String, RuntimeInput)> {
        self.entries@
    }

    /// No runtime values.
    pub fn new() -> (r: Self)
        ensures
            r.spec_entries().len() == 0,
    {
        let entries: Vec<(String, RuntimeInput)> = Vec::new();
        assert(entry_keys(entries@) =~= seq![]);
        RuntimeInputs { entries }
    }

    /// The number of ids with a value.
    pub fn len(&self) -> (r: usize)
        ensures
            r == self.spec_entries().len(),
            strictly_ascending(entry_keys(self.spec_entries())),
    {
        proof {
            use_type_invariant(self);
        }
        self.entries.len()
    }

    /// The id and value at a position in ascending id order.
    pub fn entry(&self, index: usize) -> (r: (&String, &RuntimeInput))
        requires
            index < self.spec_entries().len(),
        ensures
            *r.0 == self.spec_entries()[index as int].0,
            *r.1 == self.spec_entries()[index as int].1,
    {
        let e = &self.entries[index];
        (&e.0, &e.1)
    }

    /// The value supplied for `key`.
    pub fn get(&self, key: &str) -> (r: Option<&RuntimeInput>)
        ensures
            match r {
                Some(v) => spec_lookup_input(self.spec_entries(), key@) == Some(*v),
                None => spec_lookup_input(self.spec_entries(), key@) is None,
            },
    {
        proof {
            use_type_invariant(self);
        }
        let k = chars_of(key);
        let mut i: usize = 0;
        while i < self.entries.len()
            invariant
                i <= self.entries.len(),
                k@ == key@,
                strictly_ascending(entry_keys(self.entries@)),
                forall|j: int| 0 <= j < i ==> self.entries@[j].0@ != key@,
            decreases self.entries.len() - i,
        {
            if crate::text::eq(&chars_of(self.entries[i].0.as_str()), &k) {
                proof {
                    lemma_lookup_at(self.entries@, i as int);
                }
                return Some(&self.entries[i].1);
            }
            i = i + 1;
        }
        proof {
            lemma_lookup_absent(self.entries@, key@);
        }
        None
    }

    /// Set the value for `key`, returning the value it replaces.
    pub fn insert(&mut self, key: String, value: RuntimeInput) -> (r: Option<RuntimeInput>)
        ensures
            spec_lookup_input(final(self).spec_entries(), key@) == Some(value),
            forall|k: Seq<char>| k != key@ ==> spec_lookup_input(final(self).spec_entries(), k)
                == spec_lookup_input(old(self).spec_entries(), k),
            r == spec_lookup_input(old(self).spec_entries(), key@),
    {
        proof {
            use_type_invariant(&*self);
        }
        let k = chars_of(key.as_str());
        let mut pos: usize = 0;
        while pos < self.entries.len() && compare_text(&chars_of(self.entries[pos].0.as_str()), &k) < 0
            invariant
                pos <= self.entries.len(),
                k@ == key@,
                forall|j: int| 0 <= j < pos ==> lex_lt(#[trigger] self.entries@[j].0@, key@),
            decreases self.entries.len() - pos,
        {
            pos = pos + 1;
        }
        let found = pos < self.entries.len() && compare_text(&chars_of(self.entries[pos].0.as_str()), &k) == 0;
        let ghost old_entries = self.entries@;
        let mut entries: Vec<(String, RuntimeInput)> = Vec::new();
        std::mem::swap(&mut entries, &mut self.entries);
        assert(entries@ == old_entries);
        if found {
            let (old_key, previous) = entries.remove(pos);
            entries.insert(pos, (old_key, value));
            proof {
                assert(old_entries[pos as int].0@ == key@);
                assert(entry_keys(entries@) =~= entry_keys(old_entries));
                lemma_lookup_at(old_entries, pos as int);
                lemma_lookup_at(entries@, pos as int);
                assert forall|kk: Seq<char>| kk != key@ implies spec_lookup_input(entries@, kk)
                    == spec_lookup_input(old_entries, kk) by {
                    lemma_lookup_sorted(old_entries, kk);
                    lemma_lookup_sorted(entries@, kk);
                    if exists|b: int| 0 <= b < old_entries.len() && old_entries[b].0@ == kk {
                        let b = choose|b: int| 0 <= b < old_entries.len() && old_entries[b].0@ == kk;
                        assert(entries@[b] == old_entries[b]);
                        assert(spec_lookup_input(old_entries, kk) == Some(old_entries[b].1));
                        assert(spec_lookup_input(entries@, kk) == Some(entries@[b].1));
                    } else {
                        assert forall|j: int| 0 <= j < entries@.len() implies entries@[j].0@ != kk by {
                            assert(entries@[j].0@ == entry_keys(entries@)[j]);
                            assert(entry_keys(old_entries)[j] == old_entries[j].0@);
                        }
                        assert(spec_lookup_input(old_entries, kk) is None);
                        assert(spec_lookup_input(entries@, kk) is None);
                    }
                }
            }
            self.entries = entries;
            return Some(previous);
        }
        proof {
            if pos < old_entries.len() {
                assert(lex_lt(key@, old_entries[pos as int].0@));
            }
            assert forall|j: int| 0 <= j < old_entries.len() implies old_entries[j].0@ != key@ by {
                lemma_lex_lt_irreflexive(key@);
                if j >= pos {
                    if j > pos {
                        assert(lex_lt(entry_keys(old_entries)[pos as int], entry_keys(old_entries)[j]));
                        lemma_lex_lt_transitive(key@, old_entries[pos as int].0@, old_entries[j].0@);
                    }
                }
            }
            lemma_lookup_absent(old_entries, key@);
        }
        let ghost key_view = key@;
        entries.insert(pos, (key, value));
        proof {
            let new_entries = entries@;
            assert(new_entries[pos as int].0@ == key_view);
            assert forall|i: int, j: int| 0 <= i < j < new_entries.len() implies lex_lt(
                #[trigger] entry_keys(new_entries)[i],
                #[trigger] entry_keys(new_entries)[j],
            ) by {
                let ki = entry_keys(new_entries)[i];
                let kj = entry_keys(new_entries)[j];
                if j < pos {
                    assert(ki == entry_keys(old_entries)[i]);
                    assert(kj == entry_keys(old_entries)[j]);
                } else if j == pos {
                    assert(ki == old_entries[i].0@);
                } else if i == pos {
                    assert(kj == old_entries[j - 1].0@);
                    if j - 1 > pos {
                        assert(lex_lt(entry_keys(old_entries)[pos as int], entry_keys(old_entries)[j - 1]));
                        lemma_lex_lt_transitive(key_view, old_entries[pos as int].0@, kj);
                    }
                } else if i < pos {
                    assert(ki == old_entries[i].0@);
                    assert(kj == entry_keys(old_entries)[j - 1]);
                    assert(lex_lt(ki, key_view));
                    if j - 1 > pos {
                        assert(lex_lt(entry_keys(old_entries)[pos as int], entry_keys(old_entries)[j - 1]));
                        lemma_lex_lt_transitive(key_view, old_entries[pos as int].0@, kj);
                    }
                    lemma_lex_lt_transitive(ki, key_view, kj);
                } else {
                    assert(ki == entry_keys(old_entries)[i - 1]);
                    assert(kj == entry_keys(old_entries)[j - 1]);
                }
            }
            lemma_lookup_at(new_entries, pos as int);
            assert forall|kk: Seq<char>| kk != key_view implies spec_lookup_input(new_entries, kk)
                == spec_lookup_input(old_entries, kk) by {
                lemma_lookup_sorted(old_entries, kk);
                lemma_lookup_sorted(new_entries, kk);
                if exists|b: int| 0 <= b < old_entries.len() && old_entries[b].0@ == kk {
                    let b = choose|b: int| 0 <= b < old_entries.len() && old_entries[b].0@ == kk;
                    let nb = if b < pos { b } else { b + 1 };
                    assert(new_entries[nb] == old_entries[b]);
                    assert(spec_lookup_input(old_entries, kk) == Some(old_entries[b].1));
                    assert(spec_lookup_input(new_entries, kk) == Some(new_entries[nb].1));
                } else {
                    assert forall|j: int| 0 <= j < new_entries.len() implies new_entries[j].0@ != kk by {
                        if j < pos {
                            assert(new_entries[j] == old_entries[j]);
                        } else if j > pos {
                            assert(new_entries[j] == old_entries[j - 1]);
                        }
                    }
                    assert(spec_lookup_input(old_entries, kk) is None);
                    assert(spec_lookup_input(new_entries, kk) is None);
                }
            }
        }
        self.entries = entries;
        None
    }
}

/// What the file system reports for one path: where it resolves to, and its kind.
#[derive(Debug, Clone, PartialEq, Eq)]
pub struct PathFacts {
    pub canonical: String,
    pub is_file: bool,
    pub is_dir: bool,
}

/// The file-system facts that resolution reads, gathered by the caller: the
/// canonical project root (or why it could not be resolved), the resolution of
/// each project path by its portable text, and of each runtime path by its text.
/// A path that is missing, or listed with `None`, does not resolve.
#[derive(Debug)]
pub struct ProjectSnapshot {
    pub root: Result<PathFacts, String>,
    pub entries: Vec<(String, Option<PathFacts>)>,
    pub runtime: Vec<(String, Option<PathFacts>)>,
    pub platform: crate::catalog::Platform,
}

/// What a project path must be.
#[derive(Debug, Clone, Copy, PartialEq, Eq)]
pub enum EntryKind {
    Any,
    File,
    Directory,
}

impl EntryKind {
    pub open spec fn spec_description(self) -> Seq<char> {
        match self {
            EntryKind::Any => "a file or directory"@,
            EntryKind::File => "a file"@,
            EntryKind::Directory => "a directory"@,
        }
    }

    pub fn description(self) -> (r: &'static str)
        ensures
            r@ == self.spec_description(),
    {
        match self {
            EntryKind::Any => "a file or directory",
            EntryKind::File => "a file",
            EntryKind::Directory => "a directory",
        }
    }
}

/// A direct project file, or executable names searched on PATH in order.
#[derive(Debug, Clone, PartialEq, Eq)]
pub enum ResolvedProgram {
    ProjectFile(String),
    Interpreter { runner: Runner, candidates: Vec<String> },
    SearchPath { candidates: Vec<String> },
}

pub enum ResolvedProgramView {
    ProjectFile(Seq<char>),
    Interpreter { runner: Runner, candidates: Seq<Seq<char>> },
    SearchPath { candidates: Seq<Seq<char>> },
}

impl View for ResolvedProgram {
    type V = ResolvedProgramView;

    open spec fn view(&self) -> ResolvedProgramView {
        match self {
            ResolvedProgram::ProjectFile(p) => ResolvedProgramView::ProjectFile(p@),
            ResolvedProgram::Interpreter { runner, candidates } => ResolvedProgramView::Interpreter {
                runner: *runner,
                candidates: views(candidates@),
            },
            ResolvedProgram::SearchPath { candidates } => ResolvedProgramView::SearchPath {
                candidates: views(candidates@),
            },
        }
    }
}

/// A fully resolved, shell-free invocation.
#[derive(Debug, Clone, PartialEq, Eq)]
pub struct ResolvedInvocation {
    pub behavior: InvocationBehavior,
    pub program: ResolvedProgram,
    pub argv: Vec<String>,
    pub cwd: String,
}

pub struct ResolvedInvocationView {
    pub behavior: InvocationBehavior,
    pub program: ResolvedProgramView,
    pub argv: Seq<Seq<char>>,
    pub cwd: Seq<char>,
}

impl View for ResolvedInvocation {
    type V = ResolvedInvocationView;

    open spec fn view(&self) -> ResolvedInvocationView {
        ResolvedInvocationView {
            behavior: self.behavior,
            program: self.program@,
            argv: views(self.argv@),
            cwd: self.cwd@,
        }
    }
}

/// The facts recorded for `key`, if it resolved.
pub open spec fn spec_facts(entries: Seq<(String, Option<PathFacts>)>, key: Seq<char>) -> Option<
    PathFacts,
>
    decreases entries.len(),
{
    if entries.len() == 0 {
        None
    } else if entries[0].0@ == key {
        entries[0].1
    } else {
        spec_facts(entries.drop_first(), key)
    }
}

fn facts(entries: &Vec<(String, Option<PathFacts>)>, key: &Vec<char>) -> (r: Option<PathFacts>)
    ensures
        r == spec_facts(entries@, key@),
{
    let mut i: usize = 0;
    assert(entries@.subrange(0, entries.len() as int) =~= entries@);
    while i < entries.len()
        invariant
            i <= entries.len(),
            spec_facts(entries@, key@) == spec_facts(entries@.subrange(i as int, entries.len() as int), key@),
        decreases entries.len() - i,
    {
        let ghost rest = entries@.subrange(i as int, entries.len() as int);
        assert(rest[0] == entries@[i as int]);
        assert(rest.drop_first() =~= entries@.subrange(i + 1, entries.len() as int));
        if crate::text::eq(&chars_of(entries[i].0.as_str()), key) {
            return match &entries[i].1 {
                Some(f) => Some(PathFacts { canonical: f.canonical.clone(), is_file: f.is_file, is_dir: f.is_dir }),
                None => None,
            };
        }
        i = i + 1;
    }
    None
}

/// `Path::starts_with` for canonical paths: `path` is `base` or lies below it.
pub open spec fn spec_within(path: Seq<char>, base: Seq<char>) -> bool {
    ||| path == base
    ||| crate::text::spec_starts_with(path, base + "/"@)
    ||| (base.len() > 0 && base.last() == '/' && crate::text::spec_starts_with(path, base))
}

fn within(path: &String, base: &String) -> (r: bool)
    ensures
        r == spec_within(path@, base@),
{
    let p = chars_of(path.as_str());
    let b = chars_of(base.as_str());
    crate::text::eq(&p, &b) || crate::text::starts_with(&p, &crate::text::concat(&b, &chars_of("/")))
        || (b.len() > 0 && b[b.len() - 1] == '/' && crate::text::starts_with(&p, &b))
}

pub open spec fn right_kind(f: PathFacts, kind: EntryKind) -> bool {
    match kind {
        EntryKind::Any => f.is_file || f.is_dir,
        EntryKind::File => f.is_file,
        EntryKind::Directory => f.is_dir,
    }
}

/// A project path resolved inside the canonical project root.
pub open spec fn spec_project_entry(
    root: Seq<char>,
    entries: Seq<(String, Option<PathFacts>)>,
    portable: Seq<char>,
    kind: EntryKind,
) -> Result<Seq<char>, RecipeErrorView> {
    if spec_relative_path(portable) is Err {
        Err(RecipeErrorView::InvalidProjectPath { field: "resolved"@, value: portable })
    } else {
        match spec_facts(entries, portable) {
            Some(f) => if spec_within(f.canonical@, root) && right_kind(f, kind) {
                Ok(f.canonical@)
            } else {
                Err(RecipeErrorView::ProjectEntry { path: portable, expected: kind.spec_description() })
            },
            None => Err(RecipeErrorView::ProjectEntry { path: portable, expected: kind.spec_description() }),
        }
    }
}

pub open spec fn str_result_view(r: Result<String, RecipeError>) -> Result<Seq<char>, RecipeErrorView> {
    match r {
        Ok(s) => Ok(s@),
        Err(e) => Err(e@),
    }
}

fn project_entry(
    root: &String,
    entries: &Vec<(String, Option<PathFacts>)>,
    portable: &String,
    kind: EntryKind,
) -> (r: Result<String, RecipeError>)
    ensures
        str_result_view(r) == spec_project_entry(root@, entries@, portable@, kind),
{
    if crate::shortcuts::relative_path(portable.as_str()).is_err() {
        return Err(RecipeError::InvalidProjectPath { field: "resolved", value: portable.clone() });
    }
    match facts(entries, &chars_of(portable.as_str())) {
        Some(f) => {
            let right = match kind {
                EntryKind::Any => f.is_file || f.is_dir,
                EntryKind::File => f.is_file,
                EntryKind::Directory => f.is_dir,
            };
            if within(&f.canonical, root) && right {
                Ok(f.canonical)
            } else {
                Err(RecipeError::ProjectEntry { path: portable.clone(), expected: kind.description() })
            }
        },
        None => Err(RecipeError::ProjectEntry { path: portable.clone(), expected: kind.description() }),
    }
}

/// An absolute runtime path that resolves to an object of the expected kind;
/// runtime paths need not lie inside the project.
pub open spec fn spec_runtime_path(
    runtime: Seq<(String, Option<PathFacts>)>,
    id: Seq<char>,
    kind: InputKind,
    path: Seq<char>,
) -> Result<Seq<char>, RecipeErrorView> {
    if !crate::text::spec_starts_with(path, "/"@) {
        Err(RecipeErrorView::RuntimePathMustBeAbsolute(id))
    } else {
        match spec_facts(runtime, path) {
            Some(f) => if (kind is Directory && f.is_dir) || (!(kind is Directory) && f.is_file) {
                Ok(f.canonical@)
            } else {
                Err(RecipeErrorView::RuntimePath { id, expected: kind })
            },
            None => Err(RecipeErrorView::RuntimePath { id, expected: kind }),
        }
    }
}

fn runtime_path(
    runtime: &Vec<(String, Option<PathFacts>)>,
    id: &String,
    kind: InputKind,
    path: &String,
) -> (r: Result<String, RecipeError>)
    ensures
        str_result_view(r) == spec_runtime_path(runtime@, id@, kind, path@),
{
    let p = chars_of(path.as_str());
    if !crate::text::starts_with(&p, &chars_of("/")) {
        return Err(RecipeError::RuntimePathMustBeAbsolute(id.clone()));
    }
    match facts(runtime, &p) {
        Some(f) => {
            let directory = match kind {
                InputKind::Directory => true,
                _ => false,
            };
            if (directory && f.is_dir) || (!directory && f.is_file) {
                Ok(f.canonical)
            } else {
                Err(RecipeError::RuntimePath { id: id.clone(), expected: kind })
            }
        },
        None => Err(RecipeError::RuntimePath { id: id.clone(), expected: kind }),
    }
}

/// A declared default: text as written, paths resolved like runtime paths.
pub open spec fn spec_resolve_default(
    runtime: Seq<(String, Option<PathFacts>)>,
    id: Seq<char>,
    kind: InputKind,
    value: Seq<char>,
) -> Result<Seq<char>, RecipeErrorView> {
    match kind {
        InputKind::Text => Ok(value),
        _ => spec_runtime_path(runtime, id, kind, value),
    }
}

fn resolve_default(
    runtime: &Vec<(String, Option<PathFacts>)>,
    id: &String,
    kind: InputKind,
    value: &String,
) -> (r: Result<String, RecipeError>)
    ensures
        str_result_view(r) == spec_resolve_default(runtime@, id@, kind, value@),
{
    match kind {
        InputKind::Text => Ok(value.clone()),
        _ => runtime_path(runtime, id, kind, value),
    }
}

/// A supplied value must have the declared kind.
pub open spec fn spec_resolve_input(
    runtime: Seq<(String, Option<PathFacts>)>,
    id: Seq<char>,
    expected: InputKind,
    value: RuntimeInput,
) -> Result<Seq<char>, RecipeErrorView> {
    match (expected, value) {
        (InputKind::Text, RuntimeInput::Text(v)) => Ok(v@),
        (InputKind::File, RuntimeInput::File(p)) => spec_runtime_path(runtime, id, expected, p@),
        (InputKind::Directory, RuntimeInput::Directory(p)) => spec_runtime_path(
            runtime,
            id,
            expected,
            p@,
        ),
        _ => Err(RecipeErrorView::InputKindMismatch { id, expected: expected.spec_description() }),
    }
}

fn resolve_input(
    runtime: &Vec<(String, Option<PathFacts>)>,
    id: &String,
    expected: InputKind,
    value: &RuntimeInput,
) -> (r: Result<String, RecipeError>)
    ensures
        str_result_view(r) == spec_resolve_input(runtime@, id@, expected, *value),
{
    match (expected, value) {
        (InputKind::Text, RuntimeInput::Text(v)) => Ok(v.clone()),
        (InputKind::File, RuntimeInput::File(p)) => runtime_path(runtime, id, expected, p),
        (InputKind::Directory, RuntimeInput::Directory(p)) => runtime_path(runtime, id, expected, p),
        _ => Err(RecipeError::InputKindMismatch { id: id.clone(), expected: expected.description() }),
    }
}

pub open spec fn seqs_result_view(r: Result<Vec<String>, RecipeError>) -> Result<Seq<Seq<char>>, RecipeErrorView> {
    match r {
        Ok(v) => Ok(views(v@)),
        Err(e) => Err(e@),
    }
}

/// The words one argument contributes to the command line.
pub open spec fn spec_argument(
    root: Seq<char>,
    snapshot: ProjectSnapshot,
    inputs: Seq<(String, RuntimeInput)>,
    argument: RecipeArgument,
) -> Result<Seq<Seq<char>>, RecipeErrorView> {
    match argument {
        RecipeArgument::ProjectPath { path } => match spec_project_entry(
            root,
            snapshot.entries@,
            path@,
            EntryKind::Any,
        ) {
            Ok(p) => Ok(seq![p]),
            Err(e) => Err(e),
        },
        RecipeArgument::Literal { value } => Ok(seq![value@]),
        RecipeArgument::Input { id, kind, required, default, prefix, .. } => {
            let value = match spec_lookup_input(inputs, id@) {
                Some(v) => Some(spec_resolve_input(snapshot.runtime@, id@, kind, v)),
                None => match default {
                    Some(d) => Some(spec_resolve_default(snapshot.runtime@, id@, kind, d@)),
                    None => None,
                },
            };
            match value {
                Some(Ok(v)) => match prefix {
                    Some(p) => Ok(seq![p@, v]),
                    None => Ok(seq![v]),
                },
                Some(Err(e)) => Err(e),
                None => if required {
                    Err(RecipeErrorView::MissingRequiredInput(id@))
                } else {
                    Ok(seq![])
                },
            }
        },
        RecipeArgument::Switch { id, value, default, .. } => match spec_lookup_input(inputs, id@) {
            Some(RuntimeInput::Switch(enabled)) => if enabled {
                Ok(seq![value@])
            } else {
                Ok(seq![])
            },
            Some(_) => Err(RecipeErrorView::InputKindMismatch { id: id@, expected: "a switch"@ }),
            None => if default {
                Ok(seq![value@])
            } else {
                Ok(seq![])
            },
        },
    }
}

/// The command line: each argument's words in order, or the first error.
pub open spec fn spec_argv(
    root: Seq<char>,
    snapshot: ProjectSnapshot,
    inputs: Seq<(String, RuntimeInput)>,
    arguments: Seq<RecipeArgument>,
) -> Result<Seq<Seq<char>>, RecipeErrorView>
    decreases arguments.len(),
{
    if arguments.len() == 0 {
        Ok(seq![])
    } else {
        match spec_argument(root, snapshot, inputs, arguments[0]) {
            Ok(head) => match spec_argv(root, snapshot, inputs, arguments.drop_first()) {
                Ok(tail) => Ok(head + tail),
                Err(e) => Err(e),
            },
            Err(e) => Err(e),
        }
    }
}

fn one(s: String) -> (r: Vec<String>)
    ensures
        views(r@) == seq![s@],
{
    let mut r: Vec<String> = Vec::new();
    r.push(s);
    assert(views(r@) =~= seq![s@]);
    r
}

fn resolve_argument(
    root: &String,
    snapshot: &ProjectSnapshot,
    inputs: &RuntimeInputs,
    argument: &RecipeArgument,
) -> (r: Result<Vec<String>, RecipeError>)
    ensures
        seqs_result_view(r) == spec_argument(root@, *snapshot, inputs.spec_entries(), *argument),
{
    match argument {
        RecipeArgument::ProjectPath { path } => {
            let p = project_entry(root, &snapshot.entries, path, EntryKind::Any)?;
            Ok(one(p))
        },
        RecipeArgument::Literal { value } => Ok(one(value.clone())),
        RecipeArgument::Input { id, kind, required, default, prefix, .. } => {
            let value = match inputs.get(id.as_str()) {
                Some(v) => Some(resolve_input(&snapshot.runtime, id, *kind, v)),
                None => match default {
                    Some(d) => Some(resolve_default(&snapshot.runtime, id, *kind, d)),
                    None => None,
                },
            };
            match value {
                Some(Ok(v)) => match prefix {
                    Some(p) => {
                        let mut r: Vec<String> = Vec::new();
                        r.push(p.clone());
                        r.push(v);
                        assert(views(r@) =~= seq![p@, v@]);
                        Ok(r)
                    },
                    None => Ok(one(v)),
                },
                Some(Err(e)) => Err(e),
                None => {
                    if *required {
                        Err(RecipeError::MissingRequiredInput(id.clone()))
                    } else {
                        let r: Vec<String> = Vec::new();
                        assert(views(r@) =~= seq![]);
                        Ok(r)
                    }
                },
            }
        },
        RecipeArgument::Switch { id, value, default, .. } => {
            let enabled = match inputs.get(id.as_str()) {
                Some(RuntimeInput::Switch(enabled)) => *enabled,
                Some(_) => {
                    return Err(RecipeError::InputKindMismatch { id: id.clone(), expected: "a switch" });
                },
                None => *default,
            };
            if enabled {
                Ok(one(value.clone()))
            } else {
                let r: Vec<String> = Vec::new();
                assert(views(r@) =~= seq![]);
                Ok(r)
            }
        },
    }
}

proof fn lemma_argv_step(
    root: Seq<char>,
    snapshot: ProjectSnapshot,
    inputs: Seq<(String, RuntimeInput)>,
    arguments: Seq<RecipeArgument>,
    i: int,
)
    requires
        0 <= i < arguments.len(),
    ensures
        spec_argv(root, snapshot, inputs, arguments.subrange(i, arguments.len() as int)) == (match spec_argument(
            root,
            snapshot,
            inputs,
            arguments[i],
        ) {
            Ok(head) => match spec_argv(root, snapshot, inputs, arguments.subrange(i + 1, arguments.len() as int)) {
                Ok(tail) => Ok(head + tail),
                Err(e) => Err(e),
            },
            Err(e) => Err(e),
        }),
{
    let rest = arguments.subrange(i, arguments.len() as int);
    assert(rest[0] == arguments[i]);
    assert(rest.drop_first() =~= arguments.subrange(i + 1, arguments.len() as int));
}

/// Whether some input or switch declares `id`.
pub open spec fn declares(arguments: Seq<RecipeArgument>, id: Seq<char>) -> bool {
    exists|i: int|
        0 <= i < arguments.len() && match #[trigger] arguments[i] {
            RecipeArgument::Input { id: declared, .. } => declared@ == id,
            RecipeArgument::Switch { id: declared, .. } => declared@ == id,
            _ => false,
        }
}

/// The first supplied id, in ascending order, that no parameter declares.
pub open spec fn spec_first_unknown(
    inputs: Seq<(String, RuntimeInput)>,
    arguments: Seq<RecipeArgument>,
) -> Option<Seq<char>>
    decreases inputs.len(),
{
    if inputs.len() == 0 {
        None
    } else if !declares(arguments, inputs[0].0@) {
        Some(inputs[0].0@)
    } else {
        spec_first_unknown(inputs.drop_first(), arguments)
    }
}

fn is_declared(arguments: &Vec<RecipeArgument>, id: &String) -> (r: bool)
    ensures
        r == declares(arguments@, id@),
{
    let target = chars_of(id.as_str());
    let mut i: usize = 0;
    while i < arguments.len()
        invariant
            i <= arguments.len(),
            target@ == id@,
            forall|j: int| 0 <= j < i ==> !(match #[trigger] arguments@[j] {
                RecipeArgument::Input { id: declared, .. } => declared@ == id@,
                RecipeArgument::Switch { id: declared, .. } => declared@ == id@,
                _ => false,
            }),
        decreases arguments.len() - i,
    {
        let hit = match &arguments[i] {
            RecipeArgument::Input { id: declared, .. } => crate::text::eq(&chars_of(declared.as_str()), &target),
            RecipeArgument::Switch { id: declared, .. } => crate::text::eq(&chars_of(declared.as_str()), &target),
            _ => false,
        };
        if hit {
            return true;
        }
        i = i + 1;
    }
    false
}

/// The parent directory of a canonical path, as `Path::parent` gives it.
pub open spec fn spec_parent(path: Seq<char>) -> Option<Seq<char>> {
    if path.len() == 0 || path == "/"@ {
        None
    } else if path.contains('/') {
        let i = choose|i: int| 0 <= i < path.len() && path[i] == '/' && forall|j: int| i < j < path.len() ==> path[j] != '/';
        if i == 0 {
            Some("/"@)
        } else {
            Some(path.subrange(0, i))
        }
    } else {
        Some(seq![])
    }
}

fn parent(path: &String) -> (r: Option<String>)
    ensures
        opt_str_view(r) == spec_parent(path@),
{
    let p = chars_of(path.as_str());
    if p.len() == 0 || crate::text::eq(&p, &chars_of("/")) {
        return None;
    }
    let mut i = p.len();
    while i > 0 && p[i - 1] != '/'
        invariant
            i <= p.len(),
            forall|j: int| i <= j < p.len() ==> p@[j] != '/',
        decreases i,
    {
        i = i - 1;
    }
    if i == 0 {
        proof {
            if p@.contains('/') {
                let k = choose|k: int| 0 <= k < p@.len() && p@[k] == '/';
                assert(p@[k] != '/');
            }
        }
        let e: Vec<char> = Vec::new();
        return Some(crate::text::string_of(&e));
    }
    let last = i - 1;
    proof {
        assert(p@.contains('/')) by {
            assert(p@[last as int] == '/');
        }
        let k = choose|k: int| 0 <= k < p@.len() && p@[k] == '/' && forall|j: int| k < j < p@.len() ==> p@[j] != '/';
        if k < last {
            assert(p@[last as int] == '/');
        }
        if k > last {
            assert(p@[k] != '/');
        }
    }
    if last == 0 {
        Some(crate::text::string_of(&chars_of("/")))
    } else {
        Some(crate::text::string_of(&crate::text::subvec(&p, 0, last)))
    }
}

pub open spec fn opt_str_view(r: Option<String>) -> Option<Seq<char>> {
    match r {
        Some(s) => Some(s@),
        None => None,
    }
}

/// The program and the project file it names, if any.
pub open spec fn spec_program(
    root: Seq<char>,
    snapshot: ProjectSnapshot,
    program: RecipeProgram,
) -> Result<(ResolvedProgramView, Option<Seq<char>>), RecipeErrorView> {
    match program {
        RecipeProgram::ProjectFile { path } => match spec_project_entry(
            root,
            snapshot.entries@,
            path@,
            EntryKind::File,
        ) {
            Ok(p) => Ok((ResolvedProgramView::ProjectFile(p), Some(p))),
            Err(e) => Err(e),
        },
        RecipeProgram::Interpreter { runner } => Ok(
            (
                ResolvedProgramView::Interpreter {
                    runner,
                    candidates: runner.spec_candidates(snapshot.platform),
                },
                None,
            ),
        ),
        RecipeProgram::Executable { name } => Ok(
            (ResolvedProgramView::SearchPath { candidates: seq![name@] }, None),
        ),
    }
}

/// The working directory for the program.
pub open spec fn spec_cwd(
    root: Seq<char>,
    snapshot: ProjectSnapshot,
    working_directory: WorkingDirectory,
    target: Option<Seq<char>>,
) -> Result<Seq<char>, RecipeErrorView> {
    match working_directory {
        WorkingDirectory::ProjectRoot => Ok(root),
        WorkingDirectory::TargetParent => match target {
            Some(t) => match spec_parent(t) {
                Some(p) => Ok(p),
                None => Err(RecipeErrorView::TargetParentWithoutProjectFile),
            },
            None => Err(RecipeErrorView::TargetParentWithoutProjectFile),
        },
        WorkingDirectory::ProjectRelative { path } => spec_project_entry(
            root,
            snapshot.entries@,
            path@,
            EntryKind::Directory,
        ),
    }
}

/// The canonical project root, which must be a directory.
pub open spec fn spec_root(snapshot: ProjectSnapshot) -> Result<Seq<char>, RecipeErrorView> {
    match snapshot.root {
        Err(detail) => Err(RecipeErrorView::ProjectRoot(detail@)),
        Ok(f) => if f.is_dir {
            Ok(f.canonical@)
        } else {
            Err(RecipeErrorView::ProjectRoot("path is not a directory"@))
        },
    }
}

/// Resolution: validate the recipe, reject undeclared runtime ids, then resolve
/// the root, program, working directory and arguments, stopping at the first error.
pub open spec fn spec_resolve(
    snapshot: ProjectSnapshot,
    recipe: RecipeDefinition,
    inputs: Seq<(String, RuntimeInput)>,
) -> Result<ResolvedInvocationView, RecipeErrorView> {
    match spec_validate(recipe) {
        Err(e) => Err(e),
        Ok(()) => match spec_first_unknown(inputs, recipe.arguments@) {
            Some(unknown) => Err(RecipeErrorView::UnknownInput(unknown)),
            None => match spec_root(snapshot) {
                Err(e) => Err(e),
                Ok(root) => match spec_program(root, snapshot, recipe.program) {
                    Err(e) => Err(e),
                    Ok((program, target)) => match spec_cwd(root, snapshot, recipe.working_directory, target) {
                        Err(e) => Err(e),
                        Ok(cwd) => match spec_argv(root, snapshot, inputs, recipe.arguments@) {
                            Err(e) => Err(e),
                            Ok(argv) => Ok(
                                ResolvedInvocationView { behavior: recipe.behavior, program, argv, cwd },
                            ),
                        },
                    },
                },
            },
        },
    }
}

pub open spec fn invocation_result_view(r: Result<ResolvedInvocation, RecipeError>) -> Result<
    ResolvedInvocationView,
    RecipeErrorView,
> {
    match r {
        Ok(v) => Ok(v@),
        Err(e) => Err(e@),
    }
}

fn canonical_root(snapshot: &ProjectSnapshot) -> (r: Result<String, RecipeError>)
    ensures
        str_result_view(r) == spec_root(*snapshot),
{
    match &snapshot.root {
        Err(detail) => Err(RecipeError::ProjectRoot(detail.clone())),
        Ok(f) => {
            if f.is_dir {
                Ok(f.canonical.clone())
            } else {
                Err(RecipeError::ProjectRoot("path is not a directory".to_string()))
            }
        },
    }
}

fn first_unknown(inputs: &RuntimeInputs, arguments: &Vec<RecipeArgument>) -> (r: Option<String>)
    ensures
        opt_str_view(r) == spec_first_unknown(inputs.spec_entries(), arguments@),
{
    let n = inputs.len();
    let mut i: usize = 0;
    assert(inputs.spec_entries().subrange(0, n as int) =~= inputs.spec_entries());
    while i < n
        invariant
            i <= n,
            n == inputs.spec_entries().len(),
            spec_first_unknown(inputs.spec_entries(), arguments@) == spec_first_unknown(
                inputs.spec_entries().subrange(i as int, n as int),
                arguments@,
            ),
        decreases n - i,
    {
        let ghost rest = inputs.spec_entries().subrange(i as int, n as int);
        assert(rest[0] == inputs.spec_entries()[i as int]);
        assert(rest.drop_first() =~= inputs.spec_entries().subrange(i + 1, n as int));
        let (key, _) = inputs.entry(i);
        if !is_declared(arguments, key) {
            return Some(key.clone());
        }
        i = i + 1;
    }
    None
}

/// Resolve a recipe against the project's file-system facts and the runtime
/// inputs into a shell-free invocation.
pub fn resolve_recipe(
    snapshot: &ProjectSnapshot,
    recipe: &RecipeDefinition,
    inputs: &RuntimeInputs,
) -> (r: Result<ResolvedInvocation, RecipeError>)
    ensures
        invocation_result_view(r) == spec_resolve(*snapshot, *recipe, inputs.spec_entries()),
{
    recipe.validate()?;
    if let Some(unknown) = first_unknown(inputs, &recipe.arguments) {
        return Err(RecipeError::UnknownInput(unknown));
    }
    let root = canonical_root(snapshot)?;
    let (program, target) = match &recipe.program {
        RecipeProgram::ProjectFile { path } => {
            let p = project_entry(&root, &snapshot.entries, path, EntryKind::File)?;
            (ResolvedProgram::ProjectFile(p.clone()), Some(p))
        },
        RecipeProgram::Interpreter { runner } => (
            ResolvedProgram::Interpreter {
                runner: *runner,
                candidates: runner.executable_candidates(snapshot.platform),
            },
            None,
        ),
        RecipeProgram::Executable { name } => (
            ResolvedProgram::SearchPath { candidates: one(name.clone()) },
            None,
        ),
    };
    let cwd = match &recipe.working_directory {
        WorkingDirectory::ProjectRoot => root.clone(),
        WorkingDirectory::TargetParent => match &target {
            Some(t) => match parent(t) {
                Some(p) => p,
                None => return Err(RecipeError::TargetParentWithoutProjectFile),
            },
            None => return Err(RecipeError::TargetParentWithoutProjectFile),
        },
        WorkingDirectory::ProjectRelative { path } => project_entry(
            &root,
            &snapshot.entries,
            path,
            EntryKind::Directory,
        )?,
    };
    let mut argv: Vec<String> = Vec::new();
    let mut i: usize = 0;
    let ghost args = recipe.arguments@;
    assert(args.subrange(0, args.len() as int) =~= args);
    assert(views(argv@) =~= seq![]);
    while i < recipe.arguments.len()
        invariant
            i <= recipe.arguments.len(),
            args == recipe.arguments@,
            spec_resolve(*snapshot, *recipe, inputs.spec_entries()) == (match spec_argv(
                root@,
                *snapshot,
                inputs.spec_entries(),
                args,
            ) {
                Ok(all) => Ok(
                    ResolvedInvocationView { behavior: recipe.behavior, program: program@, argv: all, cwd: cwd@ },
                ),
                Err(e) => Err(e),
            }),
            spec_argv(root@, *snapshot, inputs.spec_entries(), args) == (match spec_argv(
                root@,
                *snapshot,
                inputs.spec_entries(),
                args.subrange(i as int, args.len() as int),
            ) {
                Ok(tail) => Ok(views(argv@) + tail),
                Err(e) => Err(e),
            }),
        decreases recipe.arguments.len() - i,
    {
        proof {
            lemma_argv_step(root@, *snapshot, inputs.spec_entries(), args, i as int);
        }
        let words = match resolve_argument(&root, snapshot, inputs, &recipe.arguments[i]) {
            Ok(w) => w,
            Err(e) => return Err(e),
        };
        let ghost before = views(argv@);
        let mut k: usize = 0;
        while k < words.len()
            invariant
                k <= words.len(),
                views(argv@) == before + views(words@).subrange(0, k as int),
            decreases words.len() - k,
        {
            proof {
                lemma_views_push(argv@, words@[k as int]);
            }
            argv.push(words[k].clone());
            assert(views(words@).subrange(0, k + 1) =~= views(words@).subrange(0, k as int).push(words@[k as int]@));
            k = k + 1;
        }
        proof {
            assert(views(words@).subrange(0, words.len() as int) =~= views(words@));
            let tail_rest = spec_argv(root@, *snapshot, inputs.spec_entries(), args.subrange(i + 1, args.len() as int));
            match tail_rest {
                Ok(t) => {
                    assert(before + (views(words@) + t) =~= (before + views(words@)) + t);
                },
                Err(_) => {},
            }
        }
        i = i + 1;
    }
    assert(args.subrange(args.len() as int, args.len() as int) =~= seq![]);
    assert(views(argv@) + seq![] =~= views(argv@));
    Ok(ResolvedInvocation { behavior: recipe.behavior, program, argv, cwd })
}

/// Validate a definition and every project-owned path it names, without runtime inputs.
pub open spec fn spec_validate_for_project(snapshot: ProjectSnapshot, recipe: RecipeDefinition) -> Result<
    (),
    RecipeErrorView,
> {
    match spec_validate(recipe) {
        Err(e) => Err(e),
        Ok(()) => match spec_root(snapshot) {
            Err(e) => Err(e),
            Ok(root) => {
                let program = match recipe.program {
                    RecipeProgram::ProjectFile { path } => match spec_project_entry(root, snapshot.entries@, path@, EntryKind::File) {
                        Ok(_) => Ok(()),
                        Err(e) => Err(e),
                    },
                    _ => Ok(()),
                };
                if program is Err {
                    program
                } else {
                    let cwd = match recipe.working_directory {
                        WorkingDirectory::ProjectRelative { path } => match spec_project_entry(root, snapshot.entries@, path@, EntryKind::Directory) {
                            Ok(_) => Ok(()),
                            Err(e) => Err(e),
                        },
                        _ => Ok(()),
                    };
                    if cwd is Err {
                        cwd
                    } else {
                        spec_arguments_for_project(root, snapshot, recipe.arguments@)
                    }
                }
            },
        },
    }
}

/// Every project path argument resolves, and every path-kind default resolves.
pub open spec fn spec_arguments_for_project(
    root: Seq<char>,
    snapshot: ProjectSnapshot,
    arguments: Seq<RecipeArgument>,
) -> Result<(), RecipeErrorView>
    decreases arguments.len(),
{
    if arguments.len() == 0 {
        Ok(())
    } else {
        let head = match arguments[0] {
            RecipeArgument::ProjectPath { path } => match spec_project_entry(root, snapshot.entries@, path@, EntryKind::Any) {
                Ok(_) => Ok(()),
                Err(e) => Err(e),
            },
            RecipeArgument::Input { id, kind, default: Some(d), .. } => match spec_resolve_default(snapshot.runtime@, id@, kind, d@) {
                Ok(_) => Ok(()),
                Err(e) => Err(e),
            },
            _ => Ok(()),
        };
        if head is Err {
            head
        } else {
            spec_arguments_for_project(root, snapshot, arguments.drop_first())
        }
    }
}

/// Check a definition and every project path it names before it is stored;
/// running it resolves everything again.
pub fn validate_recipe_for_project(snapshot: &ProjectSnapshot, recipe: &RecipeDefinition) -> (r: Result<
    (),
    RecipeError,
>)
    ensures
        unit_view(r) == spec_validate_for_project(*snapshot, *recipe),
{
    recipe.validate()?;
    let root = canonical_root(snapshot)?;
    if let RecipeProgram::ProjectFile { path } = &recipe.program {
        project_entry(&root, &snapshot.entries, path, EntryKind::File)?;
    }
    if let WorkingDirectory::ProjectRelative { path } = &recipe.working_directory {
        project_entry(&root, &snapshot.entries, path, EntryKind::Directory)?;
    }
    let ghost args = recipe.arguments@;
    let mut i: usize = 0;
    assert(args.subrange(0, args.len() as int) =~= args);
    while i < recipe.arguments.len()
        invariant
            i <= recipe.arguments.len(),
            args == recipe.arguments@,
            spec_validate_for_project(*snapshot, *recipe) == spec_arguments_for_project(root@, *snapshot, args),
            spec_arguments_for_project(root@, *snapshot, args) == spec_arguments_for_project(
                root@,
                *snapshot,
                args.subrange(i as int, args.len() as int),
            ),
        decreases recipe.arguments.len() - i,
    {
        let ghost rest = args.subrange(i as int, args.len() as int);
        assert(rest[0] == args[i as int]);
        assert(rest.drop_first() =~= args.subrange(i + 1, args.len() as int));
        match &recipe.arguments[i] {
            RecipeArgument::ProjectPath { path } => {
                if let Err(e) = project_entry(&root, &snapshot.entries, path, EntryKind::Any) {
                    return Err(e);
                }
            },
            RecipeArgument::Input { id, kind, default: Some(d), .. } => {
                if let Err(e) = resolve_default(&snapshot.runtime, id, *kind, d) {
                    return Err(e);
                }
            },
            _ => {},
        }
        i = i + 1;
    }
    Ok(())
}


impl InputKind {
    /// The kind's name as messages print it.
    pub open spec fn spec_name(self) -> Seq<char> {
        match self {
            InputKind::Text => "text"@,
            InputKind::File => "file"@,
            InputKind::Directory => "directory"@,
        }
    }

    pub fn name(self) -> (r: &'static str)
        ensures
            r@ == self.spec_name(),
    {
        match self {
            InputKind::Text => "text",
            InputKind::File => "file",
            InputKind::Directory => "directory",
        }
    }
}

impl RecipeErrorView {
    /// The message for the error.
    pub open spec fn spec_message(self) -> Seq<char> {
        match self {
            RecipeErrorView::UnsupportedVersion(v) => "unsupported recipe version "@ + crate::text::spec_decimal(
                v as nat,
            ),
            RecipeErrorView::MissingInvocation => "entry must contain either a legacy path or a recipe"@,
            RecipeErrorView::MixedInvocation => "entry must not contain both a legacy path and a recipe"@,
            RecipeErrorView::RunnerWithoutLegacyPath => "legacy runner requires a legacy path"@,
            RecipeErrorView::InvalidProjectPath { field, value } => "invalid "@ + field + " project path '"@
                + value + "'"@,
            RecipeErrorView::InvalidExecutable(name) => "invalid executable name '"@ + name + "'"@,
            RecipeErrorView::DirectIsNotInterpreter => "direct is not an interpreter; use a project-file program"@,
            RecipeErrorView::InvalidParameterId(id) => "invalid recipe parameter id '"@ + id + "'"@,
            RecipeErrorView::EmptyLabel(id) => "recipe parameter '"@ + id + "' has an empty label"@,
            RecipeErrorView::EmptyPrefix(id) => "recipe input '"@ + id + "' has an empty prefix"@,
            RecipeErrorView::EmptySwitchValue(id) => "recipe switch '"@ + id + "' has an empty value"@,
            RecipeErrorView::DuplicateParameterId(id) => "duplicate recipe parameter id '"@ + id + "'"@,
            RecipeErrorView::UnknownInput(id) => "unknown runtime input '"@ + id + "'"@,
            RecipeErrorView::MissingRequiredInput(id) => "missing required runtime input '"@ + id + "'"@,
            RecipeErrorView::InputKindMismatch { id, expected } => "runtime input '"@ + id + "' must be "@
                + expected,
            RecipeErrorView::ProjectRoot(detail) => "invalid installed project root: "@ + detail,
            RecipeErrorView::ProjectEntry { path, expected } => "project path '"@ + path
                + "' is missing, escapes the project, or is not "@ + expected,
            RecipeErrorView::TargetParentWithoutProjectFile =>
                "target-parent working directory requires a project-file program"@,
            RecipeErrorView::RuntimePathMustBeAbsolute(id) => "runtime path input '"@ + id + "' must be absolute"@,
            RecipeErrorView::RuntimePath { id, expected } => "runtime input '"@ + id
                + "' does not resolve to an existing "@ + expected.spec_name(),
        }
    }
}

impl RecipeError {
    /// The message for the error, as it is shown to the user.
    pub fn message(&self) -> (r: String)
        ensures
            r@ == self@.spec_message(),
    {
        match self {
            RecipeError::UnsupportedVersion(v) => {
                let d = crate::text::decimal(*v as u64);
                cat2("unsupported recipe version ", d.as_str())
            },
            RecipeError::MissingInvocation => "entry must contain either a legacy path or a recipe".to_string(),
            RecipeError::MixedInvocation => "entry must not contain both a legacy path and a recipe".to_string(),
            RecipeError::RunnerWithoutLegacyPath => "legacy runner requires a legacy path".to_string(),
            RecipeError::InvalidProjectPath { field, value } => cat5(
                "invalid ",
                field,
                " project path '",
                value.as_str(),
                "'",
            ),
            RecipeError::InvalidExecutable(name) => cat3("invalid executable name '", name.as_str(), "'"),
            RecipeError::DirectIsNotInterpreter => "direct is not an interpreter; use a project-file program".to_string(),
            RecipeError::InvalidParameterId(id) => cat3("invalid recipe parameter id '", id.as_str(), "'"),
            RecipeError::EmptyLabel(id) => cat3("recipe parameter '", id.as_str(), "' has an empty label"),
            RecipeError::EmptyPrefix(id) => cat3("recipe input '", id.as_str(), "' has an empty prefix"),
            RecipeError::EmptySwitchValue(id) => cat3("recipe switch '", id.as_str(), "' has an empty value"),
            RecipeError::DuplicateParameterId(id) => cat3("duplicate recipe parameter id '", id.as_str(), "'"),
            RecipeError::UnknownInput(id) => cat3("unknown runtime input '", id.as_str(), "'"),
            RecipeError::MissingRequiredInput(id) => cat3("missing required runtime input '", id.as_str(), "'"),
            RecipeError::InputKindMismatch { id, expected } => crate::text::cat4(
                "runtime input '",
                id.as_str(),
                "' must be ",
                expected,
            ),
            RecipeError::ProjectRoot(detail) => cat2("invalid installed project root: ", detail.as_str()),
            RecipeError::ProjectEntry { path, expected } => crate::text::cat4(
                "project path '",
                path.as_str(),
                "' is missing, escapes the project, or is not ",
                expected,
            ),
            RecipeError::TargetParentWithoutProjectFile => "target-parent working directory requires a project-file program".to_string(),
            RecipeError::RuntimePathMustBeAbsolute(id) => cat3("runtime path input '", id.as_str(), "' must be absolute"),
            RecipeError::RuntimePath { id, expected } => crate::text::cat4(
                "runtime input '",
                id.as_str(),
                "' does not resolve to an existing ",
                expected.name(),
            ),
        }
    }
}

/// A path with a `/` at `k` has a last `/`, at `k` or after it.
proof fn lemma_last_slash(p: Seq<char>, k: int)
    requires
        0 <= k < p.len(),
        p[k] == '/',
    ensures
        exists|i: int| k <= i < p.len() && p[i] == '/' && forall|j: int| i < j < p.len() ==> p[j] != '/',
    decreases p.len() - k,
{
    if exists|j: int| k < j < p.len() && p[j] == '/' {
        let j = choose|j: int| k < j < p.len() && p[j] == '/';
        lemma_last_slash(p, j);
    } else {
        assert(forall|j: int| k < j < p.len() ==> p[j] != '/');
    }
}

/// The parent of a path within a canonical root, other than the root itself,
/// is within the root too.
proof fn lemma_parent_within(p: Seq<char>, root: Seq<char>)
    requires
        spec_within(p, root),
        p != root,
        root == "/"@ || !(root.len() > 0 && root.last() == '/'),
    ensures
        spec_parent(p) matches Some(q) ==> spec_within(q, root),
{
    reveal_strlit("/");
    let pre = root + "/"@;
    let k: int = if crate::text::spec_starts_with(p, pre) {
        assert(p.subrange(0, pre.len() as int)[root.len() as int] == pre[root.len() as int]);
        root.len() as int
    } else {
        assert(root == "/"@);
        assert(p.subrange(0, 1)[0] == root[0]);
        0
    };
    assert(p[k] == '/');
    lemma_last_slash(p, k);
    assert(p.contains('/'));
    if spec_parent(p) is Some {
        let i = choose|i: int| 0 <= i < p.len() && p[i] == '/' && forall|j: int| i < j < p.len() ==> p[j] != '/';
        assert(i >= k);
        assert(spec_parent(p) == (if i == 0 { Some("/"@) } else { Some(p.subrange(0, i)) }));
        if crate::text::spec_starts_with(p, pre) {
            if i == 0 {
                assert("/"@ =~= pre);
                assert("/"@.subrange(0, 1) =~= "/"@);
                assert(spec_within("/"@, root));
            } else if i == root.len() {
                assert(p.subrange(0, i) =~= p.subrange(0, pre.len() as int).subrange(0, root.len() as int));
                assert(p.subrange(0, i) =~= root);
            } else {
                assert(p.subrange(0, i).subrange(0, pre.len() as int) =~= p.subrange(0, pre.len() as int));
                assert(crate::text::spec_starts_with(p.subrange(0, i), pre));
            }
        } else if i > 0 {
            assert(p.subrange(0, i).subrange(0, 1) =~= p.subrange(0, 1));
            assert(crate::text::spec_starts_with(p.subrange(0, i), root));
            assert(spec_within(p.subrange(0, i), root));
        } else {
            assert(spec_within("/"@, root));
        }
    }
}

/// A successful resolution of `arguments` resolved each of them.
proof fn lemma_argv_parts(
    root: Seq<char>,
    snapshot: ProjectSnapshot,
    inputs: Seq<(String, RuntimeInput)>,
    arguments: Seq<RecipeArgument>,
)
    requires
        spec_argv(root, snapshot, inputs, arguments) is Ok,
    ensures
        forall|k: int| 0 <= k < arguments.len() ==> #[trigger] spec_argument(root, snapshot, inputs, arguments[k]) is Ok,
    decreases arguments.len(),
{
    if arguments.len() > 0 {
        lemma_argv_parts(root, snapshot, inputs, arguments.drop_first());
        assert forall|k: int| 0 <= k < arguments.len() implies #[trigger] spec_argument(root, snapshot, inputs, arguments[k]) is Ok by {
            if k > 0 {
                assert(arguments[k] == arguments.drop_first()[k - 1]);
            }
        }
    }
}

/// Each argument's resolution appears in the resolved argument list.
proof fn lemma_argv_holds_parts(
    root: Seq<char>,
    snapshot: ProjectSnapshot,
    inputs: Seq<(String, RuntimeInput)>,
    arguments: Seq<RecipeArgument>,
)
    requires
        spec_argv(root, snapshot, inputs, arguments) is Ok,
    ensures
        forall|k: int, x: int|
            0 <= k < arguments.len() && 0 <= x < spec_argument(root, snapshot, inputs, arguments[k])->Ok_0.len()
                ==> spec_argv(root, snapshot, inputs, arguments)->Ok_0.contains(
                #[trigger] spec_argument(root, snapshot, inputs, arguments[k])->Ok_0[x],
            ),
    decreases arguments.len(),
{
    if arguments.len() > 0 {
        lemma_argv_parts(root, snapshot, inputs, arguments);
        lemma_argv_holds_parts(root, snapshot, inputs, arguments.drop_first());
        let head = spec_argument(root, snapshot, inputs, arguments[0])->Ok_0;
        let tail = spec_argv(root, snapshot, inputs, arguments.drop_first())->Ok_0;
        let all = spec_argv(root, snapshot, inputs, arguments)->Ok_0;
        assert(all == head + tail);
        assert forall|k: int, x: int|
            0 <= k < arguments.len() && 0 <= x < spec_argument(root, snapshot, inputs, arguments[k])->Ok_0.len()
                implies all.contains(#[trigger] spec_argument(root, snapshot, inputs, arguments[k])->Ok_0[x]) by {
            if k == 0 {
                assert(all[x] == head[x]);
            } else {
                assert(arguments[k] == arguments.drop_first()[k - 1]);
                let item = spec_argument(root, snapshot, inputs, arguments[k])->Ok_0[x];
                assert(tail.contains(item));
                let t = choose|t: int| 0 <= t < tail.len() && tail[t] == item;
                assert(all[head.len() + t] == item);
            }
        }
    }
}

/// Each argument's resolution stands in the resolved argument list as one
/// contiguous run of words.
proof fn lemma_argv_contiguous(
    root: Seq<char>,
    snapshot: ProjectSnapshot,
    inputs: Seq<(String, RuntimeInput)>,
    arguments: Seq<RecipeArgument>,
    k: int,
)
    requires
        spec_argv(root, snapshot, inputs, arguments) is Ok,
        0 <= k < arguments.len(),
    ensures
        spec_argument(root, snapshot, inputs, arguments[k]) is Ok,
        exists|off: int|
            0 <= off && off + spec_argument(root, snapshot, inputs, arguments[k])->Ok_0.len() <= spec_argv(
                root,
                snapshot,
                inputs,
                arguments,
            )->Ok_0.len() && #[trigger] spec_argv(root, snapshot, inputs, arguments)->Ok_0.subrange(
                off,
                off + spec_argument(root, snapshot, inputs, arguments[k])->Ok_0.len(),
            ) == spec_argument(root, snapshot, inputs, arguments[k])->Ok_0,
    decreases arguments.len(),
{
    let head = spec_argument(root, snapshot, inputs, arguments[0])->Ok_0;
    let tail = spec_argv(root, snapshot, inputs, arguments.drop_first())->Ok_0;
    let all = spec_argv(root, snapshot, inputs, arguments)->Ok_0;
    assert(all == head + tail);
    let part = spec_argument(root, snapshot, inputs, arguments[k])->Ok_0;
    if k == 0 {
        let z: int = 0;
        assert(all.subrange(z, z + part.len()) =~= part);
        assert(z + part.len() <= all.len());
    } else {
        assert(arguments[k] == arguments.drop_first()[k - 1]);
        lemma_argv_contiguous(root, snapshot, inputs, arguments.drop_first(), k - 1);
        let off = choose|off: int|
            0 <= off && off + part.len() <= tail.len() && #[trigger] tail.subrange(off, off + part.len()) == part;
        let at = head.len() + off;
        assert(all.subrange(at, at + part.len()) =~= tail.subrange(off, off + part.len()));
        assert(all.subrange(at, at + part.len()) == part);
        assert(0 <= at && at + part.len() <= all.len());
    }
}

/// A text input with a prefix, supplied as text `t`, puts the prefix and then
/// `t` into the argument list, next to each other and in that order.
pub proof fn lemma_prefix_precedes_value(
    snapshot: ProjectSnapshot,
    recipe: RecipeDefinition,
    inputs: Seq<(String, RuntimeInput)>,
    k: int,
    t: String,
)
    requires
        spec_resolve(snapshot, recipe, inputs) is Ok,
        0 <= k < recipe.arguments@.len(),
        recipe.arguments@[k] is Input,
        recipe.arguments@[k]->Input_kind == InputKind::Text,
        recipe.arguments@[k]->Input_prefix is Some,
        spec_lookup_input(inputs, recipe.arguments@[k]->Input_id@) == Some(RuntimeInput::Text(t)),
    ensures
        exists|i: int|
            0 <= i && i + 1 < spec_resolve(snapshot, recipe, inputs)->Ok_0.argv.len() && #[trigger] spec_resolve(
                snapshot,
                recipe,
                inputs,
            )->Ok_0.argv[i] == recipe.arguments@[k]->Input_prefix->Some_0@ && spec_resolve(
                snapshot,
                recipe,
                inputs,
            )->Ok_0.argv[i + 1] == t@,
{
    let root = spec_root(snapshot)->Ok_0;
    let argv = spec_resolve(snapshot, recipe, inputs)->Ok_0.argv;
    lemma_argv_contiguous(root, snapshot, inputs, recipe.arguments@, k);
    let part = spec_argument(root, snapshot, inputs, recipe.arguments@[k])->Ok_0;
    let p = recipe.arguments@[k]->Input_prefix->Some_0@;
    assert(part == seq![p, t@]);
    let off = choose|off: int|
        0 <= off && off + part.len() <= argv.len() && #[trigger] argv.subrange(off, off + part.len()) == part;
    assert(argv.subrange(off, off + 2)[0] == argv[off]);
    assert(argv.subrange(off, off + 2)[1] == argv[off + 1]);
    assert(argv[off] == p);
}

/// A literal argument and an unprefixed text input supplied as `t` each put
/// their word into the argument list, and a required input without a default
/// must be supplied for a recipe to resolve.
pub proof fn lemma_arguments_reach_the_list(
    snapshot: ProjectSnapshot,
    recipe: RecipeDefinition,
    inputs: Seq<(String, RuntimeInput)>,
    k: int,
    t: String,
)
    requires
        spec_resolve(snapshot, recipe, inputs) is Ok,
        0 <= k < recipe.arguments@.len(),
    ensures
        recipe.arguments@[k] is Literal ==> spec_resolve(snapshot, recipe, inputs)->Ok_0.argv.contains(
            recipe.arguments@[k]->Literal_value@,
        ),
        (recipe.arguments@[k] is Input && recipe.arguments@[k]->Input_kind == InputKind::Text
            && recipe.arguments@[k]->Input_prefix is None && spec_lookup_input(inputs, recipe.arguments@[k]->Input_id@)
            == Some(RuntimeInput::Text(t))) ==> spec_resolve(snapshot, recipe, inputs)->Ok_0.argv.contains(t@),
        (recipe.arguments@[k] is Input && recipe.arguments@[k]->Input_required && recipe.arguments@[k]->Input_default
            is None) ==> spec_lookup_input(inputs, recipe.arguments@[k]->Input_id@) is Some,
{
    let root = spec_root(snapshot)->Ok_0;
    let argv = spec_resolve(snapshot, recipe, inputs)->Ok_0.argv;
    lemma_argv_contiguous(root, snapshot, inputs, recipe.arguments@, k);
    let part = spec_argument(root, snapshot, inputs, recipe.arguments@[k])->Ok_0;
    let off = choose|off: int|
        0 <= off && off + part.len() <= argv.len() && #[trigger] argv.subrange(off, off + part.len()) == part;
    if part.len() == 1 {
        assert(argv.subrange(off, off + 1)[0] == argv[off]);
        assert(argv.contains(part[0]));
    }
}

/// A recipe whose only argument is a prefixed text input, supplied as `t`,
/// runs with exactly the prefix and then `t`.
pub proof fn lemma_single_prefixed_input(
    snapshot: ProjectSnapshot,
    recipe: RecipeDefinition,
    inputs: Seq<(String, RuntimeInput)>,
    t: String,
)
    requires
        spec_resolve(snapshot, recipe, inputs) is Ok,
        recipe.arguments@.len() == 1,
        recipe.arguments@[0] is Input,
        recipe.arguments@[0]->Input_kind == InputKind::Text,
        recipe.arguments@[0]->Input_prefix is Some,
        spec_lookup_input(inputs, recipe.arguments@[0]->Input_id@) == Some(RuntimeInput::Text(t)),
    ensures
        spec_resolve(snapshot, recipe, inputs)->Ok_0.argv == seq![recipe.arguments@[0]->Input_prefix->Some_0@, t@],
{
    let root = spec_root(snapshot)->Ok_0;
    assert(recipe.arguments@.drop_first() =~= Seq::<RecipeArgument>::empty());
    assert(spec_argv(root, snapshot, inputs, recipe.arguments@.drop_first()) == Ok::<Seq<Seq<char>>, RecipeErrorView>(seq![]));
    assert(spec_argument(root, snapshot, inputs, recipe.arguments@[0])->Ok_0 + seq![] =~= spec_argument(
        root,
        snapshot,
        inputs,
        recipe.arguments@[0],
    )->Ok_0);
}

/// A resolved recipe stays inside its project: a project program is a file
/// within the canonical project root; the working directory is that root, a
/// directory within it named by a project path, or the program's parent
/// directory, which lies within the root too; and every project path argument
/// is resolved to a path within the root.
pub proof fn lemma_resolution_stays_in_project(
    snapshot: ProjectSnapshot,
    recipe: RecipeDefinition,
    inputs: Seq<(String, RuntimeInput)>,
)
    requires
        spec_resolve(snapshot, recipe, inputs) is Ok,
    ensures
        spec_root(snapshot) is Ok,
        spec_resolve(snapshot, recipe, inputs)->Ok_0.program matches ResolvedProgramView::ProjectFile(p)
            ==> spec_within(p, spec_root(snapshot)->Ok_0),
        recipe.working_directory is ProjectRoot ==> spec_resolve(snapshot, recipe, inputs)->Ok_0.cwd == spec_root(
            snapshot,
        )->Ok_0,
        recipe.working_directory is ProjectRelative ==> spec_within(
            spec_resolve(snapshot, recipe, inputs)->Ok_0.cwd,
            spec_root(snapshot)->Ok_0,
        ),
        recipe.working_directory is TargetParent ==> (spec_resolve(snapshot, recipe, inputs)->Ok_0.program matches ResolvedProgramView::ProjectFile(p)
            && spec_parent(p) == Some(spec_resolve(snapshot, recipe, inputs)->Ok_0.cwd)),
        recipe.working_directory is TargetParent && spec_resolve(snapshot, recipe, inputs)->Ok_0.program
            != ResolvedProgramView::ProjectFile(spec_root(snapshot)->Ok_0) && (spec_root(snapshot)->Ok_0 == "/"@ || !(
        spec_root(snapshot)->Ok_0.len() > 0 && spec_root(snapshot)->Ok_0.last() == '/')) ==> spec_within(
            spec_resolve(snapshot, recipe, inputs)->Ok_0.cwd,
            spec_root(snapshot)->Ok_0,
        ),
        spec_argv(spec_root(snapshot)->Ok_0, snapshot, inputs, recipe.arguments@) == Ok::<
            Seq<Seq<char>>,
            RecipeErrorView,
        >(spec_resolve(snapshot, recipe, inputs)->Ok_0.argv),
        forall|k: int|
            0 <= k < recipe.arguments@.len() && #[trigger] recipe.arguments@[k] is ProjectPath ==> (spec_argument(
                spec_root(snapshot)->Ok_0,
                snapshot,
                inputs,
                recipe.arguments@[k],
            ) matches Ok(v) && v.len() == 1 && spec_within(v[0], spec_root(snapshot)->Ok_0)
                && spec_resolve(snapshot, recipe, inputs)->Ok_0.argv.contains(v[0])),
{
    let root = spec_root(snapshot)->Ok_0;
    match recipe.program {
        RecipeProgram::ProjectFile { path } => {
            let entry = spec_project_entry(root, snapshot.entries@, path@, EntryKind::File);
            assert(entry is Ok);
            if recipe.working_directory is TargetParent && entry->Ok_0 != root && (root == "/"@ || !(root.len() > 0
                && root.last() == '/')) {
                lemma_parent_within(entry->Ok_0, root);
            }
        },
        _ => {},
    }
    match recipe.working_directory {
        WorkingDirectory::ProjectRelative { path } => {
            assert(spec_project_entry(root, snapshot.entries@, path@, EntryKind::Directory) is Ok);
        },
        _ => {},
    }
    lemma_argv_parts(root, snapshot, inputs, recipe.arguments@);
    lemma_argv_holds_parts(root, snapshot, inputs, recipe.arguments@);
    assert forall|k: int|
        0 <= k < recipe.arguments@.len() && #[trigger] recipe.arguments@[k] is ProjectPath implies (spec_argument(
            root,
            snapshot,
            inputs,
            recipe.arguments@[k],
        ) matches Ok(v) && v.len() == 1 && spec_within(v[0], root) && spec_resolve(snapshot, recipe, inputs)->Ok_0.argv.contains(v[0])) by {
        assert(spec_argument(root, snapshot, inputs, recipe.arguments@[k]) is Ok);
        assert(spec_argument(root, snapshot, inputs, recipe.arguments@[k])->Ok_0.len() == 1);
        let v0 = spec_argument(root, snapshot, inputs, recipe.arguments@[k])->Ok_0[0];
        assert(spec_argv(root, snapshot, inputs, recipe.arguments@)->Ok_0.contains(v0));
    }
}

/// A project file program that is missing, not a file or outside the project
/// is refused, naming the path and what was expected, once the definition,
/// the runtime ids and the project root passed; checking the definition for
/// the project refuses it in the same words.
pub proof fn lemma_unusable_program_is_refused(
    snapshot: ProjectSnapshot,
    recipe: RecipeDefinition,
    inputs: Seq<(String, RuntimeInput)>,
)
    requires
        spec_validate(recipe) is Ok,
        spec_first_unknown(inputs, recipe.arguments@) is None,
        spec_root(snapshot) is Ok,
        recipe.program is ProjectFile,
        spec_relative_path(recipe.program->path@) is Ok,
        !(spec_facts(snapshot.entries@, recipe.program->path@) matches Some(f) && spec_within(
            f.canonical@,
            spec_root(snapshot)->Ok_0,
        ) && f.is_file),
    ensures
        spec_resolve(snapshot, recipe, inputs) == Err::<ResolvedInvocationView, RecipeErrorView>(
            RecipeErrorView::ProjectEntry { path: recipe.program->path@, expected: EntryKind::File.spec_description() },
        ),
        spec_validate_for_project(snapshot, recipe) == Err::<(), RecipeErrorView>(
            RecipeErrorView::ProjectEntry { path: recipe.program->path@, expected: EntryKind::File.spec_description() },
        ),
{
}

/// A project working directory that is missing, not a directory or outside
/// the project is refused, naming the path and what was expected, once the
/// definition, the runtime ids, the project root and the program passed.
pub proof fn lemma_unusable_working_directory_is_refused(
    snapshot: ProjectSnapshot,
    recipe: RecipeDefinition,
    inputs: Seq<(String, RuntimeInput)>,
)
    requires
        spec_validate(recipe) is Ok,
        spec_first_unknown(inputs, recipe.arguments@) is None,
        spec_root(snapshot) is Ok,
        spec_program(spec_root(snapshot)->Ok_0, snapshot, recipe.program) is Ok,
        recipe.working_directory is ProjectRelative,
        spec_relative_path(recipe.working_directory->path@) is Ok,
        !(spec_facts(snapshot.entries@, recipe.working_directory->path@) matches Some(f) && spec_within(
            f.canonical@,
            spec_root(snapshot)->Ok_0,
        ) && f.is_dir),
    ensures
        spec_resolve(snapshot, recipe, inputs) == Err::<ResolvedInvocationView, RecipeErrorView>(
            RecipeErrorView::ProjectEntry {
                path: recipe.working_directory->path@,
                expected: EntryKind::Directory.spec_description(),
            },
        ),
{
}

/// The arguments of a definition checked for a project: each project path
/// exists within the root and each path default resolves.
proof fn lemma_arguments_for_project_parts(root: Seq<char>, snapshot: ProjectSnapshot, arguments: Seq<RecipeArgument>)
    requires
        spec_arguments_for_project(root, snapshot, arguments) is Ok,
    ensures
        forall|k: int|
            0 <= k < arguments.len() ==> match #[trigger] arguments[k] {
                RecipeArgument::ProjectPath { path } => spec_project_entry(
                    root,
                    snapshot.entries@,
                    path@,
                    EntryKind::Any,
                ) matches Ok(p) && spec_within(p, root),
                RecipeArgument::Input { id, kind, default: Some(d), .. } => spec_resolve_default(
                    snapshot.runtime@,
                    id@,
                    kind,
                    d@,
                ) is Ok,
                _ => true,
            },
    decreases arguments.len(),
{
    if arguments.len() > 0 {
        lemma_arguments_for_project_parts(root, snapshot, arguments.drop_first());
        assert forall|k: int| 0 <= k < arguments.len() implies match #[trigger] arguments[k] {
            RecipeArgument::ProjectPath { path } => spec_project_entry(
                root,
                snapshot.entries@,
                path@,
                EntryKind::Any,
            ) matches Ok(p) && spec_within(p, root),
            RecipeArgument::Input { id, kind, default: Some(d), .. } => spec_resolve_default(
                snapshot.runtime@,
                id@,
                kind,
                d@,
            ) is Ok,
            _ => true,
        } by {
            if k > 0 {
                assert(arguments[k] == arguments.drop_first()[k - 1]);
            }
        }
    }
}

/// Checking a definition for a project succeeds only where the definition is
/// valid, the project root is a directory, a project file program is a file
/// within the root, a project working directory is a directory within it,
/// every project path argument exists within it and every path default of an
/// input resolves.
pub proof fn lemma_project_validation_checks_each_path(snapshot: ProjectSnapshot, recipe: RecipeDefinition)
    requires
        spec_validate_for_project(snapshot, recipe) is Ok,
    ensures
        spec_validate(recipe) is Ok,
        spec_root(snapshot) is Ok,
        recipe.program matches RecipeProgram::ProjectFile { path } ==> (spec_project_entry(
            spec_root(snapshot)->Ok_0,
            snapshot.entries@,
            path@,
            EntryKind::File,
        ) matches Ok(p) && spec_within(p, spec_root(snapshot)->Ok_0)),
        recipe.working_directory matches WorkingDirectory::ProjectRelative { path } ==> (spec_project_entry(
            spec_root(snapshot)->Ok_0,
            snapshot.entries@,
            path@,
            EntryKind::Directory,
        ) matches Ok(p) && spec_within(p, spec_root(snapshot)->Ok_0)),
        forall|k: int|
            0 <= k < recipe.arguments@.len() ==> match #[trigger] recipe.arguments@[k] {
                RecipeArgument::ProjectPath { path } => spec_project_entry(
                    spec_root(snapshot)->Ok_0,
                    snapshot.entries@,
                    path@,
                    EntryKind::Any,
                ) matches Ok(p) && spec_within(p, spec_root(snapshot)->Ok_0),
                RecipeArgument::Input { id, kind, default: Some(d), .. } => spec_resolve_default(
                    snapshot.runtime@,
                    id@,
                    kind,
                    d@,
                ) is Ok,
                _ => true,
            },
{
    lemma_arguments_for_project_parts(spec_root(snapshot)->Ok_0, snapshot, recipe.arguments@);
}

} // verus!
