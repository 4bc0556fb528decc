//! Saved shortcut definitions, their validation, and portable project paths.
use vstd::prelude::*;

use crate::git::{lemma_views_push, views};
use crate::catalog::{ExtraField, Runner};
use crate::paths::{spec_valid_name, validate_name, NameError};
use crate::recipe::{lex_lt, spec_validate, LegacyInvocation, RecipeError, RecipeErrorView, StoredInvocation};
use crate::config::{find_slot, keyed, keys_ascending, lemma_insert_ascending, lemma_position, spec_insert};
use crate::text::{cat2, chars_of, concat, contains_char, find, spec_find, str_eq, string_of, subvec};

verus! {

/// Why a path is not a portable path inside a tool repository.
#[derive(Debug, Clone, Copy, PartialEq, Eq)]
pub enum ShortcutPathError {
    /// Empty, absolute, or holding `\` or `:`.
    NotPortable,
    /// A component that is empty, `.` or `..`.
    Escapes,
    /// A root, prefix, `.` or `..` component in a native path.
    NotRelative,
    /// A native component holding `/`, `\` or `:`.
    UnportableComponent,
}

/// `str::split` on a character.
pub open spec fn spec_split(s: Seq<char>, sep: char) -> Seq<Seq<char>>
    decreases s.len(),
{
    match spec_find(s, sep) {
        Some(i) => if 0 <= i < s.len() {
            seq![s.subrange(0, i)] + spec_split(s.subrange(i + 1, s.len() as int), sep)
        } else {
            seq![s]
        },
        None => seq![s],
    }
}

/// A component that would leave or stay at its directory.
pub open spec fn escaping_component(c: Seq<char>) -> bool {
    c.len() == 0 || c == "."@ || c == ".."@
}

/// The components of a portable relative path inside a tool repository.
pub open spec fn spec_relative_path(value: Seq<char>) -> Result<Seq<Seq<char>>, ShortcutPathError> {
    if value.len() == 0 || value[0] == '/' || value.contains('\\') || value.contains(':') {
        Err(ShortcutPathError::NotPortable)
    } else if exists|i: int|
        0 <= i < spec_split(value, '/').len() && escaping_component(
            #[trigger] spec_split(value, '/')[i],
        ) {
        Err(ShortcutPathError::Escapes)
    } else {
        Ok(spec_split(value, '/'))
    }
}

pub(crate) fn split(s: &Vec<char>, sep: char) -> (r: Vec<String>)
    ensures
        views(r@) == spec_split(s@, sep),
    decreases s.len(),
{
    match find(s, sep) {
        Some(i) => {
            let rest = split(&subvec(s, i + 1, s.len()), sep);
            let mut r: Vec<String> = Vec::new();
            r.push(string_of(&subvec(s, 0, i)));
            let mut k: usize = 0;
            while k < rest.len()
                invariant
                    k <= rest.len(),
                    views(r@) =~= seq![s@.subrange(0, i as int)] + views(rest@).subrange(
                        0,
                        k as int,
                    ),
                decreases rest.len() - k,
            {
                proof {
                    lemma_views_push(r@, rest@[k as int]);
                }
                r.push(rest[k].clone());
                assert(views(rest@).subrange(0, k + 1) =~= views(rest@).subrange(
                    0,
                    k as int,
                ).push(rest@[k as int]@));
                k = k + 1;
            }
            assert(views(rest@).subrange(0, rest.len() as int) =~= views(rest@));
            r
        },
        None => {
            let mut r: Vec<String> = Vec::new();
            r.push(string_of(s));
            assert(views(r@) =~= seq![s@]);
            r
        },
    }
}

fn escaping(c: &String) -> (r: bool)
    ensures
        r == escaping_component(c@),
{
    let v = chars_of(c.as_str());
    v.len() == 0 || crate::text::eq(&v, &chars_of(".")) || crate::text::eq(&v, &chars_of(".."))
}

/// The components of a portable path relative to its tool repository: no root,
/// no `\` or `:`, and no empty, `.` or `..` component.
pub fn relative_path(value: &str) -> (r: Result<Vec<String>, ShortcutPathError>)
    ensures
        r matches Ok(v) ==> spec_relative_path(value@) == Ok::<Seq<Seq<char>>, ShortcutPathError>(
            views(v@),
        ),
        r matches Err(e) ==> spec_relative_path(value@) == Err::<Seq<Seq<char>>, ShortcutPathError>(
            e,
        ),
{
    let v = chars_of(value);
    if v.len() == 0 || v[0] == '/' || contains_char(&v, '\\') || contains_char(&v, ':') {
        return Err(ShortcutPathError::NotPortable);
    }
    let components = split(&v, '/');
    let mut i: usize = 0;
    while i < components.len()
        invariant
            i <= components.len(),
            views(components@) == spec_split(v@, '/'),
            v@ == value@,
            !(v@.len() == 0 || v@[0] == '/' || v@.contains('\\') || v@.contains(':')),
            forall|j: int| 0 <= j < i ==> !escaping_component(#[trigger] components@[j]@),
        decreases components.len() - i,
    {
        if escaping(&components[i]) {
            assert(views(components@)[i as int] == components@[i as int]@);
            assert(escaping_component(spec_split(v@, '/')[i as int]));
            assert(v@ == value@);
            assert(escaping_component(spec_split(value@, '/')[i as int]));
            assert(exists|j: int|
                0 <= j < spec_split(value@, '/').len() && escaping_component(
                    #[trigger] spec_split(value@, '/')[j],
                ));
            assert(spec_relative_path(value@) == Err::<Seq<Seq<char>>, ShortcutPathError>(ShortcutPathError::Escapes));
            return Err(ShortcutPathError::Escapes);
        }
        i = i + 1;
    }
    proof {
        assert forall|j: int| 0 <= j < spec_split(v@, '/').len() implies !escaping_component(
            #[trigger] spec_split(v@, '/')[j],
        ) by {
            assert(spec_split(v@, '/')[j] == components@[j]@);
        }
    }
    Ok(components)
}

/// A native component text that cannot stand in a portable path: one holding
/// a separator of either kind or a drive colon.
pub open spec fn unportable_text(c: Seq<char>) -> bool {
    c.contains('\\') || c.contains(':') || c.contains('/')
}

/// One component of a native path, as `std::path::Component` distinguishes them.
#[derive(Debug, Clone, PartialEq, Eq)]
pub enum PathComponent {
    Prefix(String),
    RootDir,
    CurDir,
    ParentDir,
    Normal(String),
}

/// The components joined with `/`.
pub open spec fn spec_join_slash(parts: Seq<Seq<char>>) -> Seq<char>
    decreases parts.len(),
{
    if parts.len() == 0 {
        seq![]
    } else if parts.len() == 1 {
        parts[0]
    } else {
        spec_join_slash(parts.drop_last()) + "/"@ + parts.last()
    }
}

/// The normal components in order, or the first reason the path is not portable.
pub open spec fn spec_normal_components(components: Seq<PathComponent>) -> Result<
    Seq<Seq<char>>,
    ShortcutPathError,
>
    decreases components.len(),
{
    if components.len() == 0 {
        Ok(seq![])
    } else {
        match components[0] {
            PathComponent::Normal(c) => if unportable_text(c@) {
                Err(ShortcutPathError::UnportableComponent)
            } else {
                match spec_normal_components(components.drop_first()) {
                    Ok(rest) => Ok(seq![c@] + rest),
                    Err(e) => Err(e),
                }
            },
            _ => Err(ShortcutPathError::NotRelative),
        }
    }
}

/// The portable `/`-separated form of a native relative path.
pub open spec fn spec_portable_path(components: Seq<PathComponent>) -> Result<
    Seq<char>,
    ShortcutPathError,
> {
    match spec_normal_components(components) {
        Ok(parts) => {
            let value = spec_join_slash(parts);
            match spec_relative_path(value) {
                Ok(_) => Ok(value),
                Err(e) => Err(e),
            }
        },
        Err(e) => Err(e),
    }
}

proof fn lemma_normal_components_snoc(components: Seq<PathComponent>, i: int)
    requires
        0 <= i < components.len(),
        spec_normal_components(components.subrange(0, i)) is Ok,
    ensures
        spec_normal_components(components.subrange(0, i + 1)) == (match components[i] {
            PathComponent::Normal(c) => if unportable_text(c@) {
                Err(ShortcutPathError::UnportableComponent)
            } else {
                Ok(spec_normal_components(components.subrange(0, i))->Ok_0.push(c@))
            },
            _ => Err(ShortcutPathError::NotRelative),
        }),
    decreases i,
{
    let pre = components.subrange(0, i + 1);
    if i == 0 {
        assert(pre.drop_first() =~= seq![]);
        assert(components.subrange(0, 0) =~= seq![]);
        assert(pre[0] == components[0]);
        match components[0] {
            PathComponent::Normal(c) => {
                assert(seq![c@] + seq![] =~= seq![].push(c@));
            },
            _ => {},
        }
    } else {
        let tail = components.subrange(1, components.len() as int);
        let cur = components.subrange(0, i);
        assert(pre.drop_first() =~= tail.subrange(0, i));
        assert(cur.drop_first() =~= tail.subrange(0, i - 1));
        assert(pre[0] == components[0]);
        assert(cur[0] == components[0]);
        assert(tail[i - 1] == components[i]);
        match components[0] {
            PathComponent::Normal(c) => {
                if unportable_text(c@) {
                    assert(spec_normal_components(cur) is Err);
                } else {
                    assert(spec_normal_components(tail.subrange(0, i - 1)) is Ok);
                    lemma_normal_components_snoc(tail, i - 1);
                    let a = spec_normal_components(tail.subrange(0, i - 1))->Ok_0;
                    assert(spec_normal_components(cur) == Ok::<Seq<Seq<char>>, ShortcutPathError>(seq![c@] + a));
                    match components[i] {
                        PathComponent::Normal(d) => {
                            if !unportable_text(d@) {
                                assert(spec_normal_components(tail.subrange(0, i)) == Ok::<Seq<Seq<char>>, ShortcutPathError>(a.push(d@)));
                                assert(seq![c@] + a.push(d@) =~= (seq![c@] + a).push(d@));
                                assert(spec_normal_components(pre) == Ok::<Seq<Seq<char>>, ShortcutPathError>(seq![c@] + a.push(d@)));
                            } else {
                                assert(spec_normal_components(pre) is Err);
                            }
                        },
                        _ => {},
                    }
                }
            },
            _ => {
                assert(spec_normal_components(cur) is Err);
            },
        }
    }
}

/// The portable `/`-separated form of a native path relative to its tool repository.
#[verifier::spinoff_prover]
#[verifier::rlimit(40)]
pub fn portable_path(components: &Vec<PathComponent>) -> (r: Result<String, ShortcutPathError>)
    ensures
        r matches Ok(s) ==> spec_portable_path(components@) == Ok::<Seq<char>, ShortcutPathError>(
            s@,
        ),
        r matches Err(e) ==> spec_portable_path(components@) == Err::<Seq<char>, ShortcutPathError>(
            e,
        ),
{
    let mut parts: Vec<String> = Vec::new();
    let mut value: Vec<char> = Vec::new();
    let mut i: usize = 0;
    assert(components@.subrange(0, 0) =~= seq![]);
    assert(views(parts@) =~= seq![]);
    while i < components.len()
        invariant
            i <= components.len(),
            spec_normal_components(components@.subrange(0, i as int)) == Ok::<
                Seq<Seq<char>>,
                ShortcutPathError,
            >(views(parts@)),
            value@ == spec_join_slash(views(parts@)),
        decreases components.len() - i,
    {
        proof {
            lemma_normal_components_snoc(components@, i as int);
        }
        match &components[i] {
            PathComponent::Normal(c) => {
                let cv = chars_of(c.as_str());
                let unportable = contains_char(&cv, '\\') || contains_char(&cv, ':') || contains_char(&cv, '/');
                assert(unportable == unportable_text(c@));
                if unportable {
                    proof {
                        lemma_normal_prefix_error(components@, i as int + 1);
                    }
                    return Err(ShortcutPathError::UnportableComponent);
                }
                proof {
                    lemma_views_push(parts@, *c);
                    assert(views(parts@.push(*c)).drop_last() =~= views(parts@));
                }
                if parts.len() > 0 {
                    value = concat(&concat(&value, &chars_of("/")), &cv);
                } else {
                    value = cv;
                }
                parts.push(c.clone());
            },
            _ => {
                proof {
                    lemma_normal_prefix_error(components@, i as int + 1);
                }
                return Err(ShortcutPathError::NotRelative);
            },
        }
        i = i + 1;
    }
    assert(components@.subrange(0, components.len() as int) =~= components@);
    let s = string_of(&value);
    match relative_path(s.as_str()) {
        Ok(_) => Ok(s),
        Err(e) => Err(e),
    }
}

proof fn lemma_normal_prefix_error(components: Seq<PathComponent>, k: int)
    requires
        0 < k <= components.len(),
        spec_normal_components(components.subrange(0, k)) is Err,
    ensures
        spec_normal_components(components) == spec_normal_components(components.subrange(0, k)),
    decreases k,
{
    let pre = components.subrange(0, k);
    assert(pre[0] == components[0]);
    let tail = components.drop_first();
    assert(pre.drop_first() =~= tail.subrange(0, k - 1));
    match components[0] {
        PathComponent::Normal(c) => {
            if !unportable_text(c@) {
                assert(spec_normal_components(pre.drop_first()) is Err);
                if k - 1 == 0 {
                    assert(tail.subrange(0, 0) =~= seq![]);
                    assert(false);
                } else {
                    lemma_normal_prefix_error(tail, k - 1);
                }
            }
        },
        _ => {},
    }
}


impl ShortcutPathError {
    pub open spec fn spec_message(self) -> Seq<char> {
        match self {
            ShortcutPathError::NotPortable => "shortcut path must be a portable relative path inside its tool repository"@,
            ShortcutPathError::Escapes => "shortcut path must not escape its tool repository"@,
            ShortcutPathError::NotRelative => "shortcut path must be relative to its tool repository"@,
            ShortcutPathError::UnportableComponent => "shortcut path is not portable across supported platforms"@,
        }
    }

    /// The message for the error.
    pub fn message(self) -> (r: String)
        ensures
            r@ == self.spec_message(),
    {
        match self {
            ShortcutPathError::NotPortable => "shortcut path must be a portable relative path inside its tool repository".to_string(),
            ShortcutPathError::Escapes => "shortcut path must not escape its tool repository".to_string(),
            ShortcutPathError::NotRelative => "shortcut path must be relative to its tool repository".to_string(),
            ShortcutPathError::UnportableComponent => "shortcut path is not portable across supported platforms".to_string(),
        }
    }
}

/// The shortcut format version this library reads and writes.
pub const SHORTCUT_VERSION: u32 = 1;

/// A personal shortcut: a command of one installed tool.
#[derive(Debug, Clone)]
pub struct Shortcut {
    pub catalog: String,
    pub tool: String,
    pub invocation: StoredInvocation,
    pub description: Option<String>,
    pub extra: Vec<ExtraField>,
}

/// The shortcut file: its version and the shortcuts by name.
#[derive(Debug, Clone)]
pub struct ShortcutFile {
    pub version: u32,
    pub shortcuts: Vec<(String, Shortcut)>,
    pub extra: Vec<ExtraField>,
}

/// Why a shortcut or the shortcut file is rejected.
#[derive(Debug, Clone)]
pub enum ShortcutError {
    InvalidName(NameError),
    InvalidCatalog(NameError),
    InvalidTool(NameError),
    Path(ShortcutPathError),
    Recipe(RecipeError),
    UnsupportedVersion(u32),
    UnsafePath { name: String, error: ShortcutPathError },
    InvalidRecipe { name: String, error: RecipeError },
    AlreadyExists(String),
    Missing(String),
    NotLegacy,
}

impl ShortcutError {
    pub open spec fn spec_message(self, path: Seq<char>) -> Seq<char> {
        match self {
            ShortcutError::InvalidName(e) => "invalid shortcut name: "@ + crate::paths::spec_name_message(e.name@),
            ShortcutError::InvalidCatalog(e) => "invalid shortcut catalog: "@ + crate::paths::spec_name_message(e.name@),
            ShortcutError::InvalidTool(e) => "invalid shortcut tool: "@ + crate::paths::spec_name_message(e.name@),
            ShortcutError::Path(p) => p.spec_message(),
            ShortcutError::Recipe(r) => r@.spec_message(),
            ShortcutError::UnsupportedVersion(v) => "unsupported shortcut version "@ + crate::text::spec_decimal(v as nat)
                + " in "@ + path,
            ShortcutError::UnsafePath { name, error } => "shortcut '"@ + name@ + "' contains an unsafe path: "@
                + error.spec_message(),
            ShortcutError::InvalidRecipe { name, error } => "shortcut '"@ + name@ + "' contains an invalid recipe: "@
                + error@.spec_message(),
            ShortcutError::AlreadyExists(n) => "shortcut '"@ + n@ + "' already exists"@,
            ShortcutError::Missing(n) => "shortcut '"@ + n@ + "' does not exist"@,
            ShortcutError::NotLegacy => "cannot set a legacy runner on a structured recipe"@,
        }
    }

    /// The message for the shortcut file at `path`.
    pub fn message(&self, path: &str) -> (r: String)
        ensures
            r@ == self.spec_message(path@),
    {
        match self {
            ShortcutError::InvalidName(e) => {
                let d = crate::paths::name_message(e.name.as_str());
                cat2("invalid shortcut name: ", d.as_str())
            },
            ShortcutError::InvalidCatalog(e) => {
                let d = crate::paths::name_message(e.name.as_str());
                cat2("invalid shortcut catalog: ", d.as_str())
            },
            ShortcutError::InvalidTool(e) => {
                let d = crate::paths::name_message(e.name.as_str());
                cat2("invalid shortcut tool: ", d.as_str())
            },
            ShortcutError::Path(p) => p.message(),
            ShortcutError::Recipe(r) => r.message(),
            ShortcutError::UnsupportedVersion(v) => {
                let d = crate::text::decimal(*v as u64);
                crate::text::cat4("unsupported shortcut version ", d.as_str(), " in ", path)
            },
            ShortcutError::UnsafePath { name, error } => {
                let d = error.message();
                crate::text::cat4("shortcut '", name.as_str(), "' contains an unsafe path: ", d.as_str())
            },
            ShortcutError::InvalidRecipe { name, error } => {
                let d = error.message();
                crate::text::cat4("shortcut '", name.as_str(), "' contains an invalid recipe: ", d.as_str())
            },
            ShortcutError::AlreadyExists(n) => crate::text::cat3("shortcut '", n.as_str(), "' already exists"),
            ShortcutError::Missing(n) => crate::text::cat3("shortcut '", n.as_str(), "' does not exist"),
            ShortcutError::NotLegacy => "cannot set a legacy runner on a structured recipe".to_string(),
        }
    }
}

/// The first problem of a shortcut record: its catalog and tool names, then
/// its path or recipe.
pub open spec fn spec_shortcut_problem(s: Shortcut) -> Option<ShortcutProblem> {
    spec_problem(s.catalog@, s.tool@, s.invocation)
}

/// The first problem of a record with these names and invocation.
pub open spec fn spec_problem(catalog: Seq<char>, tool: Seq<char>, invocation: StoredInvocation) -> Option<
    ShortcutProblem,
> {
    if !spec_valid_name(catalog) {
        Some(ShortcutProblem::Catalog)
    } else if !spec_valid_name(tool) {
        Some(ShortcutProblem::Tool)
    } else {
        match invocation {
            StoredInvocation::Legacy(l) => match spec_relative_path(l.path@) {
                Ok(_) => None,
                Err(e) => Some(ShortcutProblem::Path(e)),
            },
            StoredInvocation::Recipe(r) => match spec_validate(r) {
                Ok(()) => None,
                Err(e) => Some(ShortcutProblem::Recipe(e)),
            },
        }
    }
}

/// The kind of problem a shortcut record has, with the error where there is one.
pub enum ShortcutProblem {
    Catalog,
    Tool,
    Path(ShortcutPathError),
    Recipe(RecipeErrorView),
}

/// `e` reports `problem` for a record with these names.
pub open spec fn reports(e: ShortcutError, catalog: Seq<char>, tool: Seq<char>, problem: ShortcutProblem) -> bool {
    match problem {
        ShortcutProblem::Catalog => e matches ShortcutError::InvalidCatalog(n) && n.name@ == catalog,
        ShortcutProblem::Tool => e matches ShortcutError::InvalidTool(n) && n.name@ == tool,
        ShortcutProblem::Path(p) => e == ShortcutError::Path(p),
        ShortcutProblem::Recipe(v) => e matches ShortcutError::Recipe(r) && r@ == v,
    }
}

impl Shortcut {
    /// A legacy shortcut running `path`, which must be valid.
    pub fn new(catalog: String, tool: String, path: String) -> (r: Result<Self, ShortcutError>)
        ensures
            match r {
                Ok(s) => s.catalog == catalog && s.tool == tool && s.invocation == StoredInvocation::Legacy(
                    LegacyInvocation { path, runner: None },
                ) && s.description is None && s.extra@.len() == 0 && spec_shortcut_problem(s) is None,
                Err(e) => spec_problem(
                    catalog@,
                    tool@,
                    StoredInvocation::Legacy(LegacyInvocation { path, runner: None }),
                ) matches Some(p) && reports(e, catalog@, tool@, p),
            },
    {
        Shortcut::with_invocation(catalog, tool, StoredInvocation::legacy(path, None))
    }

    /// A shortcut with the given invocation, which must be valid.
    pub fn with_invocation(catalog: String, tool: String, invocation: StoredInvocation) -> (r: Result<
        Self,
        ShortcutError,
    >)
        ensures
            match r {
                Ok(s) => s.catalog == catalog && s.tool == tool && s.invocation == invocation
                    && s.description is None && s.extra@.len() == 0 && spec_shortcut_problem(s) is None,
                Err(e) => spec_problem(catalog@, tool@, invocation) matches Some(p) && reports(
                    e,
                    catalog@,
                    tool@,
                    p,
                ),
            },
    {
        let shortcut = Shortcut { catalog, tool, invocation, description: None, extra: Vec::new() };
        match shortcut.validate() {
            Ok(()) => Ok(shortcut),
            Err(e) => Err(e),
        }
    }

    /// Validate the complete record.
    pub fn validate(&self) -> (r: Result<(), ShortcutError>)
        ensures
            r is Ok <==> spec_shortcut_problem(*self) is None,
            r matches Err(e) ==> (spec_shortcut_problem(*self) matches Some(p) && reports(e, self.catalog@, self.tool@, p)),
    {
        if let Err(e) = validate_name(self.catalog.as_str()) {
            return Err(ShortcutError::InvalidCatalog(e));
        }
        if let Err(e) = validate_name(self.tool.as_str()) {
            return Err(ShortcutError::InvalidTool(e));
        }
        match &self.invocation {
            StoredInvocation::Legacy(legacy) => match relative_path(legacy.path.as_str()) {
                Ok(_) => Ok(()),
                Err(e) => Err(ShortcutError::Path(e)),
            },
            StoredInvocation::Recipe(recipe) => match recipe.validate() {
                Ok(()) => Ok(()),
                Err(e) => Err(ShortcutError::Recipe(e)),
            },
        }
    }

    /// The legacy invocation, if this shortcut has one.
    pub fn legacy(&self) -> (r: Option<&LegacyInvocation>)
        ensures
            r == (match self.invocation {
                StoredInvocation::Legacy(l) => Some(&l),
                StoredInvocation::Recipe(_) => None::<&LegacyInvocation>,
            }),
    {
        self.invocation.as_legacy()
    }

    /// Set the runner of a legacy shortcut; a recipe has no legacy runner.
    pub fn set_legacy_runner(&mut self, runner: Option<Runner>) -> (r: Result<(), ShortcutError>)
        ensures
            match old(self).invocation {
                StoredInvocation::Legacy(l) => r is Ok && final(self).invocation == StoredInvocation::Legacy(
                    LegacyInvocation { path: l.path, runner },
                ),
                StoredInvocation::Recipe(_) => r matches Err(ShortcutError::NotLegacy) && *final(self) == *old(self),
            },
            final(self).catalog == old(self).catalog,
            final(self).tool == old(self).tool,
            final(self).description == old(self).description,
            final(self).extra == old(self).extra,
    {
        let path = match self.invocation.as_legacy() {
            Some(legacy) => legacy.path.clone(),
            None => return Err(ShortcutError::NotLegacy),
        };
        self.invocation = StoredInvocation::legacy(path, runner);
        Ok(())
    }
}

/// The names of the shortcuts, in order.
pub open spec fn shortcut_keys(shortcuts: Seq<(String, Shortcut)>) -> Seq<Seq<char>> {
    shortcuts.map_values(|e: (String, Shortcut)| e.0@)
}

impl ShortcutFile {
    /// An empty file of the current version.
    pub fn new() -> (r: Self)
        ensures
            r.version == SHORTCUT_VERSION,
            r.shortcuts@.len() == 0,
            r.extra@.len() == 0,
    {
        ShortcutFile { version: SHORTCUT_VERSION, shortcuts: Vec::new(), extra: Vec::new() }
    }
}

/// The index of the first shortcut named `name`.
fn shortcut_position(shortcuts: &Vec<(String, Shortcut)>, name: &str) -> (r: Option<usize>)
    ensures
        r matches Some(i) ==> i < shortcuts.len() && shortcuts@[i as int].0@ == name@ && forall|j: int|
            0 <= j < i ==> shortcuts@[j].0@ != name@,
        r is None ==> forall|j: int| 0 <= j < shortcuts.len() ==> shortcuts@[j].0@ != name@,
{
    crate::config::position(shortcuts, name)
}

/// Add a new shortcut named `name` to the file; the name must be portable,
/// the record valid, and the name not yet used.
pub fn save(file: &mut ShortcutFile, name: &str, shortcut: Shortcut) -> (r: Result<(), ShortcutError>)
    ensures
        !spec_valid_name(name@) ==> (r matches Err(ShortcutError::InvalidName(e)) && e.name@ == name@),
        spec_valid_name(name@) && spec_shortcut_problem(shortcut) is Some ==> (r matches Err(e) && (
        spec_shortcut_problem(shortcut) matches Some(p) && reports(e, shortcut.catalog@, shortcut.tool@, p))),
        spec_valid_name(name@) && spec_shortcut_problem(shortcut) is None && shortcut_keys(old(file).shortcuts@).contains(
            name@,
        ) ==> (r matches Err(ShortcutError::AlreadyExists(n)) && n@ == name@),
        spec_valid_name(name@) && spec_shortcut_problem(shortcut) is None && !shortcut_keys(old(file).shortcuts@).contains(
            name@,
        ) ==> r is Ok,
        r is Ok ==> keyed(final(file).shortcuts@) == spec_insert(keyed(old(file).shortcuts@), name@, shortcut),
        keys_ascending(keyed(old(file).shortcuts@)) ==> keys_ascending(keyed(final(file).shortcuts@)),
        r is Err ==> *final(file) == *old(file),
        final(file).version == old(file).version,
        final(file).extra == old(file).extra,
{
    if let Err(e) = validate_name(name) {
        return Err(ShortcutError::InvalidName(e));
    }
    if let Err(e) = shortcut.validate() {
        return Err(e);
    }
    match shortcut_position(&file.shortcuts, name) {
        Some(i) => {
            assert(shortcut_keys(file.shortcuts@)[i as int] == name@);
            Err(ShortcutError::AlreadyExists(name.to_string()))
        },
        None => {
            assert(!shortcut_keys(file.shortcuts@).contains(name@));
            let ghost before = file.shortcuts@;
            let (i, found) = find_slot(&file.shortcuts, name);
            proof {
                if found {
                    let j = i as int;
                    lemma_position(keyed(before), name@);
                    assert(before[j].0@ == keyed(before)[j].0);
                }
                if keys_ascending(keyed(before)) {
                    lemma_insert_ascending(keyed(before), name@, shortcut);
                }
            }
            let key = name.to_string();
            let ghost entry = (key@, shortcut);
            file.shortcuts.insert(i, (key, shortcut));
            assert(keyed(file.shortcuts@) =~= keyed(before).insert(i as int, entry));
            Ok(())
        },
    }
}

/// Remove the one shortcut named `name`, keeping everything else of the file.
pub fn remove(file: &mut ShortcutFile, name: &str) -> (r: Result<(), ShortcutError>)
    ensures
        !spec_valid_name(name@) ==> (r matches Err(ShortcutError::InvalidName(e)) && e.name@ == name@),
        spec_valid_name(name@) && !shortcut_keys(old(file).shortcuts@).contains(name@) ==> (r matches Err(
            ShortcutError::Missing(n),
        ) && n@ == name@),
        spec_valid_name(name@) && shortcut_keys(old(file).shortcuts@).contains(name@) ==> r is Ok,
        r is Ok ==> exists|i: int|
            0 <= i < old(file).shortcuts@.len() && old(file).shortcuts@[i].0@ == name@ && (forall|j: int|
                0 <= j < i ==> old(file).shortcuts@[j].0@ != name@) && final(file).shortcuts@
                == old(file).shortcuts@.remove(i),
        r is Err ==> *final(file) == *old(file),
        keys_ascending(keyed(old(file).shortcuts@)) ==> keys_ascending(keyed(final(file).shortcuts@)),
        final(file).version == old(file).version,
        final(file).extra == old(file).extra,
{
    if let Err(e) = validate_name(name) {
        return Err(ShortcutError::InvalidName(e));
    }
    match shortcut_position(&file.shortcuts, name) {
        Some(i) => {
            assert(shortcut_keys(file.shortcuts@)[i as int] == name@);
            let ghost before = file.shortcuts@;
            let _removed = file.shortcuts.remove(i);
            assert(file.shortcuts@ == before.remove(i as int));
            proof {
                let (a, b) = (keyed(before), keyed(file.shortcuts@));
                if keys_ascending(a) {
                    assert forall|x: int, y: int| 0 <= x < y < b.len() implies lex_lt(
                        #[trigger] b[x].0,
                        #[trigger] b[y].0,
                    ) by {
                        let xo = if x < i { x } else { x + 1 };
                        let yo = if y < i { y } else { y + 1 };
                        assert(b[x] == a[xo] && b[y] == a[yo]);
                    }
                }
            }
            Ok(())
        },
        None => {
            assert(!shortcut_keys(file.shortcuts@).contains(name@)) by {
                if shortcut_keys(file.shortcuts@).contains(name@) {
                    let k = choose|k: int| 0 <= k < shortcut_keys(file.shortcuts@).len() && shortcut_keys(file.shortcuts@)[k] == name@;
                    assert(file.shortcuts@[k].0@ == name@);
                }
            }
            Err(ShortcutError::Missing(name.to_string()))
        },
    }
}

/// The shortcut names, each once, in ascending order.
pub fn shortcut_names(file: &ShortcutFile) -> (r: Vec<String>)
    ensures
        crate::config::strictly_sorted(views(r@)),
        forall|x: Seq<char>| views(r@).contains(x) <==> shortcut_keys(file.shortcuts@).contains(x),
{
    let mut names: Vec<String> = Vec::new();
    let mut i: usize = 0;
    while i < file.shortcuts.len()
        invariant
            i <= file.shortcuts.len(),
            views(names@) == shortcut_keys(file.shortcuts@).subrange(0, i as int),
        decreases file.shortcuts.len() - i,
    {
        proof {
            lemma_views_push(names@, file.shortcuts@[i as int].0);
        }
        names.push(file.shortcuts[i].0.clone());
        assert(shortcut_keys(file.shortcuts@).subrange(0, i + 1) =~= shortcut_keys(file.shortcuts@).subrange(
            0,
            i as int,
        ).push(file.shortcuts@[i as int].0@));
        i = i + 1;
    }
    assert(shortcut_keys(file.shortcuts@).subrange(0, file.shortcuts.len() as int) =~= shortcut_keys(
        file.shortcuts@,
    ));
    crate::config::sorted_names(&names)
}

/// The names, in order, that start with what was typed so far.
pub open spec fn spec_candidates(names: Seq<Seq<char>>, current: Seq<char>) -> Seq<Seq<char>>
    decreases names.len(),
{
    if names.len() == 0 {
        Seq::empty()
    } else if crate::text::spec_starts_with(names.last(), current) {
        spec_candidates(names.drop_last(), current).push(names.last())
    } else {
        spec_candidates(names.drop_last(), current)
    }
}

/// The shortcut names offered to complete `current`.
pub fn shortcut_candidates(file: &ShortcutFile, current: &str) -> (r: Vec<String>)
    ensures
        views(r@) == spec_candidates(shortcut_keys(file.shortcuts@), current@),
{
    let ghost names = shortcut_keys(file.shortcuts@);
    let prefix = chars_of(current);
    let mut r: Vec<String> = Vec::new();
    let mut i: usize = 0;
    assert(views(r@) =~= spec_candidates(names.subrange(0, 0), current@));
    while i < file.shortcuts.len()
        invariant
            i <= file.shortcuts.len(),
            names == shortcut_keys(file.shortcuts@),
            prefix@ == current@,
            views(r@) == spec_candidates(names.subrange(0, i as int), current@),
        decreases file.shortcuts.len() - i,
    {
        let ghost next = names.subrange(0, i + 1);
        assert(next.drop_last() =~= names.subrange(0, i as int));
        assert(next.last() == file.shortcuts@[i as int].0@);
        if crate::text::starts_with(&chars_of(file.shortcuts[i].0.as_str()), &prefix) {
            proof {
                lemma_views_push(r@, file.shortcuts@[i as int].0);
            }
            r.push(file.shortcuts[i].0.clone());
        }
        i = i + 1;
    }
    assert(names.subrange(0, file.shortcuts.len() as int) =~= names);
    r
}

/// `spec_find` gives the first position of the character.
proof fn lemma_find_first(s: Seq<char>, c: char, i: int)
    requires
        0 <= i < s.len(),
        s[i] == c,
        forall|j: int| 0 <= j < i ==> s[j] != c,
    ensures
        spec_find(s, c) == Some(i),
{
    assert(s.contains(c));
    let k = choose|k: int| 0 <= k < s.len() && s[k] == c && forall|j: int| 0 <= j < k ==> s[j] != c;
    if k < i {
        assert(s[k] != c);
    } else if i < k {
        assert(s[i] != c);
    }
}

/// A text without the separator is its only piece.
proof fn lemma_split_whole(s: Seq<char>, c: char)
    requires
        !s.contains(c),
    ensures
        spec_split(s, c) == seq![s],
{
}

/// The pieces of a text, then the separator and a piece without it.
proof fn lemma_split_snoc(a: Seq<char>, b: Seq<char>)
    requires
        !b.contains('/'),
    ensures
        spec_split(a + "/"@ + b, '/') == spec_split(a, '/').push(b),
    decreases a.len(),
{
    reveal_strlit("/");
    let s = a + "/"@ + b;
    assert(s[a.len() as int] == '/');
    assert(s.subrange(a.len() as int + 1, s.len() as int) =~= b);
    if !a.contains('/') {
        assert forall|j: int| 0 <= j < a.len() implies s[j] != '/' by {
            assert(s[j] == a[j]);
        }
        lemma_find_first(s, '/', a.len() as int);
        assert(s.subrange(0, a.len() as int) =~= a);
        lemma_split_whole(b, '/');
        lemma_split_whole(a, '/');
        assert(spec_split(s, '/') =~= seq![a] + seq![b]);
        assert(seq![a] + seq![b] =~= seq![a].push(b));
    } else {
        let i = choose|i: int| 0 <= i < a.len() && a[i] == '/' && forall|j: int| 0 <= j < i ==> a[j] != '/';
        assert(exists|i: int| 0 <= i < a.len() && a[i] == '/' && forall|j: int| 0 <= j < i ==> a[j] != '/') by {
            let k = choose|k: int| 0 <= k < a.len() && a[k] == '/';
            crate::git::lemma_first_occurrence(a, '/', k);
        }
        lemma_find_first(a, '/', i);
        assert forall|j: int| 0 <= j < i implies s[j] != '/' by {
            assert(s[j] == a[j]);
        }
        assert(s[i] == a[i]);
        lemma_find_first(s, '/', i);
        let rest = a.subrange(i + 1, a.len() as int);
        assert(s.subrange(i + 1, s.len() as int) =~= rest + "/"@ + b);
        assert(s.subrange(0, i) =~= a.subrange(0, i));
        lemma_split_snoc(rest, b);
        assert(spec_split(s, '/') == seq![a.subrange(0, i)] + spec_split(rest, '/').push(b));
        assert(spec_split(a, '/') == seq![a.subrange(0, i)] + spec_split(rest, '/'));
        assert(seq![a.subrange(0, i)] + spec_split(rest, '/').push(b) =~= (seq![a.subrange(0, i)] + spec_split(
            rest,
            '/',
        )).push(b));
    }
}

/// Pieces without the separator, joined by it, split back into themselves.
proof fn lemma_split_join(parts: Seq<Seq<char>>)
    requires
        parts.len() > 0,
        forall|k: int| 0 <= k < parts.len() ==> !(#[trigger] parts[k]).contains('/'),
    ensures
        spec_split(spec_join_slash(parts), '/') == parts,
    decreases parts.len(),
{
    if parts.len() == 1 {
        lemma_split_whole(parts[0], '/');
        assert(seq![parts[0]] =~= parts);
    } else {
        let init = parts.drop_last();
        assert forall|k: int| 0 <= k < init.len() implies !(#[trigger] init[k]).contains('/') by {
            assert(init[k] == parts[k]);
        }
        lemma_split_join(init);
        assert(!parts[parts.len() - 1].contains('/'));
        lemma_split_snoc(spec_join_slash(init), parts.last());
        assert(init.push(parts.last()) =~= parts);
    }
}

/// Joining a first piece before the others puts one separator between them.
proof fn lemma_join_cons(h: Seq<char>, t: Seq<Seq<char>>)
    requires
        t.len() > 0,
    ensures
        spec_join_slash(seq![h] + t) == h + "/"@ + spec_join_slash(t),
    decreases t.len(),
{
    let whole = seq![h] + t;
    assert(spec_join_slash(whole) == spec_join_slash(whole.drop_last()) + "/"@ + whole.last());
    if t.len() == 1 {
        assert(whole.drop_last() =~= seq![h]);
        assert(whole.last() == t[0]);
        assert(spec_join_slash(seq![h]) == h);
        assert(spec_join_slash(t) == t[0]);
    } else {
        assert(whole.drop_last() =~= seq![h] + t.drop_last());
        lemma_join_cons(h, t.drop_last());
        assert(whole.last() == t.last());
        assert(spec_join_slash(t) == spec_join_slash(t.drop_last()) + "/"@ + t.last());
        assert(h + "/"@ + spec_join_slash(t.drop_last()) + "/"@ + t.last() =~= h + "/"@ + (spec_join_slash(
            t.drop_last(),
        ) + "/"@ + t.last()));
    }
}

/// Splitting gives at least one piece.
proof fn lemma_split_nonempty(v: Seq<char>, c: char)
    ensures
        spec_split(v, c).len() > 0,
    decreases v.len(),
{
    match spec_find(v, c) {
        Some(i) => if 0 <= i < v.len() {
            lemma_split_nonempty(v.subrange(i + 1, v.len() as int), c);
        },
        None => {},
    }
}

/// Where `spec_find` finds the character, it is the first occurrence.
proof fn lemma_find_is_first(v: Seq<char>, c: char)
    requires
        v.contains(c),
    ensures
        spec_find(v, c) matches Some(i) && 0 <= i < v.len() && v[i] == c && forall|j: int| 0 <= j < i ==> v[j] != c,
{
    let k = choose|k: int| 0 <= k < v.len() && v[k] == c;
    crate::git::lemma_first_occurrence(v, c, k);
}

/// The pieces of a text, joined by the separator, give the text back.
#[verifier::spinoff_prover]
proof fn lemma_join_split(v: Seq<char>)
    ensures
        spec_join_slash(spec_split(v, '/')) == v,
    decreases v.len(),
{
    reveal_strlit("/");
    if !v.contains('/') {
        lemma_split_whole(v, '/');
    } else {
        lemma_find_is_first(v, '/');
        let i = spec_find(v, '/')->Some_0;
        let head = v.subrange(0, i);
        let rest = v.subrange(i + 1, v.len() as int);
        let pieces = spec_split(rest, '/');
        assert(spec_split(v, '/') == seq![head] + pieces);
        lemma_join_split(rest);
        lemma_split_nonempty(rest, '/');
        lemma_join_cons(head, pieces);
        assert(head + "/"@ + rest =~= v) by {
            assert("/"@ =~= seq!['/']);
        }
    }
}

/// No piece holds a character that the text does not hold.
proof fn lemma_split_excludes(v: Seq<char>, c: char, x: char)
    requires
        !v.contains(x),
    ensures
        forall|k: int| 0 <= k < spec_split(v, c).len() ==> !(#[trigger] spec_split(v, c)[k]).contains(x),
    decreases v.len(),
{
    match spec_find(v, c) {
        Some(i) => if 0 <= i < v.len() {
            let rest = v.subrange(i + 1, v.len() as int);
            assert(!rest.contains(x)) by {
                if rest.contains(x) {
                    let k = choose|k: int| 0 <= k < rest.len() && rest[k] == x;
                    assert(v[i + 1 + k] == x);
                }
            }
            assert(!v.subrange(0, i).contains(x)) by {
                if v.subrange(0, i).contains(x) {
                    let k = choose|k: int| 0 <= k < i && v.subrange(0, i)[k] == x;
                    assert(v[k] == x);
                }
            }
            lemma_split_excludes(rest, c, x);
            let parts = spec_split(v, c);
            assert forall|k: int| 0 <= k < parts.len() implies !(#[trigger] parts[k]).contains(x) by {
                if k > 0 {
                    assert(parts[k] == spec_split(rest, c)[k - 1]);
                }
            }
        } else {
            assert(seq![v][0] == v);
        },
        None => {
            assert(seq![v][0] == v);
        },
    }
}

/// No piece holds the separator.
proof fn lemma_split_lacks_separator(v: Seq<char>, c: char)
    ensures
        forall|k: int| 0 <= k < spec_split(v, c).len() ==> !(#[trigger] spec_split(v, c)[k]).contains(c),
    decreases v.len(),
{
    if !v.contains(c) {
        lemma_split_whole(v, c);
        assert(seq![v][0] == v);
    } else {
        lemma_find_is_first(v, c);
        let i = spec_find(v, c)->Some_0;
        let rest = v.subrange(i + 1, v.len() as int);
        lemma_split_lacks_separator(rest, c);
        assert(!v.subrange(0, i).contains(c)) by {
            if v.subrange(0, i).contains(c) {
                let k = choose|k: int| 0 <= k < i && v.subrange(0, i)[k] == c;
                assert(v[k] == c);
            }
        }
        let parts = spec_split(v, c);
        assert(parts == seq![v.subrange(0, i)] + spec_split(rest, c));
        assert forall|k: int| 0 <= k < parts.len() implies !(#[trigger] parts[k]).contains(c) by {
            if k > 0 {
                assert(parts[k] == spec_split(rest, c)[k - 1]);
            }
        }
    }
}

/// The normal components of a path, one text per component.
proof fn lemma_normal_parts(components: Seq<PathComponent>)
    requires
        spec_normal_components(components) is Ok,
    ensures
        spec_normal_components(components)->Ok_0.len() == components.len(),
        forall|k: int|
            0 <= k < components.len() ==> (#[trigger] components[k] matches PathComponent::Normal(n) && n@
                == spec_normal_components(components)->Ok_0[k]),
        forall|k: int|
            0 <= k < components.len() ==> !unportable_text(#[trigger] spec_normal_components(components)->Ok_0[k]),
    decreases components.len(),
{
    if components.len() > 0 {
        let tail = components.drop_first();
        lemma_normal_parts(tail);
        let parts = spec_normal_components(components)->Ok_0;
        assert forall|k: int| 0 <= k < components.len() implies (#[trigger] components[k] matches PathComponent::Normal(
            n,
        ) && n@ == parts[k]) by {
            if k > 0 {
                assert(components[k] == tail[k - 1]);
            }
        }
    }
}

/// Normal components whose texts are portable give exactly those texts.
proof fn lemma_parts_normal(components: Seq<PathComponent>, parts: Seq<Seq<char>>)
    requires
        components.len() == parts.len(),
        forall|k: int|
            0 <= k < components.len() ==> (#[trigger] components[k] matches PathComponent::Normal(n) && n@
                == parts[k]),
        forall|k: int| 0 <= k < parts.len() ==> !unportable_text(#[trigger] parts[k]),
    ensures
        spec_normal_components(components) == Ok::<Seq<Seq<char>>, ShortcutPathError>(parts),
    decreases components.len(),
{
    if components.len() > 0 {
        let tail = components.drop_first();
        let rest = parts.drop_first();
        assert forall|k: int| 0 <= k < tail.len() implies (#[trigger] tail[k] matches PathComponent::Normal(n) && n@
            == rest[k]) by {
            assert(tail[k] == components[k + 1]);
        }
        assert forall|k: int| 0 <= k < rest.len() implies !unportable_text(#[trigger] rest[k]) by {
            assert(rest[k] == parts[k + 1]);
        }
        assert(!unportable_text(parts[0]));
        lemma_parts_normal(tail, rest);
        assert(components[0] matches PathComponent::Normal(n) && n@ == parts[0]);
        assert(seq![parts[0]] + rest =~= parts);
    } else {
        assert(parts =~= seq![]);
    }
}

/// A portable path reads back as the components it was made from: the
/// portable form of a native relative path is a valid relative path whose
/// components are exactly the path's own.
pub proof fn lemma_portable_path_reads_back(components: Seq<PathComponent>)
    requires
        spec_portable_path(components) is Ok,
    ensures
        spec_normal_components(components) is Ok,
        spec_relative_path(spec_portable_path(components)->Ok_0) == spec_normal_components(components),
{
    reveal_strlit("/");
    let parts = spec_normal_components(components)->Ok_0;
    lemma_normal_parts(components);
    let value = spec_join_slash(parts);
    assert(spec_relative_path(value) is Ok);
    if parts.len() == 0 {
        assert(value.len() == 0);
    }
    assert forall|k: int| 0 <= k < parts.len() implies !(#[trigger] parts[k]).contains('/') by {
        assert(!unportable_text(parts[k]));
    }
    lemma_split_join(parts);
}

/// A portable relative path is its own portable form: its components, taken
/// as normal components of a native path, join back into the same text.
pub proof fn lemma_relative_path_round_trips(value: Seq<char>, components: Seq<PathComponent>)
    requires
        spec_relative_path(value) is Ok,
        components.len() == spec_relative_path(value)->Ok_0.len(),
        forall|k: int|
            0 <= k < components.len() ==> (#[trigger] components[k] matches PathComponent::Normal(n) && n@
                == spec_relative_path(value)->Ok_0[k]),
    ensures
        spec_portable_path(components) == Ok::<Seq<char>, ShortcutPathError>(value),
{
    let parts = spec_split(value, '/');
    assert(spec_relative_path(value)->Ok_0 == parts);
    lemma_split_excludes(value, '/', '\\');
    lemma_split_excludes(value, '/', ':');
    lemma_split_lacks_separator(value, '/');
    assert forall|k: int| 0 <= k < parts.len() implies !unportable_text(#[trigger] parts[k]) by {
        assert(!parts[k].contains('\\') && !parts[k].contains(':') && !parts[k].contains('/'));
    }
    lemma_parts_normal(components, parts);
    lemma_join_split(value);
}

} // verus!
