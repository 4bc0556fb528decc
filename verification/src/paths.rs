//! Loadbot's locations under one root, and portable-name validation.
//!
//! Paths are strings with `/` as separator; the caller supplies the root.
use vstd::prelude::*;

use crate::text::{
    all_alnum_or, all_alnum_or_exec, chars_of, code, concat, eq, spec_starts_with, string_of,
    upper, upper_code,
};

verus! {

/// A name that is not a portable tool, catalog, shortcut or command name.
#[derive(Debug, Clone, PartialEq, Eq)]
pub struct NameError {
    pub name: String,
}

/// `s` equals the upper-case `lit` after ASCII upper-casing.
pub open spec fn upper_eq(s: Seq<char>, lit: Seq<char>) -> bool {
    s.len() == lit.len() && forall|i: int| 0 <= i < s.len() ==> upper_code(#[trigger] s[i]) == code(
        lit[i],
    )
}

/// The text before the first `.`, or all of it.
pub open spec fn stem(name: Seq<char>) -> Seq<char> {
    if name.contains('.') {
        let i = choose|i: int| 0 <= i < name.len() && name[i] == '.' && forall|j: int| 0 <= j < i ==> name[j] != '.';
        name.subrange(0, i)
    } else {
        name
    }
}

/// A Windows device name such as `CON`, `nul` or `COM1`, before any extension.
pub open spec fn spec_is_windows_reserved(name: Seq<char>) -> bool {
    let s = stem(name);
    ||| upper_eq(s, "CON"@)
    ||| upper_eq(s, "PRN"@)
    ||| upper_eq(s, "AUX"@)
    ||| upper_eq(s, "NUL"@)
    ||| (s.len() == 4 && (upper_eq(s.subrange(0, 3), "COM"@) || upper_eq(s.subrange(0, 3), "LPT"@))
        && 49 <= code(s[3]) <= 57)
}

/// A conservative portable name: non-empty ASCII letters, digits, `_`, `-` and
/// `.`, not `.` or `..`, not ending in `.`, and not a Windows device name.
pub open spec fn spec_valid_name(name: Seq<char>) -> bool {
    &&& name.len() > 0
    &&& name != "."@
    &&& name != ".."@
    &&& name.last() != '.'
    &&& all_alnum_or(name, "_-."@)
    &&& !spec_is_windows_reserved(name)
}

fn upper_eq_exec(s: &Vec<char>, lit: &Vec<char>) -> (r: bool)
    ensures
        r == upper_eq(s@, lit@),
{
    if s.len() != lit.len() {
        return false;
    }
    let mut i: usize = 0;
    while i < s.len()
        invariant
            s.len() == lit.len(),
            i <= s.len(),
            forall|j: int| 0 <= j < i ==> upper_code(#[trigger] s@[j]) == code(lit@[j]),
        decreases s.len() - i,
    {
        if upper(s[i]) != lit[i] as u32 {
            return false;
        }
        i = i + 1;
    }
    true
}

fn stem_exec(name: &Vec<char>) -> (r: Vec<char>)
    ensures
        r@ == stem(name@),
{
    match crate::text::find(name, '.') {
        Some(i) => {
            proof {
                let k = choose|k: int|
                    0 <= k < name@.len() && name@[k] == '.' && forall|j: int| 0 <= j < k ==> name@[j] != '.';
                if k < i {
                    assert(name@[k] != '.');
                }
                if k > i {
                    assert(name@[i as int] != '.');
                }
            }
            crate::text::subvec(name, 0, i)
        },
        None => name.clone(),
    }
}

/// Whether the name is a Windows device name before any extension.
pub fn is_windows_reserved(name: &str) -> (r: bool)
    ensures
        r == spec_is_windows_reserved(name@),
{
    let s = stem_exec(&chars_of(name));
    if upper_eq_exec(&s, &chars_of("CON")) || upper_eq_exec(&s, &chars_of("PRN")) || upper_eq_exec(
        &s,
        &chars_of("AUX"),
    ) || upper_eq_exec(&s, &chars_of("NUL")) {
        return true;
    }
    if s.len() == 4 {
        let head = crate::text::subvec(&s, 0, 3);
        if upper_eq_exec(&head, &chars_of("COM")) || upper_eq_exec(&head, &chars_of("LPT")) {
            let n = s[3] as u32;
            return 49 <= n && n <= 57;
        }
    }
    false
}

/// Accept only conservative portable names.
pub fn validate_name(name: &str) -> (r: Result<(), NameError>)
    ensures
        r is Ok <==> spec_valid_name(name@),
        r matches Err(e) ==> e.name@ == name@,
{
    let n = chars_of(name);
    let valid = n.len() > 0 && !eq(&n, &chars_of(".")) && !eq(&n, &chars_of("..")) && n[n.len()
        - 1] != '.' && all_alnum_or_exec(&n, &chars_of("_-.")) && !is_windows_reserved(name);
    if valid {
        Ok(())
    } else {
        Err(NameError { name: string_of(&n) })
    }
}

/// `base` joined with `part`, as `Path::join` does with `/` separators: an
/// absolute `part` replaces `base`, and no separator is doubled.
pub open spec fn spec_join(base: Seq<char>, part: Seq<char>) -> Seq<char> {
    if spec_starts_with(part, "/"@) || base.len() == 0 {
        part
    } else if base.last() == '/' {
        base + part
    } else {
        base + "/"@ + part
    }
}

/// `base` joined with `part`.
pub fn join(base: &str, part: &str) -> (r: String)
    ensures
        r@ == spec_join(base@, part@),
{
    let b = chars_of(base);
    let p = chars_of(part);
    if crate::text::starts_with(&p, &chars_of("/")) || b.len() == 0 {
        return string_of(&p);
    }
    if b[b.len() - 1] == '/' {
        return string_of(&concat(&b, &p));
    }
    string_of(&concat(&concat(&b, &chars_of("/")), &p))
}

/// Loadbot's data locations below one root directory.
#[derive(Debug, Clone)]
pub struct Paths {
    root: String,
}

impl Paths {
    pub closed spec fn spec_root(&self) -> Seq<char> {
        self.root@
    }

    /// Paths below the given root.
    pub fn with_root(root: String) -> (r: Self)
        ensures
            r.spec_root() == root@,
    {
        Paths { root }
    }

    /// The root directory.
    pub fn root(&self) -> (r: String)
        ensures
            r@ == self.spec_root(),
    {
        self.root.clone()
    }

    /// `<root>/config.toml`.
    pub fn config(&self) -> (r: String)
        ensures
            r@ == spec_join(self.spec_root(), "config.toml"@),
    {
        join(self.root.as_str(), "config.toml")
    }

    /// `<root>/tools`.
    pub fn tools(&self) -> (r: String)
        ensures
            r@ == spec_join(self.spec_root(), "tools"@),
    {
        join(self.root.as_str(), "tools")
    }

    /// `<root>/catalogs`.
    pub fn catalogs(&self) -> (r: String)
        ensures
            r@ == spec_join(self.spec_root(), "catalogs"@),
    {
        join(self.root.as_str(), "catalogs")
    }

    /// `<root>/catalogs/<name>`.
    pub fn catalog(&self, name: &str) -> (r: String)
        ensures
            r@ == spec_join(spec_join(self.spec_root(), "catalogs"@), name@),
    {
        join(self.catalogs().as_str(), name)
    }

    /// `<root>/catalogs/<name>/catalog.toml`.
    pub fn catalog_file(&self, name: &str) -> (r: String)
        ensures
            r@ == spec_join(
                spec_join(spec_join(self.spec_root(), "catalogs"@), name@),
                "catalog.toml"@,
            ),
    {
        join(self.catalog(name).as_str(), "catalog.toml")
    }

    /// `<root>/tools/<catalog>/<name>`, for portable catalog and tool names only.
    pub fn tool(&self, catalog: &str, name: &str) -> (r: Result<String, NameError>)
        ensures
            !spec_valid_name(catalog@) ==> (r matches Err(e) && e.name@ == catalog@),
            spec_valid_name(catalog@) && !spec_valid_name(name@) ==> (r matches Err(e) && e.name@
                == name@),
            spec_valid_name(catalog@) && spec_valid_name(name@) ==> (r matches Ok(p) && p@
                == spec_join(spec_join(spec_join(self.spec_root(), "tools"@), catalog@), name@)),
    {
        validate_name(catalog)?;
        validate_name(name)?;
        Ok(join(join(self.tools().as_str(), catalog).as_str(), name))
    }
}


/// The message for a name that `validate_name` rejects.
pub open spec fn spec_name_message(name: Seq<char>) -> Seq<char> {
    "invalid tool name '"@ + name + "': use only ASCII letters, numbers, '_', '-', and '.'"@
}

/// The message for a name that `validate_name` rejects.
pub fn name_message(name: &str) -> (r: String)
    ensures
        r@ == spec_name_message(name@),
{
    crate::text::cat3("invalid tool name '", name, "': use only ASCII letters, numbers, '_', '-', and '.'")
}

impl NameError {
    /// The message for the rejected name.
    pub fn message(&self) -> (r: String)
        ensures
            r@ == spec_name_message(self.name@),
    {
        name_message(self.name.as_str())
    }
}

} // verus!
