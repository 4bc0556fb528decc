//! Git repository identity, URL transports, and the decisions around Git commands.
//!
//! Running Git is the caller's part: functions here build the exact argument
//! lists, interpret what Git printed, and decide what happens next.
use vstd::prelude::*;

use crate::text::{
    code, find, is_ascii_digit, spec_contains_lowered, spec_find, spec_is_ascii_digit, contains_lowered, concat,
    all_alnum_or, all_alnum_or_exec, chars_of, contains_char, eq, eq_ignore_ascii_case, push_all,
    spec_eq_ignore_ascii_case, spec_split_once, spec_starts_with, spec_strip_prefix,
    spec_strip_suffix, spec_trim, spec_trim_end_char, split_once, starts_with, string_of,
    strip_prefix, strip_suffix, subvec, trim, trim_end_char,
};

verus! {

use crate::interaction::{
    identity_answer, is_cancellation, is_message, Consulted, Decision, ErrorLayer, Interaction, LayerView, OperationError,
};

/// Sequence views of a list of strings.
pub open spec fn views(v: Seq<String>) -> Seq<Seq<char>> {
    v.map_values(|s: String| s@)
}

pub proof fn lemma_views_push(s: Seq<String>, x: String)
    ensures
        views(s.push(x)) == views(s).push(x@),
{
    assert(views(s.push(x)) =~= views(s).push(x@));
}

/// An owner and repository name on GitHub.
#[derive(Debug, Clone, PartialEq, Eq)]
pub struct GitHubRepository {
    pub owner: String,
    pub name: String,
}

impl View for GitHubRepository {
    type V = (Seq<char>, Seq<char>);

    open spec fn view(&self) -> (Seq<char>, Seq<char>) {
        (self.owner@, self.name@)
    }
}

pub open spec fn opt_repo_view(r: Option<GitHubRepository>) -> Option<(Seq<char>, Seq<char>)> {
    match r {
        Some(r) => Some(r@),
        None => None,
    }
}

pub open spec fn opt_string_view(r: Option<String>) -> Option<Seq<char>> {
    match r {
        Some(r) => Some(r@),
        None => None,
    }
}

/// `url` with surrounding whitespace, trailing slashes, and one `.git` suffix removed.
pub open spec fn spec_normalize_url(url: Seq<char>) -> Seq<char> {
    let normalized = spec_trim_end_char(spec_trim(url), '/');
    match spec_strip_suffix(normalized, ".git"@) {
        Some(stripped) => stripped,
        None => normalized,
    }
}

/// The owner and name in an `owner/name[.git][/]` repository path.
pub open spec fn spec_repository_path(path: Seq<char>) -> Option<(Seq<char>, Seq<char>)> {
    let trimmed = spec_trim_end_char(path, '/');
    let bare = match spec_strip_suffix(trimmed, ".git"@) {
        Some(stripped) => stripped,
        None => trimmed,
    };
    match spec_split_once(bare, '/') {
        Some((owner, name)) => if owner.len() == 0 || name.len() == 0 || name.contains('/') {
            None
        } else {
            Some((owner, name))
        },
        None => None,
    }
}

/// The GitHub repository named by an approved transport: HTTPS and SSH on
/// `github.com` (SSH without a port), or SSH through one of `aliases`.
pub open spec fn spec_repository_identity(url: Seq<char>, aliases: Seq<Seq<char>>) -> Option<
    (Seq<char>, Seq<char>),
> {
    if spec_starts_with(url, "https://github.com/"@) {
        spec_repository_path(url.subrange("https://github.com/"@.len() as int, url.len() as int))
    } else if spec_starts_with(url, "git@github.com:"@) {
        spec_repository_path(url.subrange("git@github.com:"@.len() as int, url.len() as int))
    } else if spec_starts_with(url, "ssh://git@github.com/"@) {
        let path = url.subrange("ssh://git@github.com/"@.len() as int, url.len() as int);
        if path.contains(':') {
            None
        } else {
            spec_repository_path(path)
        }
    } else if spec_starts_with(url, "git@"@) {
        match spec_split_once(url.subrange(4, url.len() as int), ':') {
            Some((host, path)) => if aliases.contains(host) {
                spec_repository_path(path)
            } else {
                None
            },
            None => None,
        }
    } else {
        None
    }
}

/// A usable SSH host alias: non-empty ASCII letters, digits, `.`, `_`, and `-`.
pub open spec fn spec_valid_ssh_alias(alias: Seq<char>) -> bool {
    alias.len() > 0 && all_alnum_or(alias, "._-"@)
}

/// An SSH URL through an unverified host alias that could name a GitHub repository.
pub open spec fn spec_alias_candidate(url: Seq<char>) -> Option<(Seq<char>, Seq<char>)> {
    if spec_starts_with(url, "git@"@) {
        match spec_split_once(url.subrange(4, url.len() as int), ':') {
            Some((host, path)) => if host != "github.com"@ && spec_valid_ssh_alias(host) {
                spec_repository_path(path)
            } else {
                None
            },
            None => None,
        }
    } else {
        None
    }
}

/// Case-insensitive equality of owner and repository name.
pub open spec fn same_repository(
    a: Option<(Seq<char>, Seq<char>)>,
    b: Option<(Seq<char>, Seq<char>)>,
) -> bool {
    match (a, b) {
        (Some(a), Some(b)) => spec_eq_ignore_ascii_case(a.0, b.0) && spec_eq_ignore_ascii_case(
            a.1,
            b.1,
        ),
        _ => false,
    }
}

pub open spec fn identity_or_candidate(url: Seq<char>) -> Option<(Seq<char>, Seq<char>)> {
    match spec_repository_identity(url, seq![]) {
        Some(r) => Some(r),
        None => spec_alias_candidate(url),
    }
}

pub open spec fn spec_urls_may_match_verified_alias(actual: Seq<char>, configured: Seq<char>) -> bool {
    same_repository(identity_or_candidate(actual), identity_or_candidate(configured))
}

pub open spec fn spec_https_repository(url: Seq<char>) -> Option<(Seq<char>, Seq<char>)> {
    match spec_strip_prefix(url, "https://github.com/"@) {
        Some(path) => spec_repository_path(path),
        None => None,
    }
}

/// The HTTPS read URL for a canonical GitHub SSH URL whose owner and name are plain.
pub open spec fn spec_https_read_url(url: Seq<char>) -> Option<Seq<char>> {
    if spec_starts_with(url, "https://github.com/"@) {
        None
    } else {
        match spec_repository_identity(url, seq![]) {
            Some((owner, name)) => if all_alnum_or(owner, "-"@) && all_alnum_or(name, "-_."@) {
                Some("https://github.com/"@ + owner + "/"@ + name + ".git"@)
            } else {
                None
            },
            None => None,
        }
    }
}

pub open spec fn spec_same_identity(
    actual: Seq<char>,
    configured: Seq<char>,
    aliases: Seq<Seq<char>>,
) -> bool {
    same_repository(
        spec_repository_identity(actual, aliases),
        spec_repository_identity(configured, aliases),
    )
}

pub open spec fn spec_urls_match(actual: Seq<char>, configured: Seq<char>) -> bool {
    spec_normalize_url(actual) == spec_normalize_url(configured) || spec_same_identity(
        actual,
        configured,
        seq![],
    )
}

pub open spec fn spec_ssh_push_url(canonical: Seq<char>, alias: Seq<char>) -> Option<Seq<char>> {
    match spec_https_repository(canonical) {
        Some((owner, name)) => if spec_valid_ssh_alias(alias) {
            Some("git@"@ + alias + ":"@ + owner + "/"@ + name + ".git"@)
        } else {
            None
        },
        None => None,
    }
}

pub open spec fn spec_runtime_url_rewrite(canonical: Seq<char>, alias: Seq<char>) -> Option<
    Seq<char>,
> {
    match spec_strip_prefix(canonical, "git@github.com:"@) {
        Some(path) if path.len() > 0 => Some(
            "url.git@"@ + alias + ":"@ + path + ".insteadOf="@ + canonical,
        ),
        _ => match spec_strip_prefix(canonical, "ssh://git@github.com/"@) {
            Some(path) if path.len() > 0 => Some(
                "url.ssh://git@"@ + alias + "/"@ + path + ".insteadOf="@ + canonical,
            ),
            _ => None,
        },
    }
}

/// Strip surrounding whitespace, trailing slashes and one `.git` suffix.
pub fn normalize_url(url: &str) -> (r: String)
    ensures
        r@ == spec_normalize_url(url@),
{
    let normalized = trim_end_char(&trim(&chars_of(url)), '/');
    match strip_suffix(&normalized, &chars_of(".git")) {
        Some(stripped) => string_of(&stripped),
        None => string_of(&normalized),
    }
}

fn repository_path_chars(path: &Vec<char>) -> (r: Option<GitHubRepository>)
    ensures
        opt_repo_view(r) == spec_repository_path(path@),
{
    let trimmed = trim_end_char(path, '/');
    let bare = match strip_suffix(&trimmed, &chars_of(".git")) {
        Some(stripped) => stripped,
        None => trimmed,
    };
    match split_once(&bare, '/') {
        Some((owner, name)) => {
            if owner.len() == 0 || name.len() == 0 || contains_char(&name, '/') {
                None
            } else {
                Some(GitHubRepository { owner: string_of(&owner), name: string_of(&name) })
            }
        },
        None => None,
    }
}

/// Parse `owner/name` (optionally ending in `.git` and slashes) into a repository.
pub fn github_repository_path(path: &str) -> (r: Option<GitHubRepository>)
    ensures
        opt_repo_view(r) == spec_repository_path(path@),
{
    repository_path_chars(&chars_of(path))
}

fn contains_view(list: &Vec<String>, item: &Vec<char>) -> (r: bool)
    ensures
        r == views(list@).contains(item@),
{
    let mut i: usize = 0;
    while i < list.len()
        invariant
            i <= list.len(),
            forall|j: int| 0 <= j < i ==> list@[j]@ != item@,
        decreases list.len() - i,
    {
        if eq(&chars_of(list[i].as_str()), item) {
            assert(views(list@)[i as int] == item@);
            return true;
        }
        i = i + 1;
    }
    proof {
        if views(list@).contains(item@) {
            let k = choose|k: int| 0 <= k < views(list@).len() && views(list@)[k] == item@;
            assert(list@[k]@ == item@);
        }
    }
    false
}

/// The repository named by an approved GitHub transport or verified SSH alias.
pub fn github_repository_identity(url: &str, verified_aliases: &Vec<String>) -> (r: Option<
    GitHubRepository,
>)
    ensures
        opt_repo_view(r) == spec_repository_identity(url@, views(verified_aliases@)),
{
    let url = chars_of(url);
    let https = chars_of("https://github.com/");
    let scp = chars_of("git@github.com:");
    let ssh = chars_of("ssh://git@github.com/");
    let git_at = chars_of("git@");
    proof {
        reveal_strlit("git@");
    }
    if starts_with(&url, &https) {
        return repository_path_chars(&subvec(&url, https.len(), url.len()));
    }
    if starts_with(&url, &scp) {
        return repository_path_chars(&subvec(&url, scp.len(), url.len()));
    }
    if starts_with(&url, &ssh) {
        let path = subvec(&url, ssh.len(), url.len());
        if contains_char(&path, ':') {
            return None;
        }
        return repository_path_chars(&path);
    }
    if starts_with(&url, &git_at) {
        match split_once(&subvec(&url, 4, url.len()), ':') {
            Some((host, path)) => {
                if contains_view(verified_aliases, &host) {
                    return repository_path_chars(&path);
                }
                return None;
            },
            None => return None,
        }
    }
    None
}

/// Whether `alias` is a non-empty run of ASCII letters, digits, `.`, `_`, and `-`.
pub fn valid_ssh_alias(alias: &str) -> (r: bool)
    ensures
        r == spec_valid_ssh_alias(alias@),
{
    let a = chars_of(alias);
    a.len() > 0 && all_alnum_or_exec(&a, &chars_of("._-"))
}

/// An SSH URL through an unverified host alias that may name a GitHub repository.
pub fn github_alias_candidate(url: &str) -> (r: Option<GitHubRepository>)
    ensures
        opt_repo_view(r) == spec_alias_candidate(url@),
{
    let url = chars_of(url);
    let git_at = chars_of("git@");
    proof {
        reveal_strlit("git@");
    }
    if !starts_with(&url, &git_at) {
        return None;
    }
    match split_once(&subvec(&url, 4, url.len()), ':') {
        Some((host, path)) => {
            let host_str = string_of(&host);
            if !eq(&host, &chars_of("github.com")) && valid_ssh_alias(host_str.as_str()) {
                repository_path_chars(&path)
            } else {
                None
            }
        },
        None => None,
    }
}

fn same_repository_exec(a: &Option<GitHubRepository>, b: &Option<GitHubRepository>) -> (r: bool)
    ensures
        r == same_repository(opt_repo_view(*a), opt_repo_view(*b)),
{
    match (a, b) {
        (Some(a), Some(b)) => eq_ignore_ascii_case(
            &chars_of(a.owner.as_str()),
            &chars_of(b.owner.as_str()),
        ) && eq_ignore_ascii_case(&chars_of(a.name.as_str()), &chars_of(b.name.as_str())),
        _ => false,
    }
}

fn identity_or_candidate_exec(url: &str) -> (r: Option<GitHubRepository>)
    ensures
        opt_repo_view(r) == identity_or_candidate(url@),
{
    let none: Vec<String> = Vec::new();
    assert(views(none@) =~= seq![]);
    match github_repository_identity(url, &none) {
        Some(r) => Some(r),
        None => github_alias_candidate(url),
    }
}

/// Whether two URLs could name the same repository once an unverified alias is verified.
pub fn github_urls_may_match_verified_alias(actual: &str, configured: &str) -> (r: bool)
    ensures
        r == spec_urls_may_match_verified_alias(actual@, configured@),
{
    let a = identity_or_candidate_exec(actual);
    let c = identity_or_candidate_exec(configured);
    same_repository_exec(&a, &c)
}

/// The repository of an HTTPS `github.com` URL.
pub fn github_https_repository(url: &str) -> (r: Option<GitHubRepository>)
    ensures
        opt_repo_view(r) == spec_https_repository(url@),
{
    match strip_prefix(&chars_of(url), &chars_of("https://github.com/")) {
        Some(path) => repository_path_chars(&path),
        None => None,
    }
}

/// The repository named by a GitHub SSH transport (canonical or verified alias).
pub fn github_ssh_repository(url: &str, verified_aliases: &Vec<String>) -> (r: Option<
    GitHubRepository,
>)
    ensures
        opt_repo_view(r) == spec_repository_identity(url@, views(verified_aliases@)),
{
    github_repository_identity(url, verified_aliases)
}

/// The HTTPS URL through which a canonical GitHub SSH URL is read.
pub fn github_https_read_url(url: &str) -> (r: Option<String>)
    ensures
        opt_string_view(r) == spec_https_read_url(url@),
{
    if starts_with(&chars_of(url), &chars_of("https://github.com/")) {
        return None;
    }
    let none: Vec<String> = Vec::new();
    assert(views(none@) =~= seq![]);
    match github_repository_identity(url, &none) {
        Some(repository) => {
            let owner = chars_of(repository.owner.as_str());
            let name = chars_of(repository.name.as_str());
            if !all_alnum_or_exec(&owner, &chars_of("-")) || !all_alnum_or_exec(
                &name,
                &chars_of("-_."),
            ) {
                return None;
            }
            let mut out = chars_of("https://github.com/");
            push_all(&mut out, &owner);
            push_all(&mut out, &chars_of("/"));
            push_all(&mut out, &name);
            push_all(&mut out, &chars_of(".git"));
            Some(string_of(&out))
        },
        None => None,
    }
}

/// Whether both URLs name the same repository through approved transports.
pub fn github_urls_have_same_identity(
    actual: &str,
    configured: &str,
    verified_aliases: &Vec<String>,
) -> (r: bool)
    ensures
        r == spec_same_identity(actual@, configured@, views(verified_aliases@)),
{
    let a = github_repository_identity(actual, verified_aliases);
    let c = github_repository_identity(configured, verified_aliases);
    same_repository_exec(&a, &c)
}

/// Whether two URLs are the same after normalization or name the same GitHub repository.
pub fn urls_match(actual: &str, configured: &str) -> (r: bool)
    ensures
        r == spec_urls_match(actual@, configured@),
{
    let a = normalize_url(actual);
    let c = normalize_url(configured);
    if eq(&chars_of(a.as_str()), &chars_of(c.as_str())) {
        return true;
    }
    let none: Vec<String> = Vec::new();
    assert(views(none@) =~= seq![]);
    github_urls_have_same_identity(actual, configured, &none)
}

/// The SSH push URL through `alias` for a canonical HTTPS GitHub URL.
pub fn github_ssh_push_url(canonical_url: &str, alias: &str) -> (r: Option<String>)
    ensures
        opt_string_view(r) == spec_ssh_push_url(canonical_url@, alias@),
{
    match github_https_repository(canonical_url) {
        Some(repository) => {
            if !valid_ssh_alias(alias) {
                return None;
            }
            let mut out = chars_of("git@");
            push_all(&mut out, &chars_of(alias));
            push_all(&mut out, &chars_of(":"));
            push_all(&mut out, &chars_of(repository.owner.as_str()));
            push_all(&mut out, &chars_of("/"));
            push_all(&mut out, &chars_of(repository.name.as_str()));
            push_all(&mut out, &chars_of(".git"));
            Some(string_of(&out))
        },
        None => None,
    }
}

/// The command-scoped `url.<alias>.insteadOf` rewrite for a canonical GitHub SSH URL.
pub fn runtime_url_rewrite(canonical_url: &str, alias: &str) -> (r: Option<String>)
    ensures
        opt_string_view(r) == spec_runtime_url_rewrite(canonical_url@, alias@),
{
    let canonical = chars_of(canonical_url);
    if let Some(path) = strip_prefix(&canonical, &chars_of("git@github.com:")) {
        if path.len() > 0 {
            let mut out = chars_of("url.git@");
            push_all(&mut out, &chars_of(alias));
            push_all(&mut out, &chars_of(":"));
            push_all(&mut out, &path);
            push_all(&mut out, &chars_of(".insteadOf="));
            push_all(&mut out, &canonical);
            return Some(string_of(&out));
        }
    }
    if let Some(path) = strip_prefix(&canonical, &chars_of("ssh://git@github.com/")) {
        if path.len() > 0 {
            let mut out = chars_of("url.ssh://git@");
            push_all(&mut out, &chars_of(alias));
            push_all(&mut out, &chars_of("/"));
            push_all(&mut out, &path);
            push_all(&mut out, &chars_of(".insteadOf="));
            push_all(&mut out, &canonical);
            return Some(string_of(&out));
        }
    }
    None
}

/// Errors decided while interpreting Git and Rot results.
#[derive(Debug, Clone, PartialEq, Eq)]
pub enum GitError {
    /// Rot's identity document has a version this library does not read.
    UnsupportedRotVersion(u32),
    /// Git printed something other than a commit count.
    InvalidCommitCount,
    /// A line of `git ls-remote` had no reference after its commit.
    InvalidOriginRef,
}

impl GitError {
    pub open spec fn spec_message(self) -> Seq<char> {
        match self {
            GitError::UnsupportedRotVersion(v) => "Rot returned unsupported SSH identity document version "@
                + crate::text::spec_decimal(v as nat),
            GitError::InvalidCommitCount => "Git returned an invalid commit count"@,
            GitError::InvalidOriginRef => "Git returned an invalid origin ref"@,
        }
    }

    /// The message for the error.
    pub fn message(&self) -> (r: String)
        ensures
            r@ == self.spec_message(),
    {
        match self {
            GitError::UnsupportedRotVersion(v) => {
                let d = crate::text::decimal(*v as u64);
                crate::text::cat2("Rot returned unsupported SSH identity document version ", d.as_str())
            },
            GitError::InvalidCommitCount => "Git returned an invalid commit count".to_string(),
            GitError::InvalidOriginRef => "Git returned an invalid origin ref".to_string(),
        }
    }
}

/// The value of a run of decimal digits.
pub open spec fn digits_value(s: Seq<char>) -> nat
    decreases s.len(),
{
    if s.len() == 0 {
        0
    } else {
        digits_value(s.drop_last()) * 10 + (code(s.last()) - 48) as nat
    }
}

/// The digits of a decimal number after an optional leading `+`.
pub open spec fn unsigned_digits(s: Seq<char>) -> Seq<char> {
    if s.len() > 0 && s[0] == '+' {
        s.drop_first()
    } else {
        s
    }
}

pub open spec fn all_digits(s: Seq<char>) -> bool {
    forall|i: int| 0 <= i < s.len() ==> spec_is_ascii_digit(#[trigger] s[i])
}

/// `u64::from_str`: an optional `+`, then one or more digits, within range.
pub open spec fn spec_parse_u64(s: Seq<char>) -> Option<nat> {
    let digits = unsigned_digits(s);
    if digits.len() > 0 && all_digits(digits) && digits_value(digits) <= u64::MAX {
        Some(digits_value(digits))
    } else {
        None
    }
}

proof fn lemma_digits_prefix_monotone(s: Seq<char>, k: int)
    requires
        0 <= k <= s.len(),
        forall|i: int| 0 <= i < s.len() ==> spec_is_ascii_digit(#[trigger] s[i]),
    ensures
        digits_value(s.subrange(0, k)) <= digits_value(s),
    decreases s.len() - k,
{
    if k < s.len() {
        lemma_digits_prefix_monotone(s, k + 1);
        let p = s.subrange(0, k + 1);
        assert(p.drop_last() =~= s.subrange(0, k));
        assert(spec_is_ascii_digit(p.last()));
    } else {
        assert(s.subrange(0, k) =~= s);
    }
}

pub(crate) fn parse_u64(s: &Vec<char>) -> (r: Option<u64>)
    ensures
        r matches Some(v) ==> spec_parse_u64(s@) == Some(v as nat),
        r is None ==> spec_parse_u64(s@) is None,
{
    let start: usize = if s.len() > 0 && s[0] == '+' {
        1
    } else {
        0
    };
    let ghost digits = unsigned_digits(s@);
    assert(digits =~= s@.subrange(start as int, s.len() as int));
    if start >= s.len() {
        return None;
    }
    let mut value: u64 = 0;
    let mut i = start;
    while i < s.len()
        invariant
            start <= i <= s.len(),
            digits == unsigned_digits(s@),
            digits =~= s@.subrange(start as int, s.len() as int),
            forall|j: int| 0 <= j < i - start ==> spec_is_ascii_digit(#[trigger] digits[j]),
            value as nat == digits_value(digits.subrange(0, i - start)),
        decreases s.len() - i,
    {
        let c = s[i];
        if !is_ascii_digit(c) {
            proof {
                assert(digits[i - start] == c);
                assert(!spec_is_ascii_digit(digits[i - start]));
                assert(!all_digits(digits));
                assert(spec_parse_u64(s@) is None);
            }
            return None;
        }
        let d = (c as u32 - 48) as u64;
        let ghost prefix = digits.subrange(0, i + 1 - start);
        assert(prefix.drop_last() =~= digits.subrange(0, i - start));
        assert(prefix.last() == c);
        assert(digits_value(prefix) == value as nat * 10 + d as nat);
        match value.checked_mul(10) {
            Some(m) => match m.checked_add(d) {
                Some(v) => {
                    value = v;
                },
                None => {
                    proof {
                        assert(m as nat + d as nat > u64::MAX);
                        assert(digits_value(prefix) > u64::MAX);
                        assert(forall|j: int| 0 <= j < i + 1 - start ==> spec_is_ascii_digit(#[trigger] digits[j]));
                        if all_digits(digits) {
                            lemma_digits_prefix_monotone(digits, i + 1 - start);
                        }
                    }
                    return None;
                },
            },
            None => {
                proof {
                    assert(forall|j: int| 0 <= j < i + 1 - start ==> spec_is_ascii_digit(#[trigger] digits[j]));
                    if all_digits(digits) {
                        lemma_digits_prefix_monotone(digits, i + 1 - start);
                    }
                }
                return None;
            },
        }
        i = i + 1;
    }
    assert(digits.subrange(0, digits.len() as int) =~= digits);
    Some(value)
}

/// Interpret `git rev-list --count HEAD --not --remotes=origin`: whether HEAD has
/// commits that no `origin` reference reaches.
pub fn has_local_commits_not_on_origin(count_output: &str) -> (r: Result<bool, GitError>)
    ensures
        r matches Ok(b) ==> (spec_parse_u64(spec_trim(count_output@)) matches Some(n) && b == (n
            > 0)),
        r is Err ==> r == Err::<bool, GitError>(GitError::InvalidCommitCount) && spec_parse_u64(
            spec_trim(count_output@),
        ) is None,
{
    match parse_u64(&trim(&chars_of(count_output))) {
        Some(n) => Ok(n > 0),
        None => Err(GitError::InvalidCommitCount),
    }
}

/// `s` without one trailing carriage return.
pub open spec fn strip_cr(s: Seq<char>) -> Seq<char> {
    if s.len() > 0 && s.last() == '\r' {
        s.drop_last()
    } else {
        s
    }
}

/// `str::lines`: the text split at line feeds, a carriage return before each
/// line feed removed, with no empty line after a final line feed.
pub open spec fn spec_lines(s: Seq<char>) -> Seq<Seq<char>>
    decreases s.len(),
{
    if s.len() == 0 {
        seq![]
    } else {
        match spec_find(s, '\n') {
            Some(i) => if 0 <= i < s.len() {
                seq![strip_cr(s.subrange(0, i))] + spec_lines(s.subrange(i + 1, s.len() as int))
            } else {
                seq![]
            },
            None => seq![s],
        }
    }
}

/// The lines of a text.
pub fn lines(text: &Vec<char>) -> (r: Vec<String>)
    ensures
        views(r@) == spec_lines(text@),
    decreases text.len(),
{
    if text.len() == 0 {
        let r: Vec<String> = Vec::new();
        assert(views(r@) =~= seq![]);
        return r;
    }
    match find(text, '\n') {
        Some(i) => {
            let mut line = subvec(text, 0, i);
            if line.len() > 0 && line[line.len() - 1] == '\r' {
                line = subvec(&line, 0, line.len() - 1);
                assert(line@ =~= strip_cr(text@.subrange(0, i as int)));
            }
            let rest = lines(&subvec(text, i + 1, text.len()));
            let mut r: Vec<String> = Vec::new();
            r.push(string_of(&line));
            let mut k: usize = 0;
            while k < rest.len()
                invariant
                    k <= rest.len(),
                    views(r@) =~= seq![strip_cr(text@.subrange(0, i as int))] + views(
                        rest@,
                    ).subrange(0, k as int),
                decreases rest.len() - k,
            {
                proof {
                    lemma_views_push(r@, rest@[k as int]);
                }
                r.push(rest[k].clone());
                assert(views(rest@).subrange(0, k + 1) =~= views(rest@).subrange(0, k as int).push(rest@[k as int]@));
                k = k + 1;
            }
            assert(views(rest@).subrange(0, rest.len() as int) =~= views(rest@));
            r
        },
        None => {
            let mut r: Vec<String> = Vec::new();
            r.push(string_of(text));
            assert(views(r@) =~= seq![text@]);
            r
        },
    }
}

/// Interpret `git ls-files`: the tracked paths, one per line of the trimmed output.
pub fn tracked_files(ls_files_output: &str) -> (r: Vec<String>)
    ensures
        views(r@) == spec_lines(spec_trim(ls_files_output@)),
{
    lines(&trim(&chars_of(ls_files_output)))
}

/// Interpret `git status --porcelain`: the trimmed porcelain text.
pub fn working_tree_changes(status_output: &str) -> (r: String)
    ensures
        r@ == spec_trim(status_output@),
{
    string_of(&trim(&chars_of(status_output)))
}

/// Interpret `git status --porcelain -- <file>`: whether the file has changes.
pub fn path_has_changes(status_output: &str) -> (r: bool)
    ensures
        r == (spec_trim(status_output@).len() > 0),
{
    trim(&chars_of(status_output)).len() > 0
}

/// Interpret `git config --get remote.origin.url`: the trimmed URL when Git succeeded.
pub fn fetch_url(succeeded: bool, stdout: &str) -> (r: Option<String>)
    ensures
        opt_string_view(r) == (if succeeded {
            Some(spec_trim(stdout@))
        } else {
            None::<Seq<char>>
        }),
{
    if succeeded {
        Some(string_of(&trim(&chars_of(stdout))))
    } else {
        None
    }
}

/// The origin URL is the fetch URL.
pub fn origin_url(succeeded: bool, stdout: &str) -> (r: Option<String>)
    ensures
        opt_string_view(r) == (if succeeded {
            Some(spec_trim(stdout@))
        } else {
            None::<Seq<char>>
        }),
{
    fetch_url(succeeded, stdout)
}

/// `git config --local --replace-all remote.origin.pushurl <url>` in `path`.
pub fn set_push_url(path: &str, url: &str) -> (r: Vec<String>)
    ensures
        views(r@) == seq![
            "-C"@,
            path@,
            "config"@,
            "--local"@,
            "--replace-all"@,
            "remote.origin.pushurl"@,
            url@,
        ],
{
    let mut r: Vec<String> = Vec::new();
    r.push("-C".to_string());
    r.push(path.to_string());
    r.push("config".to_string());
    r.push("--local".to_string());
    r.push("--replace-all".to_string());
    r.push("remote.origin.pushurl".to_string());
    r.push(url.to_string());
    assert(views(r@) =~= seq![
        "-C"@,
        path@,
        "config"@,
        "--local"@,
        "--replace-all"@,
        "remote.origin.pushurl"@,
        url@,
    ]);
    r
}

/// Whether Git's error output reports a failed SSH public-key authentication.
pub open spec fn spec_public_key_auth_failure(stderr: Seq<char>) -> bool {
    spec_contains_lowered(stderr, "permission denied (publickey)"@) || (spec_contains_lowered(
        stderr,
        "publickey"@,
    ) && (spec_contains_lowered(stderr, "authentication failed"@) || spec_contains_lowered(
        stderr,
        "no supported authentication methods"@,
    )))
}

pub fn is_public_key_auth_failure(stderr: &str) -> (r: bool)
    ensures
        r == spec_public_key_auth_failure(stderr@),
{
    let s = chars_of(stderr);
    contains_lowered(&s, &chars_of("permission denied (publickey)")) || (contains_lowered(
        &s,
        &chars_of("publickey"),
    ) && (contains_lowered(&s, &chars_of("authentication failed")) || contains_lowered(
        &s,
        &chars_of("no supported authentication methods"),
    )))
}

/// The message for a failed Git command: its trimmed error output, or its exit status.
pub fn git_error_message(stderr: &str, status: &str) -> (r: String)
    ensures
        r@ == (if spec_trim(stderr@).len() == 0 {
            "Git command failed with status "@ + status@
        } else {
            "Git command failed: "@ + spec_trim(stderr@)
        }),
{
    let trimmed = trim(&chars_of(stderr));
    if trimmed.len() == 0 {
        string_of(&concat(&chars_of("Git command failed with status "), &chars_of(status)))
    } else {
        string_of(&concat(&chars_of("Git command failed: "), &trimmed))
    }
}

/// Whether a failed network command is retried through a Rot-managed SSH identity:
/// only canonical GitHub SSH URLs, and only after a public-key authentication failure.
pub fn rot_retry_applies(canonical_url: &str, stderr: &str) -> (r: bool)
    ensures
        r == (spec_runtime_url_rewrite(canonical_url@, "placeholder"@) is Some
            && spec_public_key_auth_failure(stderr@)),
{
    runtime_url_rewrite(canonical_url, "placeholder").is_some() && is_public_key_auth_failure(
        stderr,
    )
}

/// The retried command: the original arguments behind a command-scoped URL rewrite.
pub fn rot_retry_arguments(arguments: &Vec<String>, canonical_url: &str, alias: &str) -> (r: Option<
    Vec<String>,
>)
    ensures
        r is Some <== spec_runtime_url_rewrite(canonical_url@, alias@) is Some,
        r matches Some(v) ==> spec_runtime_url_rewrite(canonical_url@, alias@) matches Some(rw)
            && views(v@) == seq!["-c"@, rw] + views(arguments@),
        r is None ==> spec_runtime_url_rewrite(canonical_url@, alias@) is None,
{
    match runtime_url_rewrite(canonical_url, alias) {
        Some(rewrite) => {
            let mut v: Vec<String> = Vec::new();
            v.push("-c".to_string());
            v.push(rewrite);
            let mut i: usize = 0;
            while i < arguments.len()
                invariant
                    i <= arguments.len(),
                    views(v@) =~= seq!["-c"@, rewrite@] + views(arguments@).subrange(0, i as int),
                decreases arguments.len() - i,
            {
                proof {
                    lemma_views_push(v@, arguments@[i as int]);
                }
                v.push(arguments[i].clone());
                assert(views(arguments@).subrange(0, i + 1) =~= views(arguments@).subrange(0, i as int).push(arguments@[i as int]@));
                i = i + 1;
            }
            assert(views(arguments@).subrange(0, arguments.len() as int) =~= views(arguments@));
            Some(v)
        },
        None => None,
    }
}

/// The `git clone` arguments for `url` into `destination`, on `revision` when given.
pub open spec fn spec_clone_arguments(
    url: Seq<char>,
    revision: Option<Seq<char>>,
    destination: Seq<char>,
) -> Seq<Seq<char>> {
    match revision {
        Some(rev) => seq!["clone"@, "--branch"@, rev, "--"@, url, destination],
        None => seq!["clone"@, "--"@, url, destination],
    }
}

pub fn clone_arguments_for_url(url: &str, revision: Option<&str>, destination: &str) -> (r: Vec<
    String,
>)
    ensures
        views(r@) == spec_clone_arguments(
            url@,
            match revision {
                Some(rev) => Some(rev@),
                None => None,
            },
            destination@,
        ),
{
    let mut r: Vec<String> = Vec::new();
    r.push("clone".to_string());
    if let Some(rev) = revision {
        r.push("--branch".to_string());
        r.push(rev.to_string());
    }
    r.push("--".to_string());
    r.push(url.to_string());
    r.push(destination.to_string());
    proof {
        match revision {
            Some(rev) => assert(views(r@) =~= seq!["clone"@, "--branch"@, rev@, "--"@, url@, destination@]),
            None => assert(views(r@) =~= seq!["clone"@, "--"@, url@, destination@]),
        }
    }
    r
}

/// The clone arguments and the URL they read: the HTTPS read URL for a canonical
/// GitHub SSH URL, the configured URL otherwise.
pub fn clone_arguments(configured_url: &str, revision: Option<&str>, destination: &str) -> (r: (
    Vec<String>,
    String,
))
    ensures
        r.1@ == (match spec_https_read_url(configured_url@) {
            Some(u) => u,
            None => configured_url@,
        }),
        views(r.0@) == spec_clone_arguments(
            r.1@,
            match revision {
                Some(rev) => Some(rev@),
                None => None,
            },
            destination@,
        ),
{
    let read_url = match github_https_read_url(configured_url) {
        Some(u) => u,
        None => configured_url.to_string(),
    };
    (clone_arguments_for_url(read_url.as_str(), revision, destination), read_url)
}

/// A copy of each identity, in order.
pub(crate) fn copy_identities(identities: &Vec<RotIdentity>) -> (r: Vec<RotIdentity>)
    ensures
        r@ == identities@,
{
    let mut r: Vec<RotIdentity> = Vec::new();
    let mut i: usize = 0;
    while i < identities.len()
        invariant
            i <= identities.len(),
            r@ == identities@.subrange(0, i as int),
        decreases identities.len() - i,
    {
        r.push(identities[i].copy());
        assert(identities@.subrange(0, i + 1) =~= identities@.subrange(0, i as int).push(identities@[i as int]));
        i = i + 1;
    }
    assert(identities@.subrange(0, identities.len() as int) =~= identities@);
    r
}

/// A Rot-managed SSH identity as Rot reports it.
#[derive(Debug, Clone, PartialEq, Eq)]
pub struct RotIdentity {
    pub alias: String,
    pub username: Option<String>,
    pub verification: String,
}

/// Rot's identity inventory document.
#[derive(Debug, Clone, PartialEq, Eq)]
pub struct RotIdentityDocument {
    pub version: u32,
    pub identities: Vec<RotIdentity>,
}

/// The identity document version this library reads.
pub const ROT_IDENTITY_VERSION: u32 = 1;

impl RotIdentity {
    /// A field-by-field copy.
    pub fn copy(&self) -> (r: RotIdentity)
        ensures
            r == *self,
    {
        RotIdentity {
            alias: self.alias.clone(),
            username: match &self.username {
                Some(u) => Some(u.clone()),
                None => None,
            },
            verification: self.verification.clone(),
        }
    }
}

/// A verified identity with a username and a usable SSH alias.
pub open spec fn acceptable(identity: RotIdentity) -> bool {
    &&& identity.verification@ == "verified"@
    &&& identity.username is Some
    &&& spec_valid_ssh_alias(identity.alias@)
}

pub open spec fn aliases_of(identities: Seq<RotIdentity>) -> Seq<Seq<char>> {
    identities.map_values(|identity: RotIdentity| identity.alias@)
}

/// The acceptable identities in order, keeping the first of each alias.
pub open spec fn spec_accepted_identities(identities: Seq<RotIdentity>) -> Seq<RotIdentity>
    decreases identities.len(),
{
    if identities.len() == 0 {
        seq![]
    } else {
        let previous = spec_accepted_identities(identities.drop_last());
        let candidate = identities.last();
        if acceptable(candidate) && !aliases_of(previous).contains(candidate.alias@) {
            previous.push(candidate)
        } else {
            previous
        }
    }
}

/// Every accepted identity is acceptable and no alias is accepted twice.
pub proof fn lemma_accepted_identities_are_distinct(identities: Seq<RotIdentity>)
    ensures
        forall|i: int|
            0 <= i < spec_accepted_identities(identities).len() ==> acceptable(
                #[trigger] spec_accepted_identities(identities)[i],
            ),
        aliases_of(spec_accepted_identities(identities)).no_duplicates(),
    decreases identities.len(),
{
    if identities.len() > 0 {
        lemma_accepted_identities_are_distinct(identities.drop_last());
        let previous = spec_accepted_identities(identities.drop_last());
        let candidate = identities.last();
        if acceptable(candidate) && !aliases_of(previous).contains(candidate.alias@) {
            assert(aliases_of(previous.push(candidate)) =~= aliases_of(previous).push(
                candidate.alias@,
            ));
        }
    }
}

fn contains_alias(accepted: &Vec<RotIdentity>, alias: &String) -> (r: bool)
    ensures
        r == aliases_of(accepted@).contains(alias@),
{
    let target = chars_of(alias.as_str());
    let mut i: usize = 0;
    while i < accepted.len()
        invariant
            i <= accepted.len(),
            target@ == alias@,
            forall|j: int| 0 <= j < i ==> accepted@[j].alias@ != alias@,
        decreases accepted.len() - i,
    {
        if eq(&chars_of(accepted[i].alias.as_str()), &target) {
            assert(aliases_of(accepted@)[i as int] == alias@);
            return true;
        }
        i = i + 1;
    }
    proof {
        if aliases_of(accepted@).contains(alias@) {
            let k = choose|k: int| 0 <= k < aliases_of(accepted@).len() && aliases_of(accepted@)[k] == alias@;
            assert(accepted@[k].alias@ == alias@);
        }
    }
    false
}

fn is_acceptable(identity: &RotIdentity) -> (r: bool)
    ensures
        r == acceptable(*identity),
{
    eq(&chars_of(identity.verification.as_str()), &chars_of("verified")) && identity.username.is_some()
        && valid_ssh_alias(identity.alias.as_str())
}

/// The identities usable for GitHub SSH: Rot's document must have the supported
/// version; unverified identities, identities without a username or with an
/// unusable alias, and later duplicates of an alias are dropped.
pub fn verified_rot_identities(document: &RotIdentityDocument) -> (r: Result<
    Vec<RotIdentity>,
    GitError,
>)
    ensures
        document.version != ROT_IDENTITY_VERSION ==> r == Err::<Vec<RotIdentity>, GitError>(
            GitError::UnsupportedRotVersion(document.version),
        ),
        document.version == ROT_IDENTITY_VERSION ==> (r matches Ok(v) && v@
            == spec_accepted_identities(document.identities@)),
{
    if document.version != ROT_IDENTITY_VERSION {
        return Err(GitError::UnsupportedRotVersion(document.version));
    }
    let mut accepted: Vec<RotIdentity> = Vec::new();
    let mut i: usize = 0;
    while i < document.identities.len()
        invariant
            i <= document.identities.len(),
            accepted@ == spec_accepted_identities(document.identities@.subrange(0, i as int)),
        decreases document.identities.len() - i,
    {
        let candidate = &document.identities[i];
        let ghost prefix = document.identities@.subrange(0, i + 1);
        assert(prefix.drop_last() =~= document.identities@.subrange(0, i as int));
        if is_acceptable(candidate) && !contains_alias(&accepted, &candidate.alias) {
            accepted.push(candidate.copy());
        }
        i = i + 1;
    }
    assert(document.identities@.subrange(0, document.identities.len() as int)
        =~= document.identities@);
    Ok(accepted)
}

/// How a checkout's fetch URL relates to the configured repository URL.
#[derive(Debug, Clone, Copy, PartialEq, Eq)]
pub enum ManagedCheckout {
    ExpectedTransport,
    EquivalentTransport,
    RequiresVerifiedAlias,
    Mismatch,
}

impl ManagedCheckout {
    /// Expected and equivalent transports are managed checkouts.
    pub open spec fn is_managed(self) -> bool {
        self is ExpectedTransport || self is EquivalentTransport
    }
}

/// Repository identity policy for managed checkouts: canonical GitHub transports
/// are always recognized; other SSH hosts only when Rot verified them.
#[derive(Debug, Clone)]
pub struct ManagedRepositoryMatcher {
    pub verified_github_aliases: Vec<String>,
}

/// The aliases of the acceptable identities, in order.
pub open spec fn spec_verified_aliases(identities: Seq<RotIdentity>) -> Seq<Seq<char>>
    decreases identities.len(),
{
    if identities.len() == 0 {
        seq![]
    } else if acceptable(identities.last()) {
        spec_verified_aliases(identities.drop_last()).push(identities.last().alias@)
    } else {
        spec_verified_aliases(identities.drop_last())
    }
}

/// The classification of a checkout whose fetch URL is `actual` (`None` when the
/// path is not a directory, not a repository root, or has no origin URL).
pub open spec fn spec_checkout_match(
    aliases: Seq<Seq<char>>,
    actual: Option<Seq<char>>,
    configured: Seq<char>,
) -> ManagedCheckout {
    match actual {
        None => ManagedCheckout::Mismatch,
        Some(actual) => if spec_normalize_url(actual) == spec_normalize_url(configured) {
            ManagedCheckout::ExpectedTransport
        } else if spec_https_read_url(configured) is Some && spec_https_repository(actual) is Some
            && spec_same_identity(actual, configured, seq![]) {
            ManagedCheckout::ExpectedTransport
        } else if spec_same_identity(actual, configured, aliases) {
            ManagedCheckout::EquivalentTransport
        } else if spec_urls_may_match_verified_alias(actual, configured) {
            ManagedCheckout::RequiresVerifiedAlias
        } else {
            ManagedCheckout::Mismatch
        },
    }
}

impl ManagedRepositoryMatcher {
    /// The matcher that recognizes only canonical GitHub transports.
    pub fn canonical() -> (r: Self)
        ensures
            r.verified_github_aliases@.len() == 0,
    {
        ManagedRepositoryMatcher { verified_github_aliases: Vec::new() }
    }

    /// The matcher that also recognizes the aliases of acceptable Rot identities.
    pub fn from_verified_rot_identities(identities: &[RotIdentity]) -> (r: Self)
        ensures
            views(r.verified_github_aliases@) == spec_verified_aliases(identities@),
    {
        let mut aliases: Vec<String> = Vec::new();
        let mut i: usize = 0;
        while i < identities.len()
            invariant
                i <= identities.len(),
                views(aliases@) == spec_verified_aliases(identities@.subrange(0, i as int)),
            decreases identities.len() - i,
        {
            let ghost prefix = identities@.subrange(0, i + 1);
            assert(prefix.drop_last() =~= identities@.subrange(0, i as int));
            if is_acceptable(&identities[i]) {
                proof {
                    lemma_views_push(aliases@, identities@[i as int].alias);
                }
                aliases.push(identities[i].alias.clone());
            }
            i = i + 1;
        }
        assert(identities@.subrange(0, identities.len() as int) =~= identities@);
        ManagedRepositoryMatcher { verified_github_aliases: aliases }
    }

    /// Classify a checkout by its fetch URL against the configured URL.
    pub fn checkout_match(&self, actual_url: Option<&str>, configured_url: &str) -> (r:
        ManagedCheckout)
        ensures
            r == spec_checkout_match(
                views(self.verified_github_aliases@),
                match actual_url {
                    Some(a) => Some(a@),
                    None => None,
                },
                configured_url@,
            ),
    {
        let actual = match actual_url {
            Some(a) => a,
            None => return ManagedCheckout::Mismatch,
        };
        let a = normalize_url(actual);
        let c = normalize_url(configured_url);
        if eq(&chars_of(a.as_str()), &chars_of(c.as_str())) {
            return ManagedCheckout::ExpectedTransport;
        }
        let none: Vec<String> = Vec::new();
        assert(views(none@) =~= seq![]);
        if github_https_read_url(configured_url).is_some() && github_https_repository(
            actual,
        ).is_some() && github_urls_have_same_identity(actual, configured_url, &none) {
            return ManagedCheckout::ExpectedTransport;
        }
        if github_urls_have_same_identity(actual, configured_url, &self.verified_github_aliases) {
            ManagedCheckout::EquivalentTransport
        } else if github_urls_may_match_verified_alias(actual, configured_url) {
            ManagedCheckout::RequiresVerifiedAlias
        } else {
            ManagedCheckout::Mismatch
        }
    }

    /// Whether the checkout is managed: expected or equivalent transport.
    pub fn is_managed_checkout(&self, actual_url: Option<&str>, configured_url: &str) -> (r: bool)
        ensures
            r == (spec_checkout_match(
                views(self.verified_github_aliases@),
                match actual_url {
                    Some(a) => Some(a@),
                    None => None,
                },
                configured_url@,
            ).is_managed()),
    {
        match self.checkout_match(actual_url, configured_url) {
            ManagedCheckout::ExpectedTransport | ManagedCheckout::EquivalentTransport => true,
            _ => false,
        }
    }
}

/// A local repository's branch, commit, cleanliness and remote URLs.
#[derive(Debug, Clone, PartialEq, Eq)]
pub struct RepositoryStatus {
    pub branch: Option<String>,
    pub commit: Option<String>,
    pub dirty: bool,
    pub origin: Option<String>,
    pub push_url: Option<String>,
}

/// Recovery could not verify the original remote configuration; callers report
/// possible partial work and retain the checkout for inspection.
#[derive(Debug, Clone, PartialEq, Eq)]
pub struct RemoteRecoveryIncomplete {
    pub path: String,
    pub diagnostic: String,
}


/// The message when no verified identity exists.
pub open spec fn no_identity_message() -> Seq<char> {
    "No verified Rot-managed GitHub SSH identity was found. Configure SSH through Rot, then retry."@
}

/// The error for `identities` when more than one is available and no choice can be asked.
pub open spec fn spec_multiple_identities_message(identities: Seq<RotIdentity>) -> Seq<char> {
    "Multiple verified Rot-managed GitHub SSH identities are available ("@ + crate::text::spec_join_with(
        aliases_of(identities),
        ", "@,
    ) + "). Re-run interactively to choose one."@
}

/// `r` is what a choice among `identities` selects: a declined choice is a
/// cancellation, an index out of range is an error, and an error of the choice
/// itself is returned as it is.
pub open spec fn spec_identity_choice(
    identities: Seq<RotIdentity>,
    choice: Result<Option<usize>, OperationError>,
    r: Result<RotIdentity, OperationError>,
) -> bool {
    match choice {
        Err(e) => r == Err::<RotIdentity, OperationError>(e),
        Ok(None) => r matches Err(e) && is_cancellation(e, "SSH identity selection was cancelled"@),
        Ok(Some(i)) => if i < identities.len() {
            r == Ok::<RotIdentity, OperationError>(identities[i as int])
        } else {
            r matches Err(e) && is_message(e, "an invalid SSH identity was selected"@)
        },
    }
}

/// The identity a choice among `identities` selects.
pub fn identity_from_choice(
    identities: &Vec<RotIdentity>,
    choice: Result<Option<usize>, OperationError>,
) -> (r: Result<RotIdentity, OperationError>)
    ensures
        spec_identity_choice(identities@, choice, r),
{
    match choice {
        Err(e) => Err(e),
        Ok(None) => {
            let e = OperationError::new(ErrorLayer::Cancelled(crate::process::Cancelled));
            Err(e.context("SSH identity selection was cancelled".to_string()))
        },
        Ok(Some(i)) => {
            if i < identities.len() {
                Ok(identities[i].copy())
            } else {
                Err(OperationError::message("an invalid SSH identity was selected".to_string()))
            }
        },
    }
}

/// Choose the identity for an SSH push URL: the only one, or the one the user
/// picks when a choice can be asked; otherwise an error that says why.
pub fn select_rot_identity<P: Interaction>(
    identities: Vec<RotIdentity>,
    interactive: bool,
    prompt: &mut Consulted<P>,
) -> (r: Result<RotIdentity, OperationError>)
    ensures
        identities@.len() == 0 ==> (r matches Err(e) && is_message(e, no_identity_message())),
        identities@.len() == 1 ==> r == Ok::<RotIdentity, OperationError>(identities@[0]),
        identities@.len() > 1 && !interactive ==> (r matches Err(e) && is_message(
            e,
            spec_multiple_identities_message(identities@),
        )),
        identities@.len() > 1 && interactive ==> final(prompt).decisions() == old(prompt).decisions().push(
            Decision::Identity { identities: identities@, answer: identity_answer(final(prompt).decisions()) },
        ) && spec_identity_choice(identities@, identity_answer(final(prompt).decisions()), r),
        identities@.len() <= 1 || !interactive ==> *final(prompt) == *old(prompt),
{
    if identities.len() == 0 {
        return Err(OperationError::message(
            "No verified Rot-managed GitHub SSH identity was found. Configure SSH through Rot, then retry.".to_string(),
        ));
    }
    if identities.len() == 1 {
        return Ok(identities[0].copy());
    }
    if !interactive {
        let mut aliases: Vec<String> = Vec::new();
        let mut i: usize = 0;
        while i < identities.len()
            invariant
                i <= identities.len(),
                views(aliases@) == aliases_of(identities@.subrange(0, i as int)),
            decreases identities.len() - i,
        {
            proof {
                lemma_views_push(aliases@, identities@[i as int].alias);
            }
            aliases.push(identities[i].alias.clone());
            assert(aliases_of(identities@.subrange(0, i + 1)) =~= aliases_of(identities@.subrange(0, i as int)).push(identities@[i as int].alias@));
            i = i + 1;
        }
        assert(identities@.subrange(0, identities.len() as int) =~= identities@);
        assert(views(aliases@) =~= aliases@.map_values(|p: String| p@));
        let available = crate::text::join_with(&aliases, ", ");
        let text = crate::text::cat3(
            "Multiple verified Rot-managed GitHub SSH identities are available (",
            available.as_str(),
            "). Re-run interactively to choose one.",
        );
        return Err(OperationError::message(text));
    }
    let choice = prompt.choose_identity(identities.as_slice());
    let r = identity_from_choice(&identities, choice);
    assert(spec_identity_choice(identities@, choice, r));
    r
}

/// Choose among verified identities, asking when more than one is available.
pub fn select_verified_rot_identity<P: Interaction>(identities: Vec<RotIdentity>, prompt: &mut Consulted<P>) -> (r:
    Result<RotIdentity, OperationError>)
    ensures
        identities@.len() == 0 ==> (r matches Err(e) && is_message(e, no_identity_message())),
        identities@.len() == 1 ==> r == Ok::<RotIdentity, OperationError>(identities@[0]),
        identities@.len() > 1 ==> final(prompt).decisions() == old(prompt).decisions().push(
            Decision::Identity { identities: identities@, answer: identity_answer(final(prompt).decisions()) },
        ) && spec_identity_choice(identities@, identity_answer(final(prompt).decisions()), r),
        identities@.len() <= 1 ==> *final(prompt) == *old(prompt),
{
    select_rot_identity(identities, true, prompt)
}


/// The two remote URL settings that a reconciliation changes.
#[derive(Debug, Clone, Copy, PartialEq, Eq, Structural)]
pub enum RemoteKey {
    Fetch,
    Push,
}

impl RemoteKey {
    pub open spec fn spec_name(self) -> Seq<char> {
        match self {
            RemoteKey::Fetch => "remote.origin.url"@,
            RemoteKey::Push => "remote.origin.pushurl"@,
        }
    }

    /// The Git configuration key.
    pub fn name(self) -> (r: &'static str)
        ensures
            r@ == self.spec_name(),
    {
        match self {
            RemoteKey::Fetch => "remote.origin.url",
            RemoteKey::Push => "remote.origin.pushurl",
        }
    }
}

/// Where a reconciliation of the remote URLs stands.
#[derive(Debug, Clone, Copy, PartialEq, Eq, Structural)]
pub enum ReconcilePhase {
    Start,
    ReadFetch,
    ReadPush,
    WritePush,
    WriteFetch,
    VerifyFetch,
    VerifyPush,
    RestoreFetch,
    RestorePush,
    CheckFetch,
    CheckPush,
    Done,
}

/// What the caller reports after performing an action.
#[derive(Debug, Clone)]
pub enum ReconcileEvent {
    /// The caller's token was not cancelled.
    Proceed,
    Cancelled,
    /// The local values of the key read, in order.
    Urls(Vec<String>),
    ReadFailed(String),
    Written,
    WriteFailed(String),
}

/// What the caller performs next.
#[derive(Debug)]
pub enum ReconcileAction {
    CheckCancelled,
    /// Read all local values of the key (none when it is absent).
    Read(RemoteKey),
    /// Replace all local values of the key with one URL.
    Write { key: RemoteKey, url: String },
    /// Restore the key to these values: replace with the first and add the
    /// rest, or remove the key when there are none.
    Restore { key: RemoteKey, urls: Vec<String> },
    Finish(Result<(), OperationError>),
}

/// A reconciliation of a checkout's fetch and push URLs. Once the change has
/// started it runs to its end, whatever the caller's token says: both writes,
/// their verification, and on failure the restoration of both keys and the
/// check of what remains.
#[derive(Debug, Clone)]
pub struct Reconciliation {
    pub path: String,
    pub fetch: String,
    pub push: String,
    pub phase: ReconcilePhase,
    pub old_fetch: Vec<String>,
    pub old_push: Vec<String>,
    pub error: Option<OperationError>,
    pub failures: Vec<String>,
    pub restored: bool,
}

pub struct ReconciliationView {
    pub path: Seq<char>,
    pub fetch: Seq<char>,
    pub push: Seq<char>,
    pub phase: ReconcilePhase,
    pub old_fetch: Seq<Seq<char>>,
    pub old_push: Seq<Seq<char>>,
    pub error: Option<Seq<LayerView>>,
    pub failures: Seq<Seq<char>>,
    pub restored: bool,
}

impl View for Reconciliation {
    type V = ReconciliationView;

    open spec fn view(&self) -> ReconciliationView {
        ReconciliationView {
            path: self.path@,
            fetch: self.fetch@,
            push: self.push@,
            phase: self.phase,
            old_fetch: views(self.old_fetch@),
            old_push: views(self.old_push@),
            error: match self.error {
                Some(e) => Some(e@),
                None => None,
            },
            failures: views(self.failures@),
            restored: self.restored,
        }
    }
}

pub enum ReconcileEventView {
    Proceed,
    Cancelled,
    Urls(Seq<Seq<char>>),
    ReadFailed(Seq<char>),
    Written,
    WriteFailed(Seq<char>),
}

impl View for ReconcileEvent {
    type V = ReconcileEventView;

    open spec fn view(&self) -> ReconcileEventView {
        match self {
            ReconcileEvent::Proceed => ReconcileEventView::Proceed,
            ReconcileEvent::Cancelled => ReconcileEventView::Cancelled,
            ReconcileEvent::Urls(v) => ReconcileEventView::Urls(views(v@)),
            ReconcileEvent::ReadFailed(m) => ReconcileEventView::ReadFailed(m@),
            ReconcileEvent::Written => ReconcileEventView::Written,
            ReconcileEvent::WriteFailed(m) => ReconcileEventView::WriteFailed(m@),
        }
    }
}

pub enum ReconcileActionView {
    CheckCancelled,
    Read(RemoteKey),
    Write { key: RemoteKey, url: Seq<char> },
    Restore { key: RemoteKey, urls: Seq<Seq<char>> },
    Finish(Result<(), Seq<LayerView>>),
}

impl View for ReconcileAction {
    type V = ReconcileActionView;

    open spec fn view(&self) -> ReconcileActionView {
        match self {
            ReconcileAction::CheckCancelled => ReconcileActionView::CheckCancelled,
            ReconcileAction::Read(k) => ReconcileActionView::Read(*k),
            ReconcileAction::Write { key, url } => ReconcileActionView::Write { key: *key, url: url@ },
            ReconcileAction::Restore { key, urls } => ReconcileActionView::Restore { key: *key, urls: views(urls@) },
            ReconcileAction::Finish(r) => ReconcileActionView::Finish(
                match r {
                    Ok(()) => Ok(()),
                    Err(e) => Err(e@),
                },
            ),
        }
    }
}

/// The action that a phase performs, from the state's own data.
pub open spec fn spec_phase_action(s: ReconciliationView) -> ReconcileActionView {
    match s.phase {
        ReconcilePhase::Start => ReconcileActionView::CheckCancelled,
        ReconcilePhase::ReadFetch => ReconcileActionView::Read(RemoteKey::Fetch),
        ReconcilePhase::ReadPush => ReconcileActionView::Read(RemoteKey::Push),
        ReconcilePhase::WritePush => ReconcileActionView::Write { key: RemoteKey::Push, url: s.push },
        ReconcilePhase::WriteFetch => ReconcileActionView::Write { key: RemoteKey::Fetch, url: s.fetch },
        ReconcilePhase::VerifyFetch => ReconcileActionView::Read(RemoteKey::Fetch),
        ReconcilePhase::VerifyPush => ReconcileActionView::Read(RemoteKey::Push),
        ReconcilePhase::RestoreFetch => ReconcileActionView::Restore { key: RemoteKey::Fetch, urls: s.old_fetch },
        ReconcilePhase::RestorePush => ReconcileActionView::Restore { key: RemoteKey::Push, urls: s.old_push },
        ReconcilePhase::CheckFetch => ReconcileActionView::Read(RemoteKey::Fetch),
        ReconcilePhase::CheckPush => ReconcileActionView::Read(RemoteKey::Push),
        ReconcilePhase::Done => ReconcileActionView::CheckCancelled,
    }
}

/// `s` in `phase`.
pub open spec fn with_phase(s: ReconciliationView, phase: ReconcilePhase) -> ReconciliationView {
    ReconciliationView { phase, ..s }
}

/// The change failed with `error`: restore the fetch URL first.
pub open spec fn begin_recovery(s: ReconciliationView, error: Seq<LayerView>) -> (ReconciliationView, ReconcileActionView) {
    let next = ReconciliationView {
        phase: ReconcilePhase::RestoreFetch,
        error: Some(error),
        failures: seq![],
        restored: true,
        ..s
    };
    (next, spec_phase_action(next))
}

/// The error when Git does not keep the written URLs.
pub open spec fn not_retained() -> Seq<LayerView> {
    seq![LayerView::Message("Git did not retain the requested fetch and push URLs"@)]
}

/// The outcome after both keys were restored and checked.
pub open spec fn spec_recovery_outcome(s: ReconciliationView) -> Seq<LayerView> {
    let error = match s.error {
        Some(e) => e,
        None => seq![],
    };
    let joined = crate::text::spec_join_with(s.failures, "; "@);
    if !s.restored {
        seq![LayerView::RemoteRecoveryIncomplete { path: s.path, diagnostic: joined }] + error
    } else if s.failures.len() == 0 {
        seq![LayerView::Message("original remote configuration was restored and verified"@)] + error
    } else {
        seq![
            LayerView::Message(
                "original remote configuration verified unchanged despite recovery command failures: "@
                    + joined,
            ),
        ] + error
    }
}

/// A check of `key` after restoration: what remains must be what was there.
pub open spec fn spec_check(
    s: ReconciliationView,
    key: RemoteKey,
    expected: Seq<Seq<char>>,
    e: ReconcileEventView,
) -> ReconciliationView {
    match e {
        ReconcileEventView::Urls(actual) => if actual == expected {
            s
        } else {
            ReconciliationView {
                restored: false,
                failures: s.failures.push(
                    key.spec_name() + ": expected "@ + crate::text::debug_list_text(expected) + ", remaining "@
                        + crate::text::debug_list_text(actual),
                ),
                ..s
            }
        },
        ReconcileEventView::ReadFailed(m) => ReconciliationView {
            restored: false,
            failures: s.failures.push(key.spec_name() + ": remaining state unknown: "@ + m),
            ..s
        },
        _ => s,
    }
}

/// A restoration of `key`: a failed command is recorded, and the next step follows either way.
pub open spec fn spec_restored(s: ReconciliationView, key: RemoteKey, e: ReconcileEventView) -> ReconciliationView {
    match e {
        ReconcileEventView::WriteFailed(m) => ReconciliationView {
            failures: s.failures.push(key.spec_name() + ": "@ + m),
            ..s
        },
        _ => s,
    }
}

/// One step of a reconciliation: the next state and action for the reported
/// event. An event that does not answer the current action repeats it.
pub open spec fn spec_step(s: ReconciliationView, e: ReconcileEventView) -> (ReconciliationView, ReconcileActionView) {
    let same = (s, spec_phase_action(s));
    match s.phase {
        ReconcilePhase::Start => match e {
            ReconcileEventView::Proceed => {
                let n = with_phase(s, ReconcilePhase::ReadFetch);
                (n, spec_phase_action(n))
            },
            ReconcileEventView::Cancelled => (
                with_phase(s, ReconcilePhase::Done),
                ReconcileActionView::Finish(Err(seq![LayerView::Cancelled])),
            ),
            _ => same,
        },
        ReconcilePhase::ReadFetch => match e {
            ReconcileEventView::Urls(v) => {
                let n = ReconciliationView { phase: ReconcilePhase::ReadPush, old_fetch: v, ..s };
                (n, spec_phase_action(n))
            },
            ReconcileEventView::ReadFailed(m) => (
                with_phase(s, ReconcilePhase::Done),
                ReconcileActionView::Finish(Err(seq![LayerView::Message(m)])),
            ),
            _ => same,
        },
        ReconcilePhase::ReadPush => match e {
            ReconcileEventView::Urls(v) => {
                let n = ReconciliationView { phase: ReconcilePhase::WritePush, old_push: v, ..s };
                (n, spec_phase_action(n))
            },
            ReconcileEventView::ReadFailed(m) => (
                with_phase(s, ReconcilePhase::Done),
                ReconcileActionView::Finish(Err(seq![LayerView::Message(m)])),
            ),
            _ => same,
        },
        ReconcilePhase::WritePush => match e {
            ReconcileEventView::Written => {
                let n = with_phase(s, ReconcilePhase::WriteFetch);
                (n, spec_phase_action(n))
            },
            ReconcileEventView::WriteFailed(m) => begin_recovery(s, seq![LayerView::Message(m)]),
            _ => same,
        },
        ReconcilePhase::WriteFetch => match e {
            ReconcileEventView::Written => {
                let n = with_phase(s, ReconcilePhase::VerifyFetch);
                (n, spec_phase_action(n))
            },
            ReconcileEventView::WriteFailed(m) => begin_recovery(s, seq![LayerView::Message(m)]),
            _ => same,
        },
        ReconcilePhase::VerifyFetch => match e {
            ReconcileEventView::Urls(v) => if v == seq![s.fetch] {
                let n = with_phase(s, ReconcilePhase::VerifyPush);
                (n, spec_phase_action(n))
            } else {
                begin_recovery(s, not_retained())
            },
            ReconcileEventView::ReadFailed(m) => begin_recovery(s, seq![LayerView::Message(m)]),
            _ => same,
        },
        ReconcilePhase::VerifyPush => match e {
            ReconcileEventView::Urls(v) => if v == seq![s.push] {
                (with_phase(s, ReconcilePhase::Done), ReconcileActionView::Finish(Ok(())))
            } else {
                begin_recovery(s, not_retained())
            },
            ReconcileEventView::ReadFailed(m) => begin_recovery(s, seq![LayerView::Message(m)]),
            _ => same,
        },
        ReconcilePhase::RestoreFetch => match e {
            ReconcileEventView::Written | ReconcileEventView::WriteFailed(_) => {
                let n = with_phase(spec_restored(s, RemoteKey::Fetch, e), ReconcilePhase::RestorePush);
                (n, spec_phase_action(n))
            },
            _ => same,
        },
        ReconcilePhase::RestorePush => match e {
            ReconcileEventView::Written | ReconcileEventView::WriteFailed(_) => {
                let n = with_phase(spec_restored(s, RemoteKey::Push, e), ReconcilePhase::CheckFetch);
                (n, spec_phase_action(n))
            },
            _ => same,
        },
        ReconcilePhase::CheckFetch => match e {
            ReconcileEventView::Urls(_) | ReconcileEventView::ReadFailed(_) => {
                let n = with_phase(spec_check(s, RemoteKey::Fetch, s.old_fetch, e), ReconcilePhase::CheckPush);
                (n, spec_phase_action(n))
            },
            _ => same,
        },
        ReconcilePhase::CheckPush => match e {
            ReconcileEventView::Urls(_) | ReconcileEventView::ReadFailed(_) => {
                let n = with_phase(spec_check(s, RemoteKey::Push, s.old_push, e), ReconcilePhase::Done);
                (n, ReconcileActionView::Finish(Err(spec_recovery_outcome(n))))
            },
            _ => same,
        },
        ReconcilePhase::Done => same,
    }
}


fn copy_strings(v: &Vec<String>) -> (r: Vec<String>)
    ensures
        views(r@) == views(v@),
{
    let mut r: Vec<String> = Vec::new();
    let mut i: usize = 0;
    while i < v.len()
        invariant
            i <= v.len(),
            views(r@) == views(v@).subrange(0, i as int),
        decreases v.len() - i,
    {
        proof {
            lemma_views_push(r@, v@[i as int]);
        }
        r.push(v[i].clone());
        assert(views(v@).subrange(0, i + 1) =~= views(v@).subrange(0, i as int).push(v@[i as int]@));
        i = i + 1;
    }
    assert(views(v@).subrange(0, v.len() as int) =~= views(v@));
    r
}

fn strings_equal(a: &Vec<String>, b: &Vec<String>) -> (r: bool)
    ensures
        r == (views(a@) == views(b@)),
{
    if a.len() != b.len() {
        assert(views(a@).len() != views(b@).len());
        return false;
    }
    let mut i: usize = 0;
    while i < a.len()
        invariant
            i <= a.len(),
            a.len() == b.len(),
            forall|j: int| 0 <= j < i ==> views(a@)[j] == views(b@)[j],
        decreases a.len() - i,
    {
        if !crate::text::str_eq(a[i].as_str(), b[i].as_str()) {
            assert(views(a@)[i as int] != views(b@)[i as int]);
            return false;
        }
        i = i + 1;
    }
    assert(views(a@) =~= views(b@));
    true
}

fn is_single(v: &Vec<String>, url: &String) -> (r: bool)
    ensures
        r == (views(v@) == seq![url@]),
{
    if v.len() != 1 {
        assert(views(v@).len() != 1);
        return false;
    }
    let same = crate::text::str_eq(v[0].as_str(), url.as_str());
    assert(same ==> views(v@) =~= seq![url@]);
    assert(views(v@) == seq![url@] ==> views(v@)[0] == url@);
    same
}

/// Begin reconciling the remote URLs of the checkout at `path` to `fetch` and
/// `push`: the first action checks the caller's token.
pub fn reconcile_remote(path: &str, fetch: &str, push: &str) -> (r: (Reconciliation, ReconcileAction))
    ensures
        r.0@ == (ReconciliationView {
            path: path@,
            fetch: fetch@,
            push: push@,
            phase: ReconcilePhase::Start,
            old_fetch: seq![],
            old_push: seq![],
            error: None,
            failures: seq![],
            restored: true,
        }),
        r.1@ == ReconcileActionView::CheckCancelled,
{
    let s = Reconciliation {
        path: path.to_string(),
        fetch: fetch.to_string(),
        push: push.to_string(),
        phase: ReconcilePhase::Start,
        old_fetch: Vec::new(),
        old_push: Vec::new(),
        error: None,
        failures: Vec::new(),
        restored: true,
    };
    assert(views(s.old_fetch@) =~= seq![]);
    assert(views(s.failures@) =~= seq![]);
    (s, ReconcileAction::CheckCancelled)
}

impl Reconciliation {
    /// The action of the current phase.
    fn action(&self) -> (r: ReconcileAction)
        ensures
            r@ == spec_phase_action(self@),
    {
        match self.phase {
            ReconcilePhase::Start => ReconcileAction::CheckCancelled,
            ReconcilePhase::ReadFetch => ReconcileAction::Read(RemoteKey::Fetch),
            ReconcilePhase::ReadPush => ReconcileAction::Read(RemoteKey::Push),
            ReconcilePhase::WritePush => ReconcileAction::Write { key: RemoteKey::Push, url: self.push.clone() },
            ReconcilePhase::WriteFetch => ReconcileAction::Write { key: RemoteKey::Fetch, url: self.fetch.clone() },
            ReconcilePhase::VerifyFetch => ReconcileAction::Read(RemoteKey::Fetch),
            ReconcilePhase::VerifyPush => ReconcileAction::Read(RemoteKey::Push),
            ReconcilePhase::RestoreFetch => ReconcileAction::Restore {
                key: RemoteKey::Fetch,
                urls: copy_strings(&self.old_fetch),
            },
            ReconcilePhase::RestorePush => ReconcileAction::Restore {
                key: RemoteKey::Push,
                urls: copy_strings(&self.old_push),
            },
            ReconcilePhase::CheckFetch => ReconcileAction::Read(RemoteKey::Fetch),
            ReconcilePhase::CheckPush => ReconcileAction::Read(RemoteKey::Push),
            ReconcilePhase::Done => ReconcileAction::CheckCancelled,
        }
    }

    fn recover(self, error: OperationError) -> (r: (Reconciliation, ReconcileAction))
        ensures
            r.0@ == begin_recovery(self@, error@).0,
            r.1@ == begin_recovery(self@, error@).1,
    {
        let mut n = self;
        n.phase = ReconcilePhase::RestoreFetch;
        n.error = Some(error);
        n.failures = Vec::new();
        n.restored = true;
        assert(views(n.failures@) =~= seq![]);
        let a = n.action();
        (n, a)
    }

    fn record_failure(&mut self, text: String)
        ensures
            final(self)@ == (ReconciliationView { failures: old(self)@.failures.push(text@), ..old(self)@ }),
    {
        proof {
            lemma_views_push(self.failures@, text);
        }
        self.failures.push(text);
    }

    fn check(&mut self, key: RemoteKey, event: &ReconcileEvent)
        requires
            key == RemoteKey::Fetch || key == RemoteKey::Push,
        ensures
            final(self)@ == spec_check(
                old(self)@,
                key,
                if key == RemoteKey::Fetch { old(self)@.old_fetch } else { old(self)@.old_push },
                event@,
            ),
    {
        let expected = if key == RemoteKey::Fetch { copy_strings(&self.old_fetch) } else { copy_strings(&self.old_push) };
        match event {
            ReconcileEvent::Urls(actual) => {
                if !strings_equal(actual, &expected) {
                    self.restored = false;
                    let e = crate::text::debug_list(&expected);
                    let a = crate::text::debug_list(actual);
                    assert(expected@.map_values(|s: String| s@) =~= views(expected@));
                    assert(actual@.map_values(|s: String| s@) =~= views(actual@));
                    let text = crate::text::cat5(key.name(), ": expected ", e.as_str(), ", remaining ", a.as_str());
                    self.record_failure(text);
                }
            },
            ReconcileEvent::ReadFailed(m) => {
                self.restored = false;
                let text = crate::text::cat3(key.name(), ": remaining state unknown: ", m.as_str());
                self.record_failure(text);
            },
            _ => {},
        }
    }

    fn outcome(&self) -> (r: OperationError)
        ensures
            r@ == spec_recovery_outcome(self@),
    {
        let error = match &self.error {
            Some(e) => e.copy(),
            None => OperationError { layers: Vec::new() },
        };
        assert(views(self.failures@) =~= self.failures@.map_values(|s: String| s@));
        let joined = crate::text::join_with(&self.failures, "; ");
        let outer = if !self.restored {
            ErrorLayer::RemoteRecoveryIncomplete(
                RemoteRecoveryIncomplete { path: self.path.clone(), diagnostic: joined },
            )
        } else if self.failures.len() == 0 {
            ErrorLayer::Message("original remote configuration was restored and verified".to_string())
        } else {
            ErrorLayer::Message(
                crate::text::cat2(
                    "original remote configuration verified unchanged despite recovery command failures: ",
                    joined.as_str(),
                ),
            )
        };
        let mut layers = error.layers;
        let ghost inner = layers@;
        layers.insert(0, outer);
        let r = OperationError { layers };
        assert(r@ =~= seq![outer@] + error@);
        r
    }

    /// The next state and action for the reported event. An event that does
    /// not answer the current action repeats the action.
    pub fn step(self, event: ReconcileEvent) -> (r: (Reconciliation, ReconcileAction))
        requires
            self.phase != ReconcilePhase::Done,
        ensures
            (r.0@, r.1@) == spec_step(self@, event@),
    {
        let ghost s = self@;
        let ghost e = event@;
        match self.phase {
            ReconcilePhase::Start => match event {
                ReconcileEvent::Proceed => {
                    let mut n = self;
                    n.phase = ReconcilePhase::ReadFetch;
                    let a = n.action();
                    (n, a)
                },
                ReconcileEvent::Cancelled => {
                    let mut n = self;
                    n.phase = ReconcilePhase::Done;
                    let err = OperationError::new(ErrorLayer::Cancelled(crate::process::Cancelled));
                    assert(err@ =~= seq![LayerView::Cancelled]);
                    (n, ReconcileAction::Finish(Err(err)))
                },
                _ => {
                    let a = self.action();
                    (self, a)
                },
            },
            ReconcilePhase::ReadFetch | ReconcilePhase::ReadPush => match event {
                ReconcileEvent::Urls(v) => {
                    let mut n = self;
                    if n.phase == ReconcilePhase::ReadFetch {
                        n.old_fetch = v;
                        n.phase = ReconcilePhase::ReadPush;
                    } else {
                        n.old_push = v;
                        n.phase = ReconcilePhase::WritePush;
                    }
                    let a = n.action();
                    (n, a)
                },
                ReconcileEvent::ReadFailed(m) => {
                    let mut n = self;
                    n.phase = ReconcilePhase::Done;
                    let err = OperationError::message(m);
                    assert(err@ =~= seq![LayerView::Message(e->ReadFailed_0)]);
                    (n, ReconcileAction::Finish(Err(err)))
                },
                _ => {
                    let a = self.action();
                    (self, a)
                },
            },
            ReconcilePhase::WritePush | ReconcilePhase::WriteFetch => match event {
                ReconcileEvent::Written => {
                    let mut n = self;
                    n.phase = if n.phase == ReconcilePhase::WritePush {
                        ReconcilePhase::WriteFetch
                    } else {
                        ReconcilePhase::VerifyFetch
                    };
                    let a = n.action();
                    (n, a)
                },
                ReconcileEvent::WriteFailed(m) => {
                    let err = OperationError::message(m);
                    assert(err@ =~= seq![LayerView::Message(e->WriteFailed_0)]);
                    self.recover(err)
                },
                _ => {
                    let a = self.action();
                    (self, a)
                },
            },
            ReconcilePhase::VerifyFetch | ReconcilePhase::VerifyPush => match event {
                ReconcileEvent::Urls(v) => {
                    let fetch_phase = self.phase == ReconcilePhase::VerifyFetch;
                    let retained = if fetch_phase { is_single(&v, &self.fetch) } else { is_single(&v, &self.push) };
                    if retained {
                        let mut n = self;
                        if fetch_phase {
                            n.phase = ReconcilePhase::VerifyPush;
                            let a = n.action();
                            (n, a)
                        } else {
                            n.phase = ReconcilePhase::Done;
                            (n, ReconcileAction::Finish(Ok(())))
                        }
                    } else {
                        let err = OperationError::message(
                            "Git did not retain the requested fetch and push URLs".to_string(),
                        );
                        assert(err@ =~= not_retained());
                        self.recover(err)
                    }
                },
                ReconcileEvent::ReadFailed(m) => {
                    let err = OperationError::message(m);
                    assert(err@ =~= seq![LayerView::Message(e->ReadFailed_0)]);
                    self.recover(err)
                },
                _ => {
                    let a = self.action();
                    (self, a)
                },
            },
            ReconcilePhase::RestoreFetch | ReconcilePhase::RestorePush => match event {
                ReconcileEvent::Written => {
                    let mut n = self;
                    n.phase = if n.phase == ReconcilePhase::RestoreFetch {
                        ReconcilePhase::RestorePush
                    } else {
                        ReconcilePhase::CheckFetch
                    };
                    let a = n.action();
                    (n, a)
                },
                ReconcileEvent::WriteFailed(m) => {
                    let mut n = self;
                    let key = if n.phase == ReconcilePhase::RestoreFetch { RemoteKey::Fetch } else { RemoteKey::Push };
                    let text = crate::text::cat3(key.name(), ": ", m.as_str());
                    n.record_failure(text);
                    n.phase = if key == RemoteKey::Fetch {
                        ReconcilePhase::RestorePush
                    } else {
                        ReconcilePhase::CheckFetch
                    };
                    let a = n.action();
                    (n, a)
                },
                _ => {
                    let a = self.action();
                    (self, a)
                },
            },
            ReconcilePhase::CheckFetch | ReconcilePhase::CheckPush => match event {
                ReconcileEvent::Urls(_) | ReconcileEvent::ReadFailed(_) => {
                    let mut n = self;
                    let fetch_phase = n.phase == ReconcilePhase::CheckFetch;
                    let key = if fetch_phase { RemoteKey::Fetch } else { RemoteKey::Push };
                    n.check(key, &event);
                    if fetch_phase {
                        n.phase = ReconcilePhase::CheckPush;
                        let a = n.action();
                        (n, a)
                    } else {
                        n.phase = ReconcilePhase::Done;
                        let err = n.outcome();
                        (n, ReconcileAction::Finish(Err(err)))
                    }
                },
                _ => {
                    let a = self.action();
                    (self, a)
                },
            },
            ReconcilePhase::Done => {
                let a = self.action();
                (self, a)
            },
        }
    }
}


/// A reconciliation succeeds only when the push URL just read back is exactly
/// the requested one, in the phase after the fetch URL was read back.
pub proof fn lemma_reconcile_succeeds_only_when_verified(s: ReconciliationView, e: ReconcileEventView)
    requires
        spec_step(s, e).1 == ReconcileActionView::Finish(Ok(())),
    ensures
        s.phase == ReconcilePhase::VerifyPush,
        e == ReconcileEventView::Urls(seq![s.push]),
{
}

/// The push URL is verified only after the fetch URL read back exactly as requested.
pub proof fn lemma_push_verified_after_fetch(s: ReconciliationView, e: ReconcileEventView)
    requires
        spec_step(s, e).0.phase == ReconcilePhase::VerifyPush,
        s.phase != ReconcilePhase::VerifyPush,
    ensures
        s.phase == ReconcilePhase::VerifyFetch,
        e == ReconcileEventView::Urls(seq![s.fetch]),
{
}

/// The caller's cancellation is honoured only before the change starts; once
/// started, no step ends in a cancellation.
pub proof fn lemma_cancellation_only_before_change(s: ReconciliationView, e: ReconcileEventView)
    requires
        s.phase != ReconcilePhase::Start,
    ensures
        spec_step(s, e).1 != ReconcileActionView::Finish(Err(seq![LayerView::Cancelled])),
{
    let r = spec_step(s, e).1;
    if let ReconcileActionView::Finish(Err(l)) = r {
        if s.phase == ReconcilePhase::CheckPush {
            let n = with_phase(spec_check(s, RemoteKey::Push, s.old_push, e), ReconcilePhase::Done);
            let o = spec_recovery_outcome(n);
            assert(l == o);
            assert(!(o[0] is Cancelled));
        } else {
            assert(!(l[0] is Cancelled));
        }
        assert(l != seq![LayerView::Cancelled]) by {
            if l == seq![LayerView::Cancelled] {
                assert(l[0] is Cancelled);
            }
        }
    }
}

/// When the change fails after the old URLs were read, the next action
/// restores the fetch URL to its old values.
pub proof fn lemma_failed_change_restores_fetch(s: ReconciliationView, e: ReconcileEventView)
    requires
        s.phase == ReconcilePhase::WritePush || s.phase == ReconcilePhase::WriteFetch
            || s.phase == ReconcilePhase::VerifyFetch || s.phase == ReconcilePhase::VerifyPush,
        e is WriteFailed || e is ReadFailed || (e matches ReconcileEventView::Urls(v) && v != seq![s.fetch] && v
            != seq![s.push]),
        !(e is WriteFailed && (s.phase == ReconcilePhase::VerifyFetch || s.phase == ReconcilePhase::VerifyPush)),
        !((e is ReadFailed || e is Urls) && (s.phase == ReconcilePhase::WritePush || s.phase == ReconcilePhase::WriteFetch)),
    ensures
        spec_step(s, e).1 == (ReconcileActionView::Restore { key: RemoteKey::Fetch, urls: s.old_fetch }),
        spec_step(s, e).0.phase == ReconcilePhase::RestoreFetch,
{
}

/// Recovery always runs to its end: after restoring the fetch URL comes the
/// push URL, then the check of each; only the last check finishes.
pub proof fn lemma_recovery_runs_to_completion(s: ReconciliationView, e: ReconcileEventView)
    requires
        s.phase == ReconcilePhase::RestoreFetch || s.phase == ReconcilePhase::RestorePush
            || s.phase == ReconcilePhase::CheckFetch,
    ensures
        !(spec_step(s, e).1 is Finish),
        s.phase == ReconcilePhase::RestoreFetch ==> spec_step(s, e).0.phase == ReconcilePhase::RestoreFetch
            || spec_step(s, e).0.phase == ReconcilePhase::RestorePush,
        s.phase == ReconcilePhase::RestorePush ==> spec_step(s, e).0.phase == ReconcilePhase::RestorePush
            || spec_step(s, e).0.phase == ReconcilePhase::CheckFetch,
        s.phase == ReconcilePhase::CheckFetch ==> spec_step(s, e).0.phase == ReconcilePhase::CheckFetch
            || spec_step(s, e).0.phase == ReconcilePhase::CheckPush,
{
}

/// A recovery reports an incomplete remote configuration exactly when a check
/// found something other than the original values, or could not read them.
pub proof fn lemma_incomplete_exactly_when_check_failed(s: ReconciliationView, e: ReconcileEventView)
    requires
        s.phase == ReconcilePhase::CheckPush,
        e is Urls || e is ReadFailed,
    ensures
        spec_step(s, e).1 matches ReconcileActionView::Finish(Err(layers)) && (layers[0] is RemoteRecoveryIncomplete
            <==> !spec_step(s, e).0.restored),
        !spec_step(s, e).0.restored <==> (!s.restored || e is ReadFailed || (e matches ReconcileEventView::Urls(v)
            && v != s.old_push)),
{
}


/// Whether two URLs name the same repository does not depend on which is the
/// checkout's and which the configured one.
pub proof fn lemma_urls_match_symmetric(a: Seq<char>, b: Seq<char>)
    ensures
        spec_urls_match(a, b) == spec_urls_match(b, a),
{
    let ia = spec_repository_identity(a, seq![]);
    let ib = spec_repository_identity(b, seq![]);
    if same_repository(ia, ib) {
        let (x, y) = (ia->Some_0, ib->Some_0);
        assert(spec_eq_ignore_ascii_case(y.0, x.0));
        assert(spec_eq_ignore_ascii_case(y.1, x.1));
    }
    if same_repository(ib, ia) {
        let (x, y) = (ib->Some_0, ia->Some_0);
        assert(spec_eq_ignore_ascii_case(y.0, x.0));
        assert(spec_eq_ignore_ascii_case(y.1, x.1));
    }
}

/// `x`, the separator `c`, then `y` splits at that separator when `x` holds no `c`.
proof fn lemma_split_once_at(x: Seq<char>, y: Seq<char>, c: char)
    requires
        !x.contains(c),
    ensures
        spec_split_once(x + seq![c] + y, c) == Some((x, y)),
{
    let s = x + seq![c] + y;
    let k = x.len() as int;
    assert(s[k] == c);
    assert(forall|j: int| 0 <= j < k ==> s[j] == x[j]);
    assert(forall|j: int| 0 <= j < k ==> s[j] != c) by {
        assert forall|j: int| 0 <= j < k implies s[j] != c by {
            if s[j] == c {
                assert(x[j] == c);
                assert(x.contains(c));
            }
        }
    }
    assert(s.contains(c));
    let i = choose|i: int| 0 <= i < s.len() && s[i] == c && forall|j: int| 0 <= j < i ==> s[j] != c;
    assert(0 <= k < s.len() && s[k] == c && forall|j: int| 0 <= j < k ==> s[j] != c);
    if i < k {
        assert(s[i] != c);
    }
    if i > k {
        assert(s[k] != c);
    }
    assert(i == k);
    assert(s.subrange(0, k) =~= x);
    assert(s.subrange(k + 1, s.len() as int) =~= y);
}

/// Some occurrence of `c` is its first one.
pub(crate) proof fn lemma_first_occurrence(s: Seq<char>, c: char, k: int)
    requires
        0 <= k < s.len(),
        s[k] == c,
    ensures
        exists|i: int| 0 <= i < s.len() && s[i] == c && forall|j: int| 0 <= j < i ==> s[j] != c,
    decreases k,
{
    if forall|j: int| 0 <= j < k ==> s[j] != c {
        assert(0 <= k < s.len() && s[k] == c && forall|j: int| 0 <= j < k ==> s[j] != c);
    } else {
        let j = choose|j: int| 0 <= j < k && s[j] == c;
        lemma_first_occurrence(s, c, j);
    }
}

/// The part before the first separator holds no separator.
proof fn lemma_split_once_head(s: Seq<char>, c: char)
    requires
        spec_split_once(s, c) is Some,
    ensures
        !spec_split_once(s, c)->Some_0.0.contains(c),
{
    let k = choose|k: int| 0 <= k < s.len() && s[k] == c;
    lemma_first_occurrence(s, c, k);
    let i = choose|i: int| 0 <= i < s.len() && s[i] == c && forall|j: int| 0 <= j < i ==> s[j] != c;
    let head = s.subrange(0, i);
    assert(spec_split_once(s, c)->Some_0.0 == head);
    if head.contains(c) {
        let j = choose|j: int| 0 <= j < head.len() && head[j] == c;
        assert(s[j] == c);
    }
}

/// `owner/name.git` names the repository `owner/name` when neither part holds `/`.
proof fn lemma_repository_path_of(owner: Seq<char>, name: Seq<char>)
    requires
        owner.len() > 0,
        name.len() > 0,
        !owner.contains('/'),
        !name.contains('/'),
    ensures
        spec_repository_path(owner + "/"@ + name + ".git"@) == Some((owner, name)),
{
    reveal_strlit("/");
    reveal_strlit(".git");
    let p = owner + "/"@ + name + ".git"@;
    assert(p.last() == 't');
    assert(spec_trim_end_char(p, '/') == p);
    let bare = owner + "/"@ + name;
    assert(p.subrange(p.len() - 4, p.len() as int) =~= ".git"@);
    assert(p.subrange(0, p.len() - 4) =~= bare);
    assert(spec_strip_suffix(p, ".git"@) == Some(bare));
    assert("/"@ =~= seq!['/']);
    assert(bare =~= owner + seq!['/'] + name);
    lemma_split_once_at(owner, name, '/');
}

/// A character that is no ASCII letter or digit and none of `extra` occurs in
/// no text made of such characters.
proof fn lemma_alnum_excludes(s: Seq<char>, extra: Seq<char>, c: char)
    requires
        all_alnum_or(s, extra),
        !crate::text::spec_is_ascii_alphanumeric(c),
        !extra.contains(c),
    ensures
        !s.contains(c),
{
    if s.contains(c) {
        let i = choose|i: int| 0 <= i < s.len() && s[i] == c;
        assert(crate::text::spec_is_ascii_alphanumeric(s[i]) || extra.contains(s[i]));
    }
}

/// The HTTPS read URL derived from a GitHub SSH URL names the same repository.
pub proof fn lemma_read_url_names_the_same_repository(url: Seq<char>)
    requires
        spec_https_read_url(url) is Some,
    ensures
        spec_repository_identity(spec_https_read_url(url)->Some_0, seq![]) == spec_repository_identity(url, seq![]),
        spec_urls_match(url, spec_https_read_url(url)->Some_0),
{
    reveal_strlit("https://github.com/");
    reveal_strlit("-");
    reveal_strlit("-_.");
    reveal_strlit("/");
    let (owner, name) = spec_repository_identity(url, seq![])->Some_0;
    let h = spec_https_read_url(url)->Some_0;
    assert(h == "https://github.com/"@ + owner + "/"@ + name + ".git"@);
    assert(!crate::text::spec_is_ascii_alphanumeric('/'));
    assert(!"-"@.contains('/'));
    assert(!"-_."@.contains('/'));
    lemma_alnum_excludes(owner, "-"@, '/');
    lemma_alnum_excludes(name, "-_."@, '/');
    lemma_identity_parts(url);
    let pre = "https://github.com/"@;
    let path = owner + "/"@ + name + ".git"@;
    assert(h =~= pre + path);
    assert((pre + path).subrange(0, pre.len() as int) =~= pre);
    assert((pre + path).subrange(pre.len() as int, (pre + path).len() as int) =~= path);
    assert(spec_starts_with(h, pre));
    lemma_repository_path_of(owner, name);
    assert(spec_eq_ignore_ascii_case(owner, owner));
    assert(spec_eq_ignore_ascii_case(name, name));
}

/// A repository identity has a non-empty owner and name.
proof fn lemma_identity_parts(url: Seq<char>)
    requires
        spec_repository_identity(url, seq![]) is Some,
    ensures
        spec_repository_identity(url, seq![])->Some_0.0.len() > 0,
        spec_repository_identity(url, seq![])->Some_0.1.len() > 0,
{
}

/// An SSH URL made of `git@`, a host with no `:`, `:` and a path starts with
/// `git@github.com:` only when the host is `github.com`.
proof fn lemma_github_host_prefix(host: Seq<char>, rest: Seq<char>)
    requires
        !host.contains(':'),
    ensures
        spec_starts_with("git@"@ + host + ":"@ + rest, "git@github.com:"@) ==> host == "github.com"@,
        !spec_starts_with("git@"@ + host + ":"@ + rest, "https://github.com/"@),
        !spec_starts_with("git@"@ + host + ":"@ + rest, "ssh://git@github.com/"@),
        spec_starts_with("git@"@ + host + ":"@ + rest, "git@"@),
        ("git@"@ + host + ":"@ + rest).subrange(4, ("git@"@ + host + ":"@ + rest).len() as int)
            == host + seq![':'] + rest,
{
    reveal_strlit("git@");
    reveal_strlit(":");
    reveal_strlit("git@github.com:");
    reveal_strlit("https://github.com/");
    reveal_strlit("ssh://git@github.com/");
    let g = "github.com"@;
    reveal_strlit("github.com");
    let u = "git@"@ + host + ":"@ + rest;
    let p = "git@github.com:"@;
    assert(u[0] == 'g');
    assert(u.subrange(0, 4) =~= "git@"@);
    assert(u.subrange(4, u.len() as int) =~= host + seq![':'] + rest);
    if spec_starts_with(u, p) {
        let n = host.len() as int;
        assert(u[4 + n] == ':');
        assert(forall|j: int| 0 <= j < n ==> u[4 + j] == host[j]);
        assert(u.subrange(0, 15) == p);
        if n < 10 {
            assert(p[4 + n] == u[4 + n]);
            assert(g[n] == p[4 + n]);
        } else if n > 10 {
            assert(u[14] == host[10]);
            assert(p[14] == ':');
            assert(host.contains(':'));
        } else {
            assert forall|j: int| 0 <= j < 10 implies host[j] == g[j] by {
                assert(u[4 + j] == p[4 + j]);
            }
            assert(host =~= g);
        }
    }
}

/// The SSH push URL through a verified alias names the repository of the
/// canonical HTTPS URL it was made from.
pub proof fn lemma_push_url_names_the_same_repository(
    canonical: Seq<char>,
    alias: Seq<char>,
    aliases: Seq<Seq<char>>,
)
    requires
        spec_ssh_push_url(canonical, alias) is Some,
        aliases.contains(alias),
    ensures
        spec_repository_identity(spec_ssh_push_url(canonical, alias)->Some_0, aliases)
            == spec_https_repository(canonical),
{
    reveal_strlit("._-");
    reveal_strlit("git@");
    reveal_strlit(":");
    reveal_strlit("/");
    reveal_strlit(".git");
    reveal_strlit("github.com");
    reveal_strlit("git@github.com:");
    let (owner, name) = spec_https_repository(canonical)->Some_0;
    let path = spec_strip_prefix(canonical, "https://github.com/"@)->Some_0;
    let trimmed = spec_trim_end_char(path, '/');
    let bare = match spec_strip_suffix(trimmed, ".git"@) {
        Some(stripped) => stripped,
        None => trimmed,
    };
    assert(spec_split_once(bare, '/') == Some((owner, name)));
    lemma_split_once_head(bare, '/');
    assert(!crate::text::spec_is_ascii_alphanumeric(':'));
    assert(!"._-"@.contains(':'));
    lemma_alnum_excludes(alias, "._-"@, ':');
    let rest = owner + "/"@ + name + ".git"@;
    let push = spec_ssh_push_url(canonical, alias)->Some_0;
    assert(push =~= "git@"@ + alias + ":"@ + rest);
    lemma_github_host_prefix(alias, rest);
    lemma_repository_path_of(owner, name);
    assert(":"@ =~= seq![':']);
    if alias == "github.com"@ {
        let u = "git@"@ + alias + ":"@ + rest;
        assert(u =~= "git@github.com:"@ + rest);
        assert(u.subrange(0, 15) =~= "git@github.com:"@);
        assert(u.subrange(15, u.len() as int) =~= rest);
    } else {
        lemma_split_once_at(alias, rest, ':');
    }
}

/// The first whitespace position of `s`.
pub open spec fn spec_first_space(s: Seq<char>) -> Option<int>
    decreases s.len(),
{
    if s.len() == 0 {
        None
    } else if crate::text::spec_is_whitespace(s[0]) {
        Some(0)
    } else {
        match spec_first_space(s.drop_first()) {
            Some(i) => Some(i + 1),
            None => None,
        }
    }
}

/// A `git ls-remote` line: the commit before the first whitespace, and the
/// trimmed reference after it.
pub open spec fn spec_origin_ref(line: Seq<char>) -> Option<(Seq<char>, Seq<char>)> {
    match spec_first_space(line) {
        Some(i) => Some((line.subrange(0, i), spec_trim(line.subrange(i + 1, line.len() as int)))),
        None => None,
    }
}

/// The references of every line, or nothing when one line has none.
pub open spec fn spec_origin_refs(lines: Seq<Seq<char>>) -> Option<Seq<(Seq<char>, Seq<char>)>>
    decreases lines.len(),
{
    if lines.len() == 0 {
        Some(Seq::empty())
    } else {
        match (spec_origin_refs(lines.drop_last()), spec_origin_ref(lines.last())) {
            (Some(refs), Some(r)) => Some(refs.push(r)),
            _ => None,
        }
    }
}

pub open spec fn pair_views(v: Seq<(String, String)>) -> Seq<(Seq<char>, Seq<char>)> {
    v.map_values(|p: (String, String)| (p.0@, p.1@))
}

fn first_space(s: &Vec<char>) -> (r: Option<usize>)
    ensures
        match r {
            Some(i) => i < s.len() && spec_first_space(s@) == Some(i as int),
            None => spec_first_space(s@) is None,
        },
{
    let mut i: usize = 0;
    assert(s@.subrange(0, s.len() as int) =~= s@);
    while i < s.len()
        invariant
            i <= s.len(),
            spec_first_space(s@) == match spec_first_space(s@.subrange(i as int, s.len() as int)) {
                Some(j) => Some(j + i),
                None => None::<int>,
            },
        decreases s.len() - i,
    {
        let ghost rest = s@.subrange(i as int, s.len() as int);
        assert(rest[0] == s@[i as int]);
        assert(rest.drop_first() =~= s@.subrange(i + 1, s.len() as int));
        if crate::text::is_whitespace(s[i]) {
            return Some(i);
        }
        i = i + 1;
    }
    None
}

/// Interpret `git ls-remote --refs`: a commit and a reference for each line.
pub fn parse_origin_refs(output: &str) -> (r: Result<Vec<(String, String)>, GitError>)
    ensures
        match spec_origin_refs(spec_lines(output@)) {
            Some(refs) => r matches Ok(v) && pair_views(v@) == refs,
            None => r == Err::<Vec<(String, String)>, GitError>(GitError::InvalidOriginRef),
        },
{
    let all = lines(&chars_of(output));
    let ghost ls = views(all@);
    let mut refs: Vec<(String, String)> = Vec::new();
    let mut i: usize = 0;
    assert(ls.subrange(0, 0) =~= Seq::<Seq<char>>::empty());
    assert(pair_views(refs@) =~= Seq::<(Seq<char>, Seq<char>)>::empty());
    while i < all.len()
        invariant
            i <= all.len(),
            ls == views(all@),
            ls == spec_lines(output@),
            spec_origin_refs(ls.subrange(0, i as int)) == Some(pair_views(refs@)),
        decreases all.len() - i,
    {
        let ghost next = ls.subrange(0, i + 1);
        assert(next.drop_last() =~= ls.subrange(0, i as int));
        assert(next.last() == all@[i as int]@);
        let line = chars_of(all[i].as_str());
        match first_space(&line) {
            None => {
                proof {
                    lemma_origin_refs_fail(ls, i as int + 1);
                }
                return Err(GitError::InvalidOriginRef);
            },
            Some(k) => {
                let commit = string_of(&subvec(&line, 0, k));
                let reference = string_of(&trim(&subvec(&line, k + 1, line.len())));
                let ghost pair = (commit@, reference@);
                refs.push((commit, reference));
                assert(pair_views(refs@) =~= spec_origin_refs(ls.subrange(0, i as int))->Some_0.push(pair));
            },
        }
        i = i + 1;
    }
    assert(ls.subrange(0, all.len() as int) =~= ls);
    Ok(refs)
}

proof fn lemma_origin_refs_fail(ls: Seq<Seq<char>>, n: int)
    requires
        0 <= n <= ls.len(),
        spec_origin_refs(ls.subrange(0, n)) is None,
    ensures
        spec_origin_refs(ls) is None,
    decreases ls.len() - n,
{
    if n < ls.len() {
        let next = ls.subrange(0, n + 1);
        assert(next.drop_last() =~= ls.subrange(0, n));
        lemma_origin_refs_fail(ls, n + 1);
    } else {
        assert(ls.subrange(0, n) =~= ls);
    }
}

/// The URL that `ls-remote` reaches origin by: the push URL when it is the
/// GitHub SSH form of an HTTPS fetch URL, else the fetch URL.
pub open spec fn spec_origin_query_url(fetch: Option<Seq<char>>, push: Option<Seq<char>>) -> Option<Seq<char>> {
    match (fetch, push) {
        (Some(f), Some(p)) => if spec_https_repository(f) is Some && spec_repository_identity(p, seq![]) is Some
            && spec_urls_match(f, p) {
            Some(p)
        } else {
            Some(f)
        },
        _ => fetch,
    }
}

pub fn origin_query_url(fetch: Option<&str>, push: Option<&str>) -> (r: Option<String>)
    ensures
        opt_string_view(r) == spec_origin_query_url(crate::operations::opt_text(fetch), crate::operations::opt_text(push)),
{
    match (fetch, push) {
        (Some(f), Some(p)) => {
            let none: Vec<String> = Vec::new();
            assert(views(none@) =~= seq![]);
            if github_https_repository(f).is_some() && github_ssh_repository(p, &none).is_some() && urls_match(f, p) {
                Some(p.to_string())
            } else {
                Some(f.to_string())
            }
        },
        (Some(f), None) => Some(f.to_string()),
        (None, _) => None,
    }
}

/// Why the origin of a checkout cannot be read over HTTPS as configured.
#[derive(Debug, Clone, Copy, PartialEq, Eq, Structural)]
pub enum ReadRemoteError {
    NoOrigin,
    NotConfigured,
}

impl ReadRemoteError {
    pub open spec fn spec_message(self) -> Seq<char> {
        match self {
            ReadRemoteError::NoOrigin => "repository has no origin URL"@,
            ReadRemoteError::NotConfigured => "repository origin is not the configured Git repository"@,
        }
    }

    pub fn message(self) -> (r: String)
        ensures
            r@ == self.spec_message(),
    {
        match self {
            ReadRemoteError::NoOrigin => "repository has no origin URL".to_string(),
            ReadRemoteError::NotConfigured => "repository origin is not the configured Git repository".to_string(),
        }
    }
}

/// For a GitHub SSH URL, reading goes over the HTTPS form: the origin must name
/// the configured repository, and its fetch URL becomes the HTTPS form, keeping
/// the push URL (the configured URL when there is none). The plan is the
/// reconciliation to run, `(fetch, push)`, or none when nothing changes.
pub open spec fn spec_plan_read_remote(
    configured: Seq<char>,
    fetch: Option<Seq<char>>,
    push: Option<Seq<char>>,
) -> Result<Option<(Seq<char>, Seq<char>)>, ReadRemoteError> {
    match spec_https_read_url(configured) {
        None => Ok(None),
        Some(read) => match fetch {
            None => Err(ReadRemoteError::NoOrigin),
            Some(actual) => if !spec_urls_match(actual, configured) {
                Err(ReadRemoteError::NotConfigured)
            } else {
                let target_push = match push {
                    Some(p) => p,
                    None => configured,
                };
                if spec_normalize_url(actual) != spec_normalize_url(read) || push is None {
                    Ok(Some((read, target_push)))
                } else {
                    Ok(None)
                }
            },
        },
    }
}

pub fn plan_read_remote(configured: &str, fetch: Option<&str>, push: Option<&str>) -> (r: Result<
    Option<(String, String)>,
    ReadRemoteError,
>)
    ensures
        match (r, spec_plan_read_remote(configured@, crate::operations::opt_text(fetch), crate::operations::opt_text(push))) {
            (Ok(Some((f, p))), Ok(Some((sf, sp)))) => f@ == sf && p@ == sp,
            (Ok(None), Ok(None)) => true,
            (Err(e), Err(se)) => e == se,
            _ => false,
        },
{
    let read = match github_https_read_url(configured) {
        None => return Ok(None),
        Some(read) => read,
    };
    let actual = match fetch {
        None => return Err(ReadRemoteError::NoOrigin),
        Some(a) => a,
    };
    if !urls_match(actual, configured) {
        return Err(ReadRemoteError::NotConfigured);
    }
    let target_push = match push {
        Some(p) => p.to_string(),
        None => configured.to_string(),
    };
    let a = normalize_url(actual);
    let b = normalize_url(read.as_str());
    if !eq(&chars_of(a.as_str()), &chars_of(b.as_str())) || push.is_none() {
        Ok(Some((read, target_push)))
    } else {
        Ok(None)
    }
}

/// Why a checkout cannot be updated.
#[derive(Debug, Clone, PartialEq, Eq)]
pub enum UpdateError {
    Dirty,
    Detached,
    RevisionNotBranch { revision: String, branch: String },
    ChangedDuringFetch,
    NoCommits,
}

impl UpdateError {
    pub open spec fn spec_message(self) -> Seq<char> {
        match self {
            UpdateError::Dirty => "working tree has local changes"@,
            UpdateError::Detached => "repository is detached; this version can only safely update checked-out branches"@,
            UpdateError::RevisionNotBranch { revision, branch } => "configured revision '"@ + revision@
                + "' is not the checked-out branch '"@ + branch@ + "'; this version only updates branches"@,
            UpdateError::ChangedDuringFetch => "repository changed during fetch; retry the update"@,
            UpdateError::NoCommits => "repository has no commits and cannot be updated"@,
        }
    }

    pub fn message(&self) -> (r: String)
        ensures
            r@ == self.spec_message(),
    {
        match self {
            UpdateError::Dirty => "working tree has local changes".to_string(),
            UpdateError::Detached => "repository is detached; this version can only safely update checked-out branches".to_string(),
            UpdateError::RevisionNotBranch { revision, branch } => crate::text::cat5(
                "configured revision '",
                revision.as_str(),
                "' is not the checked-out branch '",
                branch.as_str(),
                "'; this version only updates branches",
            ),
            UpdateError::ChangedDuringFetch => "repository changed during fetch; retry the update".to_string(),
            UpdateError::NoCommits => "repository has no commits and cannot be updated".to_string(),
        }
    }
}

/// Before an update: the checkout must be clean and on a branch, and a
/// configured revision must be that branch. The update then fast-forwards to
/// `origin/<branch>`, which is returned.
pub fn check_update(status: &RepositoryStatus, revision: Option<&str>) -> (r: Result<String, UpdateError>)
    ensures
        status.dirty ==> r == Err::<String, UpdateError>(UpdateError::Dirty),
        !status.dirty && status.branch is None ==> r == Err::<String, UpdateError>(UpdateError::Detached),
        !status.dirty && status.branch is Some ==> match revision {
            Some(rev) if rev@ != status.branch->Some_0@ => r matches Err(
                UpdateError::RevisionNotBranch { revision: x, branch: y },
            ) && x@ == rev@ && y@ == status.branch->Some_0@,
            _ => r matches Ok(t) && t@ == "origin/"@ + status.branch->Some_0@,
        },
{
    if status.dirty {
        return Err(UpdateError::Dirty);
    }
    let branch = match &status.branch {
        None => return Err(UpdateError::Detached),
        Some(b) => b,
    };
    if let Some(rev) = revision {
        if !crate::text::str_eq(rev, branch.as_str()) {
            return Err(UpdateError::RevisionNotBranch { revision: rev.to_string(), branch: branch.clone() });
        }
    }
    Ok(crate::text::cat2("origin/", branch.as_str()))
}

/// After fetching: nothing may have changed the checkout meanwhile. Returns
/// the commit the update started from.
pub fn check_after_fetch(before: &RepositoryStatus, after: &RepositoryStatus) -> (r: Result<String, UpdateError>)
    ensures
        after.dirty || opt_string_view(after.branch) != opt_string_view(before.branch) || opt_string_view(after.commit)
            != opt_string_view(before.commit) ==> r == Err::<String, UpdateError>(UpdateError::ChangedDuringFetch),
        !(after.dirty || opt_string_view(after.branch) != opt_string_view(before.branch) || opt_string_view(
            after.commit,
        ) != opt_string_view(before.commit)) ==> match before.commit {
            None => r == Err::<String, UpdateError>(UpdateError::NoCommits),
            Some(c) => r matches Ok(x) && x@ == c@,
        },
{
    if after.dirty || !crate::text::opt_str_eq(&after.branch, &before.branch) || !crate::text::opt_str_eq(
        &after.commit,
        &before.commit,
    ) {
        return Err(UpdateError::ChangedDuringFetch);
    }
    match &before.commit {
        None => Err(UpdateError::NoCommits),
        Some(c) => Ok(c.clone()),
    }
}

/// `str::split_terminator`: pieces between separators, without a last empty one.
pub open spec fn spec_split_state(s: Seq<char>, sep: char) -> (Seq<Seq<char>>, Seq<char>)
    decreases s.len(),
{
    if s.len() == 0 {
        (Seq::empty(), Seq::empty())
    } else {
        let (pieces, current) = spec_split_state(s.drop_last(), sep);
        if s.last() == sep {
            (pieces.push(current), Seq::empty())
        } else {
            (pieces, current.push(s.last()))
        }
    }
}

pub open spec fn spec_split_terminator(s: Seq<char>, sep: char) -> Seq<Seq<char>> {
    let (pieces, current) = spec_split_state(s, sep);
    if current.len() > 0 {
        pieces.push(current)
    } else {
        pieces
    }
}

/// The values of `git config --null --get-all`: NUL-terminated texts.
pub fn null_separated(text: &str) -> (r: Vec<String>)
    ensures
        views(r@) == spec_split_terminator(text@, '\0'),
{
    let t = chars_of(text);
    let mut pieces: Vec<String> = Vec::new();
    let mut current: Vec<char> = Vec::new();
    let mut i: usize = 0;
    assert(t@.subrange(0, 0) =~= Seq::<char>::empty());
    while i < t.len()
        invariant
            i <= t.len(),
            t@ == text@,
            (views(pieces@), current@) == spec_split_state(t@.subrange(0, i as int), '\0'),
        decreases t.len() - i,
    {
        let ghost next = t@.subrange(0, i + 1);
        assert(next.drop_last() =~= t@.subrange(0, i as int));
        assert(next.last() == t@[i as int]);
        if t[i] == '\0' {
            let piece = string_of(&current);
            proof {
                lemma_views_push(pieces@, piece);
            }
            pieces.push(piece);
            current = Vec::new();
        } else {
            current.push(t[i]);
        }
        i = i + 1;
    }
    assert(t@.subrange(0, t.len() as int) =~= t@);
    if current.len() > 0 {
        let piece = string_of(&current);
        proof {
            lemma_views_push(pieces@, piece);
        }
        pieces.push(piece);
    }
    pieces
}

} // verus!
