//! The local configuration: registered catalogs and the default catalog.
use vstd::prelude::*;

use crate::catalog::{ExtraField, ToolConfig};
use crate::paths::{spec_valid_name, validate_name};
use crate::recipe::{compare_text, lemma_lex_lt_transitive, lemma_lex_total, lex_lt};
use crate::text::{chars_of, str_eq};

verus! {

/// The configuration format version this library reads and writes.
pub const CONFIG_VERSION: u32 = 1;

/// Where a catalog is fetched from, and whether tools may be added to it.
#[derive(Debug, Clone)]
pub struct CatalogSource {
    pub url: String,
    pub writable: bool,
    pub extra: Vec<ExtraField>,
}

/// The local configuration file.
#[derive(Debug, Clone)]
pub struct LocalConfig {
    pub version: u32,
    pub default_catalog: Option<String>,
    pub catalogs: Vec<(String, CatalogSource)>,
    pub extra: Vec<ExtraField>,
}

/// A configuration from before catalogs, which listed tools directly.
#[derive(Debug, Clone)]
pub struct LegacyConfig {
    pub version: u32,
    pub tools: Vec<(String, ToolConfig)>,
    pub extra: Vec<ExtraField>,
}

/// Why a configuration file is rejected.
#[derive(Debug, Clone, PartialEq, Eq)]
pub enum ConfigError {
    /// A `[tools]` table from before catalogs: it must be migrated.
    LegacyTools,
    UnsupportedVersion(u32),
    UnsafeCatalogName(String),
    /// A legacy configuration without any tool to migrate.
    NoLegacyTools,
}

impl ConfigError {
    pub open spec fn spec_message(self, path: Seq<char>) -> Seq<char> {
        match self {
            ConfigError::LegacyTools => "legacy [tools] configuration detected in "@ + path
                + "; migrate it with 'loadbot catalog migrate NAME GIT_URL'"@,
            ConfigError::UnsupportedVersion(v) => "unsupported configuration version "@ + crate::text::spec_decimal(
                v as nat,
            ) + " in "@ + path,
            ConfigError::UnsafeCatalogName(n) => "configuration contains an unsafe catalog name '"@ + n@ + "': "@
                + crate::paths::spec_name_message(n@),
            ConfigError::NoLegacyTools => "legacy configuration contains no tool definitions"@,
        }
    }

    /// The message for the configuration file at `path`.
    pub fn message(&self, path: &str) -> (r: String)
        ensures
            r@ == self.spec_message(path@),
    {
        match self {
            ConfigError::LegacyTools => crate::text::cat3(
                "legacy [tools] configuration detected in ",
                path,
                "; migrate it with 'loadbot catalog migrate NAME GIT_URL'",
            ),
            ConfigError::UnsupportedVersion(v) => {
                let d = crate::text::decimal(*v as u64);
                crate::text::cat4("unsupported configuration version ", d.as_str(), " in ", path)
            },
            ConfigError::UnsafeCatalogName(n) => {
                let detail = crate::paths::name_message(n.as_str());
                crate::text::cat4(
                    "configuration contains an unsafe catalog name '",
                    n.as_str(),
                    "': ",
                    detail.as_str(),
                )
            },
            ConfigError::NoLegacyTools => "legacy configuration contains no tool definitions".to_string(),
        }
    }
}

/// Unknown fields as text pairs.
pub open spec fn extra_view(extra: Seq<ExtraField>) -> Seq<(Seq<char>, Seq<char>)> {
    extra.map_values(|e: ExtraField| (e.0@, e.1@))
}

/// A catalog source as plain values: URL, writability and unknown fields.
pub type SourceView = (Seq<char>, bool, Seq<(Seq<char>, Seq<char>)>);

impl View for CatalogSource {
    type V = SourceView;

    open spec fn view(&self) -> SourceView {
        (self.url@, self.writable, extra_view(self.extra@))
    }
}

/// Registered catalogs as plain values, in order.
pub open spec fn catalogs_view(catalogs: Seq<(String, CatalogSource)>) -> Seq<(Seq<char>, SourceView)> {
    catalogs.map_values(|e: (String, CatalogSource)| (e.0@, e.1@))
}

/// The position of the first entry named `key`.
pub open spec fn spec_position<V>(entries: Seq<(Seq<char>, V)>, key: Seq<char>) -> Option<int>
    decreases entries.len(),
{
    if entries.len() == 0 {
        None
    } else if entries.last().0 == key {
        match spec_position(entries.drop_last(), key) {
            Some(i) => Some(i),
            None => Some(entries.len() - 1),
        }
    } else {
        spec_position(entries.drop_last(), key)
    }
}

/// The value of the first entry named `key`.
pub open spec fn spec_lookup<V>(entries: Seq<(Seq<char>, V)>, key: Seq<char>) -> Option<V> {
    match spec_position(entries, key) {
        Some(i) => Some(entries[i].1),
        None => None,
    }
}

/// Where `key` goes among `entries`: before the first entry whose key does not
/// sort before it.
pub open spec fn spec_insertion_point<V>(entries: Seq<(Seq<char>, V)>, key: Seq<char>) -> int
    decreases entries.len(),
{
    if entries.len() == 0 {
        0
    } else if lex_lt(entries[0].0, key) {
        1 + spec_insertion_point(entries.drop_first(), key)
    } else {
        0
    }
}

/// `entries` with the value of `key` replaced, or with `(key, value)` inserted
/// where `key` sorts.
pub open spec fn spec_insert<V>(entries: Seq<(Seq<char>, V)>, key: Seq<char>, value: V) -> Seq<
    (Seq<char>, V),
> {
    match spec_position(entries, key) {
        Some(i) => entries.update(i, (key, value)),
        None => entries.insert(spec_insertion_point(entries, key), (key, value)),
    }
}

/// Keys in strictly ascending order, hence each at most once: the order of a
/// sorted map.
pub open spec fn keys_ascending<V>(entries: Seq<(Seq<char>, V)>) -> bool {
    forall|i: int, j: int| 0 <= i < j < entries.len() ==> lex_lt(#[trigger] entries[i].0, #[trigger] entries[j].0)
}

/// Entries keyed by the text of their names.
pub open spec fn keyed<V>(entries: Seq<(String, V)>) -> Seq<(Seq<char>, V)> {
    entries.map_values(|e: (String, V)| (e.0@, e.1))
}

proof fn lemma_insertion_point_at<V>(entries: Seq<(Seq<char>, V)>, key: Seq<char>, p: int)
    requires
        0 <= p <= entries.len(),
        forall|j: int| 0 <= j < p ==> lex_lt(#[trigger] entries[j].0, key),
        p == entries.len() || !lex_lt(entries[p].0, key),
    ensures
        spec_insertion_point(entries, key) == p,
    decreases p,
{
    if p > 0 {
        assert(lex_lt(entries[0].0, key));
        let rest = entries.drop_first();
        assert forall|j: int| 0 <= j < p - 1 implies lex_lt(#[trigger] rest[j].0, key) by {
            assert(rest[j] == entries[j + 1]);
        }
        if p < entries.len() {
            assert(rest[p - 1] == entries[p]);
        }
        lemma_insertion_point_at(rest, key, p - 1);
    }
}

proof fn lemma_insertion_point_bounds<V>(entries: Seq<(Seq<char>, V)>, key: Seq<char>)
    ensures
        0 <= spec_insertion_point(entries, key) <= entries.len(),
    decreases entries.len(),
{
    if entries.len() > 0 {
        lemma_insertion_point_bounds(entries.drop_first(), key);
    }
}

/// Where a key stands and where it would go depend on the keys alone.
pub proof fn lemma_same_keys<V, W>(a: Seq<(Seq<char>, V)>, b: Seq<(Seq<char>, W)>, key: Seq<char>)
    requires
        a.len() == b.len(),
        forall|i: int| 0 <= i < a.len() ==> #[trigger] a[i].0 == b[i].0,
    ensures
        spec_position(a, key) == spec_position(b, key),
        spec_insertion_point(a, key) == spec_insertion_point(b, key),
    decreases a.len(),
{
    if a.len() > 0 {
        let (ad, bd) = (a.drop_last(), b.drop_last());
        assert forall|i: int| 0 <= i < ad.len() implies #[trigger] ad[i].0 == bd[i].0 by {
            assert(ad[i] == a[i] && bd[i] == b[i]);
        }
        lemma_same_keys(ad, bd, key);
        let (af, bf) = (a.drop_first(), b.drop_first());
        assert forall|i: int| 0 <= i < af.len() implies #[trigger] af[i].0 == bf[i].0 by {
            assert(af[i] == a[i + 1] && bf[i] == b[i + 1]);
        }
        lemma_same_keys(af, bf, key);
        assert(a[0].0 == b[0].0);
        assert(a.last().0 == b.last().0);
    }
}

/// Inserting into entries whose keys ascend keeps them ascending; the key then
/// reads back the inserted value, and every other key reads what it read
/// before.
pub proof fn lemma_insert_ascending<V>(entries: Seq<(Seq<char>, V)>, key: Seq<char>, value: V)
    requires
        keys_ascending(entries),
    ensures
        keys_ascending(spec_insert(entries, key, value)),
        spec_lookup(spec_insert(entries, key, value), key) == Some(value),
        forall|k: Seq<char>| k != key ==> spec_lookup(spec_insert(entries, key, value), k) == spec_lookup(entries, k),
{
    let r = spec_insert(entries, key, value);
    lemma_position(entries, key);
    lemma_insertion_point_bounds(entries, key);
    let p = spec_insertion_point(entries, key);
    match spec_position(entries, key) {
        Some(i) => {
            assert(r == entries.update(i, (key, value)));
            assert forall|a: int, b: int| 0 <= a < b < r.len() implies lex_lt(#[trigger] r[a].0, #[trigger] r[b].0) by {
                assert(r[a].0 == entries[a].0 && r[b].0 == entries[b].0);
            }
            lemma_position(r, key);
            assert(r[i] == (key, value));
            assert forall|j: int| 0 <= j < i implies r[j].0 != key by {
                assert(r[j] == entries[j]);
            }
            if let Some(q) = spec_position(r, key) {
                if q < i {
                    assert(r[q].0 != key);
                }
                assert(q == i);
            }
            assert forall|k: Seq<char>| k != key implies spec_lookup(r, k) == spec_lookup(entries, k) by {
                lemma_position(r, k);
                lemma_position(entries, k);
                lemma_same_keys(r, entries, k);
                if let Some(j) = spec_position(entries, k) {
                    assert(j != i);
                    assert(r[j] == entries[j]);
                }
            }
        },
        None => {
            assert(r == entries.insert(p, (key, value)));
            lemma_ascending_insertion_point(entries, key);
            assert forall|a: int, b: int| 0 <= a < b < r.len() implies lex_lt(#[trigger] r[a].0, #[trigger] r[b].0) by {
                if b < p {
                    assert(r[a] == entries[a] && r[b] == entries[b]);
                } else if b == p {
                    assert(r[a] == entries[a]);
                } else if a == p {
                    assert(r[b] == entries[b - 1]);
                    if b - 1 > p {
                        lemma_lex_lt_transitive(key, entries[p].0, entries[b - 1].0);
                    }
                } else if a < p {
                    assert(r[a] == entries[a] && r[b] == entries[b - 1]);
                    if b - 1 >= p {
                        if b - 1 > p {
                            lemma_lex_lt_transitive(key, entries[p].0, entries[b - 1].0);
                        }
                        lemma_lex_lt_transitive(entries[a].0, key, entries[b - 1].0);
                    }
                } else {
                    assert(r[a] == entries[a - 1] && r[b] == entries[b - 1]);
                }
            }
            assert(r[p] == (key, value));
            assert forall|j: int| 0 <= j < p implies r[j].0 != key by {
                assert(r[j] == entries[j]);
            }
            lemma_position(r, key);
            if let Some(q) = spec_position(r, key) {
                if q < p {
                    assert(r[q].0 != key);
                }
                assert(q == p);
            }
            assert forall|k: Seq<char>| k != key implies spec_lookup(r, k) == spec_lookup(entries, k) by {
                lemma_position(r, k);
                lemma_position(entries, k);
                match spec_position(entries, k) {
                    Some(j) => {
                        let nj = if j < p { j } else { j + 1 };
                        assert(r[nj] == entries[j]);
                        assert forall|m: int| 0 <= m < nj implies r[m].0 != k by {
                            if m < p {
                                assert(r[m] == entries[m]);
                            } else if m > p {
                                assert(r[m] == entries[m - 1]);
                            }
                        }
                    },
                    None => {
                        assert forall|m: int| 0 <= m < r.len() implies r[m].0 != k by {
                            if m < p {
                                assert(r[m] == entries[m]);
                            } else if m > p {
                                assert(r[m] == entries[m - 1]);
                            }
                        }
                    },
                }
            }
        },
    }
}

/// Among ascending keys, every key before the insertion point sorts before
/// `key`, and `key` sorts before every key from it on that differs from it.
proof fn lemma_ascending_insertion_point<V>(entries: Seq<(Seq<char>, V)>, key: Seq<char>)
    requires
        keys_ascending(entries),
        spec_position(entries, key) is None,
    ensures
        forall|j: int| 0 <= j < spec_insertion_point(entries, key) ==> lex_lt(#[trigger] entries[j].0, key),
        forall|j: int|
            spec_insertion_point(entries, key) <= j < entries.len() ==> lex_lt(key, #[trigger] entries[j].0),
    decreases entries.len(),
{
    lemma_position(entries, key);
    if entries.len() > 0 {
        let rest = entries.drop_first();
        assert forall|a: int, b: int| 0 <= a < b < rest.len() implies lex_lt(#[trigger] rest[a].0, #[trigger] rest[b].0) by {
            assert(rest[a] == entries[a + 1] && rest[b] == entries[b + 1]);
        }
        lemma_position(rest, key);
        if spec_position(rest, key) is Some {
            let j = spec_position(rest, key)->Some_0;
            assert(rest[j] == entries[j + 1]);
        }
        lemma_ascending_insertion_point(rest, key);
        lemma_insertion_point_bounds(rest, key);
        if lex_lt(entries[0].0, key) {
            assert(spec_insertion_point(entries, key) == 1 + spec_insertion_point(rest, key));
            assert forall|j: int| 0 <= j < spec_insertion_point(entries, key) implies lex_lt(
                #[trigger] entries[j].0,
                key,
            ) by {
                if j > 0 {
                    assert(rest[j - 1] == entries[j]);
                }
            }
            assert forall|j: int| spec_insertion_point(entries, key) <= j < entries.len() implies lex_lt(
                key,
                #[trigger] entries[j].0,
            ) by {
                assert(rest[j - 1] == entries[j]);
            }
        } else {
            lemma_lex_total(entries[0].0, key);
            assert forall|j: int| 0 <= j < entries.len() implies lex_lt(key, #[trigger] entries[j].0) by {
                if j > 0 {
                    lemma_lex_lt_transitive(key, entries[0].0, entries[j].0);
                }
            }
        }
    }
}

/// Where `key` stands among `entries`, or, when it does not, where it goes.
pub fn find_slot<V>(entries: &Vec<(String, V)>, key: &str) -> (r: (usize, bool))
    ensures
        r.1 ==> spec_position(keyed(entries@), key@) == Some(r.0 as int),
        !r.1 ==> spec_position(keyed(entries@), key@) is None && r.0 == spec_insertion_point(
            keyed(entries@),
            key@,
        ),
        r.0 <= entries.len(),
        r.1 ==> r.0 < entries.len(),
{
    let ghost kv = keyed(entries@);
    proof {
        lemma_position(kv, key@);
    }
    match position(entries, key) {
        Some(i) => {
            proof {
                if spec_position(kv, key@) != Some(i as int) {
                    let j = spec_position(kv, key@)->Some_0;
                    assert(kv[i as int].0 == key@);
                }
            }
            (i, true)
        },
        None => {
            let k = chars_of(key);
            let mut p: usize = 0;
            while p < entries.len() && compare_text(&chars_of(entries[p].0.as_str()), &k) < 0
                invariant
                    p <= entries.len(),
                    k@ == key@,
                    kv == keyed(entries@),
                    forall|j: int| 0 <= j < p ==> lex_lt(#[trigger] kv[j].0, key@),
                decreases entries.len() - p,
            {
                p = p + 1;
            }
            proof {
                if spec_position(kv, key@) is Some {
                    let j = spec_position(kv, key@)->Some_0;
                    assert(entries@[j].0@ == key@);
                }
                lemma_insertion_point_at(kv, key@, p as int);
            }
            (p, false)
        },
    }
}

pub proof fn lemma_position<V>(entries: Seq<(Seq<char>, V)>, key: Seq<char>)
    ensures
        spec_position(entries, key) matches Some(i) ==> 0 <= i < entries.len() && entries[i].0 == key
            && forall|j: int| 0 <= j < i ==> entries[j].0 != key,
        spec_position(entries, key) is None ==> forall|j: int| 0 <= j < entries.len() ==> entries[j].0 != key,
    decreases entries.len(),
{
    if entries.len() > 0 {
        lemma_position(entries.drop_last(), key);
        assert forall|j: int| 0 <= j < entries.len() - 1 implies entries.drop_last()[j] == entries[j] by {}
    }
}

/// The index of the first entry named `key`.
pub fn position<V>(entries: &Vec<(String, V)>, key: &str) -> (r: Option<usize>)
    ensures
        r matches Some(i) ==> i < entries.len() && entries@[i as int].0@ == key@ && forall|j: int|
            0 <= j < i ==> entries@[j].0@ != key@,
        r is None ==> forall|j: int| 0 <= j < entries.len() ==> entries@[j].0@ != key@,
{
    let mut i: usize = 0;
    while i < entries.len()
        invariant
            i <= entries.len(),
            forall|j: int| 0 <= j < i ==> entries@[j].0@ != key@,
        decreases entries.len() - i,
    {
        if str_eq(entries[i].0.as_str(), key) {
            return Some(i);
        }
        i = i + 1;
    }
    None
}

pub proof fn lemma_position_view<V>(entries: Seq<(String, CatalogSource)>, key: Seq<char>)
    ensures
        spec_position(catalogs_view(entries), key) matches Some(i) ==> 0 <= i < entries.len() && entries[i].0@
            == key && forall|j: int| 0 <= j < i ==> entries[j].0@ != key,
        spec_position(catalogs_view(entries), key) is None ==> forall|j: int|
            0 <= j < entries.len() ==> entries[j].0@ != key,
{
    let v = catalogs_view(entries);
    assert(v.len() == entries.len());
    assert forall|j: int| 0 <= j < entries.len() implies v[j].0 == #[trigger] entries[j].0@ by {}
    lemma_position(v, key);
}

impl CatalogSource {
    /// A source with no unknown fields.
    pub fn new(url: String, writable: bool) -> (r: Self)
        ensures
            r.url == url,
            r.writable == writable,
            r.extra@.len() == 0,
    {
        CatalogSource { url, writable, extra: Vec::new() }
    }

    /// A copy with the same view.
    pub fn copy(&self) -> (r: Self)
        ensures
            r@ == self@,
    {
        let mut extra: Vec<ExtraField> = Vec::new();
        let mut i: usize = 0;
        while i < self.extra.len()
            invariant
                i <= self.extra.len(),
                extra_view(extra@) == extra_view(self.extra@).subrange(0, i as int),
            decreases self.extra.len() - i,
        {
            let e = (self.extra[i].0.clone(), self.extra[i].1.clone());
            let ghost before = extra@;
            extra.push(e);
            assert(extra@ == before.push(e));
            assert(extra_view(extra@) =~= extra_view(before).push((e.0@, e.1@)));
            assert(extra_view(extra@) =~= extra_view(self.extra@).subrange(0, i + 1));
            i = i + 1;
        }
        assert(extra_view(self.extra@).subrange(0, self.extra.len() as int) =~= extra_view(self.extra@));
        CatalogSource { url: self.url.clone(), writable: self.writable, extra }
    }

    /// Whether two sources are equal: URL, writability and unknown fields.
    pub fn same(&self, other: &Self) -> (r: bool)
        ensures
            r == (self@ == other@),
    {
        if !str_eq(self.url.as_str(), other.url.as_str()) || self.writable != other.writable
            || self.extra.len() != other.extra.len() {
            proof {
                if self@ == other@ {
                    assert(extra_view(self.extra@).len() == self.extra.len());
                }
            }
            return false;
        }
        let mut i: usize = 0;
        while i < self.extra.len()
            invariant
                i <= self.extra.len(),
                self.extra.len() == other.extra.len(),
                forall|j: int| 0 <= j < i ==> extra_view(self.extra@)[j] == extra_view(other.extra@)[j],
            decreases self.extra.len() - i,
        {
            if !str_eq(self.extra[i].0.as_str(), other.extra[i].0.as_str()) || !str_eq(
                self.extra[i].1.as_str(),
                other.extra[i].1.as_str(),
            ) {
                assert(extra_view(self.extra@)[i as int] != extra_view(other.extra@)[i as int]);
                return false;
            }
            i = i + 1;
        }
        assert(extra_view(self.extra@) =~= extra_view(other.extra@));
        true
    }
}

impl LocalConfig {
    /// The configuration used before any catalog is registered.
    pub fn new() -> (r: Self)
        ensures
            r.version == CONFIG_VERSION,
            r.default_catalog is None,
            r.catalogs@.len() == 0,
            r.extra@.len() == 0,
    {
        LocalConfig { version: CONFIG_VERSION, default_catalog: None, catalogs: Vec::new(), extra: Vec::new() }
    }

    /// The source registered under `name`.
    pub fn source(&self, name: &str) -> (r: Option<&CatalogSource>)
        ensures
            match r {
                Some(s) => spec_lookup(catalogs_view(self.catalogs@), name@) == Some(s@),
                None => spec_lookup(catalogs_view(self.catalogs@), name@) is None,
            },
    {
        proof {
            lemma_position_view::<CatalogSource>(self.catalogs@, name@);
        }
        match position(&self.catalogs, name) {
            Some(i) => {
                proof {
                    lemma_position(catalogs_view(self.catalogs@), name@);
                }
                Some(&self.catalogs[i].1)
            },
            None => None,
        }
    }

    /// The registered catalog names, in order.
    pub fn catalog_names(&self) -> (r: Vec<String>)
        ensures
            r@.len() == self.catalogs@.len(),
            forall|i: int| 0 <= i < r@.len() ==> r@[i]@ == self.catalogs@[i].0@,
    {
        let mut r: Vec<String> = Vec::new();
        let mut i: usize = 0;
        while i < self.catalogs.len()
            invariant
                i <= self.catalogs.len(),
                r@.len() == i,
                forall|j: int| 0 <= j < i ==> r@[j]@ == self.catalogs@[j].0@,
            decreases self.catalogs.len() - i,
        {
            r.push(self.catalogs[i].0.clone());
            i = i + 1;
        }
        r
    }
}

/// Check a configuration as it is read: no legacy `[tools]` table, the current
/// version, and portable catalog names.
pub fn check_local(config: &LocalConfig, has_tools_table: bool) -> (r: Result<(), ConfigError>)
    ensures
        has_tools_table ==> r == Err::<(), ConfigError>(ConfigError::LegacyTools),
        !has_tools_table && config.version != CONFIG_VERSION ==> r == Err::<(), ConfigError>(
            ConfigError::UnsupportedVersion(config.version),
        ),
        !has_tools_table && config.version == CONFIG_VERSION ==> match r {
            Ok(()) => forall|i: int| 0 <= i < config.catalogs@.len() ==> spec_valid_name(#[trigger] config.catalogs@[i].0@),
            Err(ConfigError::UnsafeCatalogName(name)) => exists|i: int|
                0 <= i < config.catalogs@.len() && config.catalogs@[i].0@ == name@ && !spec_valid_name(
                    name@,
                ) && forall|j: int| 0 <= j < i ==> spec_valid_name(#[trigger] config.catalogs@[j].0@),
            Err(_) => false,
        },
{
    if has_tools_table {
        return Err(ConfigError::LegacyTools);
    }
    if config.version != CONFIG_VERSION {
        return Err(ConfigError::UnsupportedVersion(config.version));
    }
    let mut i: usize = 0;
    while i < config.catalogs.len()
        invariant
            i <= config.catalogs.len(),
            !has_tools_table,
            config.version == CONFIG_VERSION,
            forall|j: int| 0 <= j < i ==> spec_valid_name(#[trigger] config.catalogs@[j].0@),
        decreases config.catalogs.len() - i,
    {
        if validate_name(config.catalogs[i].0.as_str()).is_err() {
            return Err(ConfigError::UnsafeCatalogName(config.catalogs[i].0.clone()));
        }
        i = i + 1;
    }
    Ok(())
}

/// Check a legacy configuration before migration: the current version and at
/// least one tool.
pub fn check_legacy(config: &LegacyConfig) -> (r: Result<(), ConfigError>)
    ensures
        config.version != CONFIG_VERSION ==> r == Err::<(), ConfigError>(
            ConfigError::UnsupportedVersion(config.version),
        ),
        config.version == CONFIG_VERSION && config.tools@.len() == 0 ==> r == Err::<(), ConfigError>(
            ConfigError::NoLegacyTools,
        ),
        config.version == CONFIG_VERSION && config.tools@.len() > 0 ==> r is Ok,
{
    if config.version != CONFIG_VERSION {
        Err(ConfigError::UnsupportedVersion(config.version))
    } else if config.tools.len() == 0 {
        Err(ConfigError::NoLegacyTools)
    } else {
        Ok(())
    }
}

/// Texts in strictly ascending order, hence each at most once.
pub open spec fn strictly_sorted(s: Seq<Seq<char>>) -> bool {
    forall|i: int, j: int| 0 <= i < j < s.len() ==> lex_lt(#[trigger] s[i], #[trigger] s[j])
}

/// The names, each once, in ascending order.
pub fn sorted_names(names: &Vec<String>) -> (r: Vec<String>)
    ensures
        strictly_sorted(crate::git::views(r@)),
        forall|x: Seq<char>| crate::git::views(r@).contains(x) <==> crate::git::views(names@).contains(x),
{
    let ghost all = crate::git::views(names@);
    let mut r: Vec<String> = Vec::new();
    let mut i: usize = 0;
    assert(crate::git::views(r@) =~= Seq::<Seq<char>>::empty());
    while i < names.len()
        invariant
            i <= names.len(),
            all == crate::git::views(names@),
            strictly_sorted(crate::git::views(r@)),
            forall|x: Seq<char>| crate::git::views(r@).contains(x) <==> all.subrange(0, i as int).contains(x),
        decreases names.len() - i,
    {
        let ghost before = crate::git::views(r@);
        let key = chars_of(names[i].as_str());
        let mut p: usize = 0;
        while p < r.len() && compare_text(&chars_of(r[p].as_str()), &key) == -1
            invariant
                p <= r.len(),
                before == crate::git::views(r@),
                forall|j: int| 0 <= j < p ==> lex_lt(#[trigger] before[j], key@),
            decreases r.len() - p,
        {
            assert(before[p as int] == r@[p as int]@);
            p = p + 1;
        }
        let found = p < r.len() && compare_text(&chars_of(r[p].as_str()), &key) == 0;
        let ghost upto = all.subrange(0, i + 1);
        assert(upto =~= all.subrange(0, i as int).push(key@));
        if found {
            assert(before[p as int] == key@);
            assert forall|x: Seq<char>| crate::git::views(r@).contains(x) <==> upto.contains(x) by {
                if upto.contains(x) && !all.subrange(0, i as int).contains(x) {
                    assert(x == key@);
                    assert(before.contains(x)) by {
                        assert(before[p as int] == x);
                    }
                }
                if all.subrange(0, i as int).contains(x) {
                    let k = choose|k: int| 0 <= k < i && all.subrange(0, i as int)[k] == x;
                    assert(upto[k] == x);
                }
            }
        } else {
            proof {
                if p < r.len() {
                    lemma_lex_total(before[p as int], key@);
                }
            }
            let item = names[i].clone();
            r.insert(p, item);
            let ghost after = crate::git::views(r@);
            assert(after =~= before.insert(p as int, key@));
            assert forall|a: int, b: int| 0 <= a < b < after.len() implies lex_lt(#[trigger] after[a], #[trigger] after[b]) by {
                if b < p {
                    assert(after[a] == before[a] && after[b] == before[b]);
                } else if b == p {
                    assert(after[a] == before[a]);
                } else if a == p {
                    assert(after[b] == before[b - 1]);
                    if b - 1 > p {
                        assert(lex_lt(before[p as int], before[b - 1]));
                        lemma_lex_lt_transitive(key@, before[p as int], before[b - 1]);
                    }
                } else if a < p {
                    assert(after[a] == before[a] && after[b] == before[b - 1]);
                    if b - 1 >= p {
                        lemma_lex_total(before[p as int], key@);
                        if b - 1 > p {
                            lemma_lex_lt_transitive(key@, before[p as int], before[b - 1]);
                        }
                        lemma_lex_lt_transitive(before[a], key@, before[b - 1]);
                    }
                } else {
                    assert(after[a] == before[a - 1] && after[b] == before[b - 1]);
                }
            }
            assert forall|x: Seq<char>| after.contains(x) <==> upto.contains(x) by {
                if after.contains(x) {
                    let k = choose|k: int| 0 <= k < after.len() && after[k] == x;
                    if k != p {
                        let m = if k < p { k } else { k - 1 };
                        assert(before[m] == x);
                        assert(before.contains(x));
                        let q = choose|q: int| 0 <= q < i && all.subrange(0, i as int)[q] == x;
                        assert(upto[q] == x);
                    } else {
                        assert(upto[i as int] == x);
                    }
                }
                if upto.contains(x) {
                    let k = choose|k: int| 0 <= k < i + 1 && upto[k] == x;
                    if k == i {
                        assert(after[p as int] == x);
                    } else {
                        assert(all.subrange(0, i as int)[k] == x);
                        assert(before.contains(x));
                        let m = choose|m: int| 0 <= m < before.len() && before[m] == x;
                        if m < p {
                            assert(after[m] == x);
                        } else {
                            assert(after[m + 1] == x);
                        }
                    }
                }
            }
        }
        i = i + 1;
    }
    assert(all.subrange(0, names.len() as int) =~= all);
    r
}

} // verus!
