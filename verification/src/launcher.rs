//! Launching project files: the commands a launch tries, exit codes, the
//! browsing order, the project inventory and the listings of shortcuts.
use vstd::prelude::*;

use crate::catalog::{CommandConfig, Platform, ResolvedTool, Runner};
use crate::git::views;
use crate::recipe::{compare_text, lemma_lex_lt_irreflexive, lemma_lex_lt_transitive, lemma_lex_total, lex_lt, StoredInvocation};
use crate::shortcuts::{Shortcut, ShortcutFile};
use crate::text::{cat2, cat3, chars_of, decimal, eq_ignore_ascii_case, spec_eq_ignore_ascii_case, spec_join_with, str_eq};

verus! {

/// The decimal text of a signed number, as `Display` writes it.
pub open spec fn spec_signed_decimal(n: int) -> Seq<char> {
    if n < 0 {
        "-"@ + crate::text::spec_decimal((-n) as nat)
    } else {
        crate::text::spec_decimal(n as nat)
    }
}

/// The decimal text of a signed number.
pub fn signed_decimal(n: i32) -> (r: String)
    ensures
        r@ == spec_signed_decimal(n as int),
{
    if n < 0 {
        let magnitude: u64 = (0i64 - n as i64) as u64;
        let digits = decimal(magnitude);
        crate::text::cat2("-", digits.as_str())
    } else {
        decimal(n as u64)
    }
}

/// A launched program exited unsuccessfully with this code.
#[derive(Debug, Clone, PartialEq, Eq)]
pub struct ChildExit {
    code: i32,
    target: String,
}

impl ChildExit {
    pub closed spec fn spec_code(&self) -> i32 {
        self.code
    }

    pub closed spec fn spec_target(&self) -> Seq<char> {
        self.target@
    }

    /// The exit of `target` with `code`.
    pub fn new(code: i32, target: String) -> (r: Self)
        ensures
            r.spec_code() == code,
            r.spec_target() == target@,
    {
        ChildExit { code, target }
    }

    /// A field-by-field copy.
    pub fn copy(&self) -> (r: Self)
        ensures
            r == *self,
    {
        ChildExit { code: self.code, target: self.target.clone() }
    }

    /// The exit code, which becomes the process's own.
    pub fn code(&self) -> (r: i32)
        ensures
            r == self.spec_code(),
    {
        self.code
    }

    /// `<target> exited with status <code>`.
    pub fn message(&self) -> (r: String)
        ensures
            r@ == self.spec_target() + " exited with status "@ + spec_signed_decimal(self.spec_code() as int),
    {
        let code = signed_decimal(self.code);
        cat3(self.target.as_str(), " exited with status ", code.as_str())
    }
}

/// What a help probe ran and what it printed.
#[derive(Debug, Clone, PartialEq, Eq)]
pub struct HelpResult {
    pub command_attempted: Vec<String>,
    pub stdout: String,
    pub stderr: String,
    pub exit_status: Option<i32>,
    pub detected_help_flag: Option<String>,
}

/// Where a launcher entry is defined.
#[derive(Debug, Clone, Copy, PartialEq, Eq, PartialOrd, Ord)]
pub enum EntrySource {
    Catalog,
    Personal,
}

/// One entry of a browsed project directory.
#[derive(Debug, Clone, PartialEq, Eq)]
pub struct BrowserEntry {
    pub name: String,
    pub path: String,
    pub is_directory: bool,
}

/// A project of the launcher: one tool of one catalog, with its catalog
/// commands and personal shortcuts.
#[derive(Debug, Clone)]
pub struct Project {
    pub tool: String,
    pub catalog: String,
    pub installed: bool,
    pub entries: Vec<ProjectEntry>,
}

/// A command of a project, from its catalog or from the personal shortcuts.
#[derive(Debug, Clone)]
pub struct ProjectEntry {
    pub name: String,
    pub description: Option<String>,
    pub invocation: StoredInvocation,
    pub source: EntrySource,
}

/// A project's tool and catalog as text.
pub type ProjectKey = (Seq<char>, Seq<char>);

/// Projects as plain values: key and entries, in order.
pub type ProjectsView = Seq<(ProjectKey, Seq<ProjectEntry>)>;

/// One step of gathering the inventory: a project, and maybe one of its entries.
pub type InventoryItem = (ProjectKey, Option<ProjectEntry>);

/// Projects order by tool, then by catalog.
pub open spec fn key_before(a: ProjectKey, b: ProjectKey) -> bool {
    lex_lt(a.0, b.0) || (a.0 == b.0 && lex_lt(a.1, b.1))
}

/// Entries order by name; of two with the same name, the catalog's comes first.
pub open spec fn entry_before(a: ProjectEntry, b: ProjectEntry) -> bool {
    lex_lt(a.name@, b.name@) || (a.name@ == b.name@ && a.source == EntrySource::Catalog && b.source
        == EntrySource::Personal)
}

pub open spec fn spec_project_position(ps: ProjectsView, key: ProjectKey) -> Option<int>
    decreases ps.len(),
{
    if ps.len() == 0 {
        None
    } else if ps[0].0 == key {
        Some(0)
    } else {
        match spec_project_position(ps.drop_first(), key) {
            Some(i) => Some(i + 1),
            None => None,
        }
    }
}

pub open spec fn spec_project_slot(ps: ProjectsView, key: ProjectKey) -> int
    decreases ps.len(),
{
    if ps.len() == 0 {
        0
    } else if key_before(ps[0].0, key) {
        1 + spec_project_slot(ps.drop_first(), key)
    } else {
        0
    }
}

/// Where `e` goes among `es`: after every entry that does not sort after it,
/// so that entries of equal rank keep the order they came in.
pub open spec fn spec_entry_slot(es: Seq<ProjectEntry>, e: ProjectEntry) -> int
    decreases es.len(),
{
    if es.len() == 0 {
        0
    } else if !entry_before(e, es[0]) {
        1 + spec_entry_slot(es.drop_first(), e)
    } else {
        0
    }
}

/// The projects with `key` present: where it is, or a new empty project where it sorts.
pub open spec fn spec_add_key(ps: ProjectsView, key: ProjectKey) -> (ProjectsView, int) {
    match spec_project_position(ps, key) {
        Some(i) => (ps, i),
        None => (ps.insert(spec_project_slot(ps, key), (key, Seq::empty())), spec_project_slot(ps, key)),
    }
}

pub open spec fn spec_add_item(ps: ProjectsView, item: InventoryItem) -> ProjectsView {
    let (added, i) = spec_add_key(ps, item.0);
    match item.1 {
        None => added,
        Some(e) => added.update(i, (added[i].0, added[i].1.insert(spec_entry_slot(added[i].1, e), e))),
    }
}

/// The projects gathered from `items`, one at a time.
pub open spec fn spec_inventory(items: Seq<InventoryItem>) -> ProjectsView
    decreases items.len(),
{
    if items.len() == 0 {
        Seq::empty()
    } else {
        spec_add_item(spec_inventory(items.drop_last()), items.last())
    }
}

pub open spec fn command_entry(c: (String, CommandConfig)) -> ProjectEntry {
    ProjectEntry { name: c.0, description: c.1.description, invocation: c.1.invocation, source: EntrySource::Catalog }
}

/// A tool makes its project, then brings each of its commands.
pub open spec fn tool_items(t: ResolvedTool) -> Seq<InventoryItem> {
    seq![((t.name@, t.catalog@), None::<ProjectEntry>)] + t.definition.commands@.map_values(
        |c: (String, CommandConfig)| ((t.name@, t.catalog@), Some(command_entry(c))),
    )
}

pub open spec fn all_tool_items(tools: Seq<ResolvedTool>) -> Seq<InventoryItem>
    decreases tools.len(),
{
    if tools.len() == 0 {
        Seq::empty()
    } else {
        all_tool_items(tools.drop_last()) + tool_items(tools.last())
    }
}

pub open spec fn shortcut_item(s: (String, Shortcut)) -> InventoryItem {
    (
        (s.1.tool@, s.1.catalog@),
        Some(
            ProjectEntry {
                name: s.0,
                description: s.1.description,
                invocation: s.1.invocation,
                source: EntrySource::Personal,
            },
        ),
    )
}

/// Every tool with its commands, then every personal shortcut.
pub open spec fn inventory_items(tools: Seq<ResolvedTool>, shortcuts: Seq<(String, Shortcut)>) -> Seq<
    InventoryItem,
> {
    all_tool_items(tools) + shortcuts.map_values(|s: (String, Shortcut)| shortcut_item(s))
}

pub open spec fn projects_view(ps: Seq<Project>) -> ProjectsView {
    ps.map_values(|p: Project| ((p.tool@, p.catalog@), p.entries@))
}

pub open spec fn none_installed(ps: Seq<Project>) -> bool {
    forall|i: int| 0 <= i < ps.len() ==> !(#[trigger] ps[i]).installed
}

fn key_sorts_before(p: &Project, tool: &str, catalog: &str) -> (r: bool)
    ensures
        r == key_before((p.tool@, p.catalog@), (tool@, catalog@)),
{
    let by_tool = compare_text(&chars_of(p.tool.as_str()), &chars_of(tool));
    if by_tool != 0 {
        by_tool < 0
    } else {
        compare_text(&chars_of(p.catalog.as_str()), &chars_of(catalog)) < 0
    }
}

fn entry_sorts_before(a: &ProjectEntry, b: &ProjectEntry) -> (r: bool)
    ensures
        r == entry_before(*a, *b),
{
    let by_name = compare_text(&chars_of(a.name.as_str()), &chars_of(b.name.as_str()));
    if by_name != 0 {
        by_name < 0
    } else {
        match (a.source, b.source) {
            (EntrySource::Catalog, EntrySource::Personal) => true,
            _ => false,
        }
    }
}

proof fn lemma_project_position_at(ps: ProjectsView, key: ProjectKey, i: int)
    requires
        0 <= i <= ps.len(),
        forall|j: int| 0 <= j < i ==> (#[trigger] ps[j]).0 != key,
        i < ps.len() ==> ps[i].0 == key,
    ensures
        spec_project_position(ps, key) == (if i < ps.len() { Some(i) } else { None::<int> }),
    decreases i,
{
    if ps.len() > 0 && i > 0 {
        let rest = ps.drop_first();
        assert(ps[0].0 != key);
        assert forall|j: int| 0 <= j < i - 1 implies (#[trigger] rest[j]).0 != key by {
            assert(rest[j] == ps[j + 1]);
        }
        if i < ps.len() {
            assert(rest[i - 1] == ps[i]);
        }
        lemma_project_position_at(rest, key, i - 1);
    }
}

proof fn lemma_project_slot_at(ps: ProjectsView, key: ProjectKey, p: int)
    requires
        0 <= p <= ps.len(),
        forall|j: int| 0 <= j < p ==> key_before((#[trigger] ps[j]).0, key),
        p == ps.len() || !key_before(ps[p].0, key),
    ensures
        spec_project_slot(ps, key) == p,
    decreases p,
{
    if p > 0 {
        let rest = ps.drop_first();
        assert(key_before(ps[0].0, key));
        assert forall|j: int| 0 <= j < p - 1 implies key_before((#[trigger] rest[j]).0, key) by {
            assert(rest[j] == ps[j + 1]);
        }
        if p < ps.len() {
            assert(rest[p - 1] == ps[p]);
        }
        lemma_project_slot_at(rest, key, p - 1);
    }
}

proof fn lemma_entry_slot_at(es: Seq<ProjectEntry>, e: ProjectEntry, p: int)
    requires
        0 <= p <= es.len(),
        forall|j: int| 0 <= j < p ==> !entry_before(e, #[trigger] es[j]),
        p == es.len() || entry_before(e, es[p]),
    ensures
        spec_entry_slot(es, e) == p,
    decreases p,
{
    if p > 0 {
        let rest = es.drop_first();
        assert(!entry_before(e, es[0]));
        assert forall|j: int| 0 <= j < p - 1 implies !entry_before(e, #[trigger] rest[j]) by {
            assert(rest[j] == es[j + 1]);
        }
        if p < es.len() {
            assert(rest[p - 1] == es[p]);
        }
        lemma_entry_slot_at(rest, e, p - 1);
    }
}

/// Add one inventory item: its project where it sorts, and its entry among the
/// project's entries where it sorts.
fn add_item(projects: &mut Vec<Project>, tool: &String, catalog: &String, entry: Option<ProjectEntry>)
    requires
        none_installed(old(projects)@),
    ensures
        projects_view(final(projects)@) == spec_add_item(projects_view(old(projects)@), ((tool@, catalog@), entry)),
        none_installed(final(projects)@),
{
    let ghost key = (tool@, catalog@);
    let ghost before = projects_view(projects@);
    let mut i: usize = 0;
    let mut searching = true;
    while searching
        invariant
            i <= projects.len(),
            before == projects_view(projects@),
            key == (tool@, catalog@),
            forall|j: int| 0 <= j < i ==> (#[trigger] before[j]).0 != key,
            !searching ==> i == projects.len() || before[i as int].0 == key,
        decreases projects.len() - i + (if searching { 1int } else { 0int }),
    {
        if i == projects.len() {
            searching = false;
        } else {
            let same = str_eq(projects[i].tool.as_str(), tool.as_str()) && str_eq(
                projects[i].catalog.as_str(),
                catalog.as_str(),
            );
            assert(before[i as int].0 == (projects@[i as int].tool@, projects@[i as int].catalog@));
            if same {
                searching = false;
            } else {
                i = i + 1;
            }
        }
    }
    proof {
        lemma_project_position_at(before, key, i as int);
    }
    if i == projects.len() {
        let mut p: usize = 0;
        let mut scanning = true;
        while scanning
            invariant
                p <= projects.len(),
                before == projects_view(projects@),
                key == (tool@, catalog@),
                forall|j: int| 0 <= j < p ==> key_before((#[trigger] before[j]).0, key),
                !scanning ==> p == projects.len() || !key_before(before[p as int].0, key),
            decreases projects.len() - p + (if scanning { 1int } else { 0int }),
        {
            if p == projects.len() {
                scanning = false;
            } else {
                let earlier = key_sorts_before(&projects[p], tool.as_str(), catalog.as_str());
                assert(before[p as int].0 == (projects@[p as int].tool@, projects@[p as int].catalog@));
                if earlier {
                    p = p + 1;
                } else {
                    scanning = false;
                }
            }
        }
        proof {
            lemma_project_slot_at(before, key, p as int);
        }
        let fresh = Project { tool: tool.clone(), catalog: catalog.clone(), installed: false, entries: Vec::new() };
        let ghost fresh_view = ((fresh.tool@, fresh.catalog@), fresh.entries@);
        assert(fresh_view == (key, Seq::<ProjectEntry>::empty()));
        projects.insert(p, fresh);
        assert(projects_view(projects@) =~= before.insert(p as int, fresh_view));
        i = p;
    }
    let ghost added = projects_view(projects@);
    assert(added == spec_add_key(before, key).0);
    assert(i as int == spec_add_key(before, key).1);
    match entry {
        None => {},
        Some(e) => {
            let mut project = projects.remove(i);
            let mut q: usize = 0;
            while q < project.entries.len() && !entry_sorts_before(&e, &project.entries[q])
                invariant
                    q <= project.entries.len(),
                    forall|j: int| 0 <= j < q ==> !entry_before(e, #[trigger] project.entries@[j]),
                decreases project.entries.len() - q,
            {
                q = q + 1;
            }
            proof {
                lemma_entry_slot_at(project.entries@, e, q as int);
            }
            project.entries.insert(q, e);
            projects.insert(i, project);
            assert(projects_view(projects@) =~= added.update(
                i as int,
                (added[i as int].0, added[i as int].1.insert(spec_entry_slot(added[i as int].1, e), e)),
            ));
        },
    }
}

/// The launcher's projects: one for each tool and for each tool that only
/// personal shortcuts name, by tool and then catalog, each with its catalog
/// commands and shortcuts by name, a catalog command before a shortcut of the
/// same name. None is marked installed yet.
pub fn project_inventory(tools: Vec<ResolvedTool>, shortcut_file: ShortcutFile) -> (r: Vec<Project>)
    ensures
        projects_view(r@) == spec_inventory(inventory_items(tools@, shortcut_file.shortcuts@)),
        none_installed(r@),
{
    let ghost orig = tools@;
    let ghost shortcuts = shortcut_file.shortcuts@;
    let mut projects: Vec<Project> = Vec::new();
    let mut rest = tools;
    let ghost mut k: int = 0;
    assert(orig.subrange(0, 0) =~= Seq::<ResolvedTool>::empty());
    assert(projects_view(projects@) =~= spec_inventory(all_tool_items(orig.subrange(0, 0))));
    while rest.len() > 0
        invariant
            0 <= k <= orig.len(),
            rest@ == orig.subrange(k, orig.len() as int),
            projects_view(projects@) == spec_inventory(all_tool_items(orig.subrange(0, k))),
            none_installed(projects@),
        decreases rest.len(),
    {
        let ghost done = all_tool_items(orig.subrange(0, k));
        let tool = rest.remove(0);
        assert(tool == orig[k]);
        let ghost items = tool_items(tool);
        let ghost commands_all = tool.definition.commands@;
        let ghost first = ((tool.name@, tool.catalog@), None::<ProjectEntry>);
        add_item(&mut projects, &tool.name, &tool.catalog, None);
        assert(items[0] == first);
        assert((done + items.subrange(0, 1)).drop_last() =~= done);
        assert((done + items.subrange(0, 1)).last() == first);
        let name = tool.name;
        let catalog = tool.catalog;
        let mut commands = tool.definition.commands;
        let ghost mut m: int = 0;
        while commands.len() > 0
            invariant
                0 <= m <= commands_all.len(),
                commands@ == commands_all.subrange(m, commands_all.len() as int),
                items == seq![((name@, catalog@), None::<ProjectEntry>)] + commands_all.map_values(
                    |c: (String, CommandConfig)| ((name@, catalog@), Some(command_entry(c))),
                ),
                projects_view(projects@) == spec_inventory(done + items.subrange(0, m + 1)),
                none_installed(projects@),
            decreases commands.len(),
        {
            let (command_name, command) = commands.remove(0);
            let ghost c = (command_name, command);
            assert(c == commands_all[m]);
            let e = ProjectEntry {
                name: command_name,
                description: command.description,
                invocation: command.invocation,
                source: EntrySource::Catalog,
            };
            assert(e == command_entry(c));
            assert(items[m + 1] == ((name@, catalog@), Some(e)));
            add_item(&mut projects, &name, &catalog, Some(e));
            assert((done + items.subrange(0, m + 2)).drop_last() =~= done + items.subrange(0, m + 1));
            assert((done + items.subrange(0, m + 2)).last() == items[m + 1]);
            proof {
                m = m + 1;
            }
        }
        proof {
            assert(items.subrange(0, m + 1) =~= items);
            let upto = orig.subrange(0, k + 1);
            assert(upto.drop_last() =~= orig.subrange(0, k));
            assert(upto.last() == orig[k]);
            assert(rest@ =~= orig.subrange(k + 1, orig.len() as int));
            k = k + 1;
        }
    }
    assert(orig.subrange(0, k) =~= orig);
    let ghost tool_part = all_tool_items(orig);
    let ghost shortcut_part = shortcuts.map_values(|s: (String, Shortcut)| shortcut_item(s));
    let mut entries = shortcut_file.shortcuts;
    let ghost mut n: int = 0;
    assert(tool_part + shortcut_part.subrange(0, 0) =~= tool_part);
    while entries.len() > 0
        invariant
            0 <= n <= shortcuts.len(),
            entries@ == shortcuts.subrange(n, shortcuts.len() as int),
            shortcut_part == shortcuts.map_values(|s: (String, Shortcut)| shortcut_item(s)),
            projects_view(projects@) == spec_inventory(tool_part + shortcut_part.subrange(0, n)),
            none_installed(projects@),
        decreases entries.len(),
    {
        let (shortcut_name, shortcut) = entries.remove(0);
        let ghost sc = (shortcut_name, shortcut);
        assert(sc == shortcuts[n]);
        let e = ProjectEntry {
            name: shortcut_name,
            description: shortcut.description,
            invocation: shortcut.invocation,
            source: EntrySource::Personal,
        };
        assert(shortcut_part[n] == ((shortcut.tool@, shortcut.catalog@), Some(e)));
        add_item(&mut projects, &shortcut.tool, &shortcut.catalog, Some(e));
        assert((tool_part + shortcut_part.subrange(0, n + 1)).drop_last() =~= tool_part + shortcut_part.subrange(0, n));
        assert((tool_part + shortcut_part.subrange(0, n + 1)).last() == shortcut_part[n]);
        proof {
            n = n + 1;
        }
    }
    assert(shortcut_part.subrange(0, n) =~= shortcut_part);
    projects
}

pub open spec fn projects_ascending(ps: ProjectsView) -> bool {
    forall|i: int, j: int| 0 <= i < j < ps.len() ==> key_before((#[trigger] ps[i]).0, (#[trigger] ps[j]).0)
}

proof fn lemma_key_order(a: ProjectKey, b: ProjectKey, c: ProjectKey)
    ensures
        key_before(a, b) && key_before(b, c) ==> key_before(a, c),
        !key_before(a, a),
        a == b || key_before(a, b) || key_before(b, a),
{
    lemma_lex_lt_irreflexive(a.0);
    lemma_lex_lt_irreflexive(a.1);
    lemma_lex_total(a.0, b.0);
    lemma_lex_total(a.1, b.1);
    if key_before(a, b) && key_before(b, c) {
        if lex_lt(a.0, b.0) && lex_lt(b.0, c.0) {
            lemma_lex_lt_transitive(a.0, b.0, c.0);
        } else if a.0 == b.0 && b.0 == c.0 {
            lemma_lex_lt_transitive(a.1, b.1, c.1);
        }
    }
}

proof fn lemma_project_slot_bounds(ps: ProjectsView, key: ProjectKey)
    ensures
        0 <= spec_project_slot(ps, key) <= ps.len(),
        forall|j: int| 0 <= j < spec_project_slot(ps, key) ==> key_before((#[trigger] ps[j]).0, key),
        spec_project_slot(ps, key) < ps.len() ==> !key_before(ps[spec_project_slot(ps, key)].0, key),
    decreases ps.len(),
{
    if ps.len() > 0 {
        let rest = ps.drop_first();
        lemma_project_slot_bounds(rest, key);
        if key_before(ps[0].0, key) {
            assert forall|j: int| 0 <= j < spec_project_slot(ps, key) implies key_before((#[trigger] ps[j]).0, key) by {
                if j > 0 {
                    assert(ps[j] == rest[j - 1]);
                }
            }
            if spec_project_slot(ps, key) < ps.len() {
                assert(ps[spec_project_slot(ps, key)] == rest[spec_project_slot(rest, key)]);
            }
        }
    }
}

proof fn lemma_project_position_found(ps: ProjectsView, key: ProjectKey)
    ensures
        spec_project_position(ps, key) matches Some(i) ==> 0 <= i < ps.len() && ps[i].0 == key,
        spec_project_position(ps, key) is None ==> forall|j: int| 0 <= j < ps.len() ==> (#[trigger] ps[j]).0 != key,
    decreases ps.len(),
{
    if ps.len() > 0 {
        let rest = ps.drop_first();
        lemma_project_position_found(rest, key);
        assert forall|j: int| 0 < j < ps.len() implies ps[j] == rest[j - 1] by {}
    }
}

/// The inventory holds each project once, ordered by tool and then catalog.
pub proof fn lemma_inventory_projects_ascending(items: Seq<InventoryItem>)
    ensures
        projects_ascending(spec_inventory(items)),
    decreases items.len(),
{
    if items.len() > 0 {
        lemma_inventory_projects_ascending(items.drop_last());
        let ps = spec_inventory(items.drop_last());
        let key = items.last().0;
        lemma_project_position_found(ps, key);
        lemma_project_slot_bounds(ps, key);
        let added = spec_add_key(ps, key).0;
        let i = spec_add_key(ps, key).1;
        if spec_project_position(ps, key) is None {
            let p = spec_project_slot(ps, key);
            assert forall|a: int, b: int| 0 <= a < b < added.len() implies key_before(
                (#[trigger] added[a]).0,
                (#[trigger] added[b]).0,
            ) by {
                if b < p {
                    assert(added[a] == ps[a] && added[b] == ps[b]);
                } else if b == p {
                    assert(added[a] == ps[a]);
                } else if a == p {
                    assert(added[b] == ps[b - 1]);
                    lemma_key_order(ps[p].0, key, ps[p].0);
                    lemma_key_order(key, ps[p].0, ps[b - 1].0);
                } else if a < p {
                    assert(added[a] == ps[a] && added[b] == ps[b - 1]);
                    lemma_key_order(ps[p].0, key, ps[p].0);
                    lemma_key_order(key, ps[p].0, ps[b - 1].0);
                    lemma_key_order(ps[a].0, key, ps[b - 1].0);
                } else {
                    assert(added[a] == ps[a - 1] && added[b] == ps[b - 1]);
                }
            }
        }
        let r = spec_inventory(items);
        assert(r.len() == added.len());
        assert forall|j: int| 0 <= j < r.len() implies (#[trigger] r[j]).0 == added[j].0 by {}
    }
}

/// Browsed entries order directories first, then by name.
pub open spec fn browse_before(a: BrowserEntry, b: BrowserEntry) -> bool {
    (a.is_directory && !b.is_directory) || (a.is_directory == b.is_directory && lex_lt(a.name@, b.name@))
}

/// Where `e` goes among `es`: after every entry that does not sort after it.
pub open spec fn spec_browse_slot(es: Seq<BrowserEntry>, e: BrowserEntry) -> int
    decreases es.len(),
{
    if es.len() == 0 {
        0
    } else if !browse_before(e, es[0]) {
        1 + spec_browse_slot(es.drop_first(), e)
    } else {
        0
    }
}

/// `es` sorted for display, inserting one entry at a time.
pub open spec fn spec_sort_browsed(es: Seq<BrowserEntry>) -> Seq<BrowserEntry>
    decreases es.len(),
{
    if es.len() == 0 {
        Seq::empty()
    } else {
        let r = spec_sort_browsed(es.drop_last());
        r.insert(spec_browse_slot(r, es.last()), es.last())
    }
}

proof fn lemma_browse_slot_at(es: Seq<BrowserEntry>, e: BrowserEntry, p: int)
    requires
        0 <= p <= es.len(),
        forall|j: int| 0 <= j < p ==> !browse_before(e, #[trigger] es[j]),
        p == es.len() || browse_before(e, es[p]),
    ensures
        spec_browse_slot(es, e) == p,
    decreases p,
{
    if p > 0 {
        let rest = es.drop_first();
        assert(!browse_before(e, es[0]));
        assert forall|j: int| 0 <= j < p - 1 implies !browse_before(e, #[trigger] rest[j]) by {
            assert(rest[j] == es[j + 1]);
        }
        if p < es.len() {
            assert(rest[p - 1] == es[p]);
        }
        lemma_browse_slot_at(rest, e, p - 1);
    }
}

/// Order the entries of a browsed directory: directories first, then by name.
pub fn sort_browsed(entries: Vec<BrowserEntry>) -> (r: Vec<BrowserEntry>)
    ensures
        r@ == spec_sort_browsed(entries@),
{
    let ghost orig = entries@;
    let mut rest = entries;
    let mut sorted: Vec<BrowserEntry> = Vec::new();
    let ghost mut k: int = 0;
    assert(orig.subrange(0, 0) =~= Seq::<BrowserEntry>::empty());
    while rest.len() > 0
        invariant
            0 <= k <= orig.len(),
            rest@ == orig.subrange(k, orig.len() as int),
            sorted@ == spec_sort_browsed(orig.subrange(0, k)),
        decreases rest.len(),
    {
        let e = rest.remove(0);
        assert(e == orig[k]);
        let mut p: usize = 0;
        let mut scanning = true;
        while scanning
            invariant
                p <= sorted.len(),
                forall|j: int| 0 <= j < p ==> !browse_before(e, #[trigger] sorted@[j]),
                !scanning ==> p == sorted.len() || browse_before(e, sorted@[p as int]),
            decreases sorted.len() - p + (if scanning { 1int } else { 0int }),
        {
            if p == sorted.len() {
                scanning = false;
            } else {
                let other = &sorted[p];
                let before = if e.is_directory != other.is_directory {
                    e.is_directory
                } else {
                    compare_text(&chars_of(e.name.as_str()), &chars_of(other.name.as_str())) < 0
                };
                if before {
                    scanning = false;
                } else {
                    p = p + 1;
                }
            }
        }
        proof {
            lemma_browse_slot_at(sorted@, e, p as int);
            let upto = orig.subrange(0, k + 1);
            assert(upto.drop_last() =~= orig.subrange(0, k));
            assert(upto.last() == e);
        }
        sorted.insert(p, e);
        proof {
            assert(rest@ =~= orig.subrange(k + 1, orig.len() as int));
            k = k + 1;
        }
    }
    assert(orig.subrange(0, k) =~= orig);
    sorted
}

/// What a directory listing says of one entry: its name, when it is UTF-8,
/// its path, and what kind of object it is without following links.
pub struct ListedEntry {
    pub name: Option<String>,
    pub path: String,
    pub is_symlink: bool,
    pub is_dir: bool,
    pub is_file: bool,
}

/// An entry that can be browsed: a plain file or directory, not a link, with
/// a UTF-8 name.
pub open spec fn browsable(e: ListedEntry) -> bool {
    !e.is_symlink && (e.is_dir || e.is_file) && e.name is Some
}

pub open spec fn browser_entry(e: ListedEntry) -> BrowserEntry {
    BrowserEntry { name: e.name->Some_0, path: e.path, is_directory: e.is_dir }
}

/// The browsable entries of a listing, in the listing's order.
pub open spec fn spec_browsable_entries(entries: Seq<ListedEntry>) -> Seq<BrowserEntry>
    decreases entries.len(),
{
    if entries.len() == 0 {
        Seq::empty()
    } else if browsable(entries.last()) {
        spec_browsable_entries(entries.drop_last()).push(browser_entry(entries.last()))
    } else {
        spec_browsable_entries(entries.drop_last())
    }
}

/// The entries of a browsed directory to offer: links, special files and
/// names that are not UTF-8 are left out; directories come first, then names
/// in order.
pub fn browsable_entries(entries: Vec<ListedEntry>) -> (r: Vec<BrowserEntry>)
    ensures
        r@ == spec_sort_browsed(spec_browsable_entries(entries@)),
{
    let ghost orig = entries@;
    let mut rest = entries;
    let mut kept: Vec<BrowserEntry> = Vec::new();
    let ghost mut k: int = 0;
    assert(orig.subrange(0, 0) =~= Seq::<ListedEntry>::empty());
    while rest.len() > 0
        invariant
            0 <= k <= orig.len(),
            rest@ == orig.subrange(k, orig.len() as int),
            kept@ == spec_browsable_entries(orig.subrange(0, k)),
        decreases rest.len(),
    {
        let e = rest.remove(0);
        proof {
            assert(e == orig[k]);
            assert(orig.subrange(0, k + 1).drop_last() =~= orig.subrange(0, k));
            assert(orig.subrange(0, k + 1).last() == orig[k]);
            assert(rest@ =~= orig.subrange(k + 1, orig.len() as int));
        }
        let keep = !e.is_symlink && (e.is_dir || e.is_file);
        match e.name {
            Some(name) => {
                if keep {
                    kept.push(BrowserEntry { name, path: e.path, is_directory: e.is_dir });
                }
            },
            None => {},
        }
        proof {
            k = k + 1;
        }
    }
    assert(orig.subrange(0, orig.len() as int) =~= orig);
    sort_browsed(kept)
}

/// What inspecting one selected directory component found, without following
/// links.
#[derive(Debug, Clone, Copy, PartialEq, Eq, Structural)]
pub struct ComponentFacts {
    pub is_symlink: bool,
    pub is_dir: bool,
}

/// Why a directory of a tool checkout cannot be browsed.
#[derive(Debug, Clone, Copy, PartialEq, Eq, Structural)]
pub enum BrowseProblem {
    SymlinkRoot,
    SymlinkDirectory,
    NotDirectory,
    Escapes,
}

impl BrowseProblem {
    pub open spec fn spec_message(self) -> Seq<char> {
        match self {
            BrowseProblem::SymlinkRoot => "refusing to browse a symlink tool directory"@,
            BrowseProblem::SymlinkDirectory => "refusing to browse a symlink directory"@,
            BrowseProblem::NotDirectory => "selected path is not a directory"@,
            BrowseProblem::Escapes => "selected directory escapes its tool repository"@,
        }
    }

    pub fn message(&self) -> (r: String)
        ensures
            r@ == self.spec_message(),
    {
        match self {
            BrowseProblem::SymlinkRoot => "refusing to browse a symlink tool directory".to_string(),
            BrowseProblem::SymlinkDirectory => "refusing to browse a symlink directory".to_string(),
            BrowseProblem::NotDirectory => "selected path is not a directory".to_string(),
            BrowseProblem::Escapes => "selected directory escapes its tool repository".to_string(),
        }
    }
}

/// The first of the selected components, in order, that is a link or not a
/// directory.
pub open spec fn spec_component_problem(components: Seq<ComponentFacts>) -> Option<BrowseProblem>
    decreases components.len(),
{
    if components.len() == 0 {
        None
    } else if components[0].is_symlink {
        Some(BrowseProblem::SymlinkDirectory)
    } else if !components[0].is_dir {
        Some(BrowseProblem::NotDirectory)
    } else {
        spec_component_problem(components.drop_first())
    }
}

/// Whether a directory may be browsed: the tool directory is no link, each
/// selected component is a directory and no link, and the directory they
/// name lies inside the tool directory. `inside` is `None` while that is not
/// known yet: the check then covers what is known.
pub open spec fn spec_browse_problem(
    root_is_symlink: bool,
    components: Seq<ComponentFacts>,
    inside: Option<bool>,
) -> Option<BrowseProblem> {
    if root_is_symlink {
        Some(BrowseProblem::SymlinkRoot)
    } else if spec_component_problem(components) is Some {
        spec_component_problem(components)
    } else if inside == Some(false) {
        Some(BrowseProblem::Escapes)
    } else {
        None
    }
}

/// Check a directory before browsing it; a caller may check after each
/// component it inspects and stop at the first problem.
pub fn browse_problem(root_is_symlink: bool, components: &Vec<ComponentFacts>, inside: Option<bool>) -> (r: Option<
    BrowseProblem,
>)
    ensures
        r == spec_browse_problem(root_is_symlink, components@, inside),
{
    if root_is_symlink {
        return Some(BrowseProblem::SymlinkRoot);
    }
    let mut i: usize = 0;
    assert(components@.subrange(0, components@.len() as int) =~= components@);
    while i < components.len()
        invariant
            !root_is_symlink,
            i <= components.len(),
            spec_component_problem(components@) == spec_component_problem(components@.subrange(i as int, components@.len() as int)),
        decreases components.len() - i,
    {
        let c = components[i];
        proof {
            let rest = components@.subrange(i as int, components@.len() as int);
            assert(rest[0] == c);
            assert(rest.drop_first() =~= components@.subrange(i + 1, components@.len() as int));
            assert(spec_component_problem(rest) == (if c.is_symlink {
                Some(BrowseProblem::SymlinkDirectory)
            } else if !c.is_dir {
                Some(BrowseProblem::NotDirectory)
            } else {
                spec_component_problem(rest.drop_first())
            }));
        }
        if c.is_symlink {
            return Some(BrowseProblem::SymlinkDirectory);
        }
        if !c.is_dir {
            return Some(BrowseProblem::NotDirectory);
        }
        i = i + 1;
    }
    assert(spec_component_problem(components@.subrange(i as int, components@.len() as int)) is None);
    match inside {
        Some(false) => Some(BrowseProblem::Escapes),
        _ => None,
    }
}

/// A directory passes the check only where every selected component is a
/// directory that is no link.
pub proof fn lemma_browsed_components_are_directories(
    root_is_symlink: bool,
    components: Seq<ComponentFacts>,
    inside: Option<bool>,
)
    requires
        spec_browse_problem(root_is_symlink, components, inside) is None,
    ensures
        !root_is_symlink,
        inside != Some(false),
        forall|i: int| 0 <= i < components.len() ==> !(#[trigger] components[i]).is_symlink && components[i].is_dir,
    decreases components.len(),
{
    if components.len() > 0 {
        lemma_browsed_components_are_directories(root_is_symlink, components.drop_first(), inside);
        assert forall|i: int| 0 <= i < components.len() implies !(#[trigger] components[i]).is_symlink
            && components[i].is_dir by {
            if i > 0 {
                assert(components[i] == components.drop_first()[i - 1]);
            }
        }
    }
}

/// Every entry offered for browsing is a plain file or directory that was
/// listed, not a link, under its UTF-8 name.
pub proof fn lemma_browsable_entries_are_listed(entries: Seq<ListedEntry>)
    ensures
        forall|j: int|
            0 <= j < spec_browsable_entries(entries).len() ==> exists|i: int|
                0 <= i < entries.len() && browsable(entries[i]) && #[trigger] spec_browsable_entries(entries)[j]
                    == browser_entry(entries[i]),
    decreases entries.len(),
{
    if entries.len() > 0 {
        let prefix = entries.drop_last();
        lemma_browsable_entries_are_listed(prefix);
        assert forall|j: int| 0 <= j < spec_browsable_entries(entries).len() implies exists|i: int|
            0 <= i < entries.len() && browsable(entries[i]) && #[trigger] spec_browsable_entries(entries)[j]
                == browser_entry(entries[i]) by {
            if j < spec_browsable_entries(prefix).len() {
                assert(spec_browsable_entries(entries)[j] == spec_browsable_entries(prefix)[j]);
                let i = choose|i: int|
                    0 <= i < prefix.len() && browsable(prefix[i]) && #[trigger] spec_browsable_entries(prefix)[j]
                        == browser_entry(prefix[i]);
                assert(entries[i] == prefix[i]);
                assert(0 <= i < entries.len() && browsable(entries[i]) && spec_browsable_entries(entries)[j]
                    == browser_entry(entries[i]));
            } else {
                let i = entries.len() - 1;
                assert(entries[i] == entries.last());
                assert(browsable(entries[i]) && spec_browsable_entries(entries)[j] == browser_entry(entries[i]));
            }
        }
    } else {
        assert(spec_browsable_entries(entries).len() == 0);
    }
}

/// The interpreters tried, in order, for a script that is not executable
/// itself, by its extension ignoring ASCII case; none for other extensions.
pub open spec fn spec_script_interpreters(extension: Seq<char>, platform: Platform) -> Option<Seq<Seq<char>>> {
    if spec_eq_ignore_ascii_case(extension, "py"@) {
        Some(
            match platform {
                Platform::Windows => seq!["python"@, "python3"@],
                Platform::Other => seq!["python3"@, "python"@],
            },
        )
    } else if spec_eq_ignore_ascii_case(extension, "sh"@) {
        Some(seq!["sh"@])
    } else if spec_eq_ignore_ascii_case(extension, "ps1"@) {
        Some(seq!["pwsh"@, "powershell"@])
    } else {
        None
    }
}

fn strings2(a: &str, b: &str) -> (r: Vec<String>)
    ensures
        views(r@) == seq![a@, b@],
{
    let mut v: Vec<String> = Vec::new();
    v.push(a.to_string());
    v.push(b.to_string());
    assert(views(v@) =~= seq![a@, b@]);
    v
}

/// The interpreters for a script with this extension.
pub fn script_interpreters(extension: &str, platform: Platform) -> (r: Option<Vec<String>>)
    ensures
        match (r, spec_script_interpreters(extension@, platform)) {
            (Some(v), Some(s)) => views(v@) == s,
            (None, None) => true,
            _ => false,
        },
{
    let e = chars_of(extension);
    if eq_ignore_ascii_case(&e, &chars_of("py")) {
        Some(match platform {
            Platform::Windows => strings2("python", "python3"),
            Platform::Other => strings2("python3", "python"),
        })
    } else if eq_ignore_ascii_case(&e, &chars_of("sh")) {
        let mut v: Vec<String> = Vec::new();
        v.push("sh".to_string());
        assert(views(v@) =~= seq!["sh"@]);
        Some(v)
    } else if eq_ignore_ascii_case(&e, &chars_of("ps1")) {
        Some(strings2("pwsh", "powershell"))
    } else {
        None
    }
}

/// What a shortcut runs, as its listing and error messages show it.
pub open spec fn spec_invocation_line(invocation: StoredInvocation, label: Seq<char>) -> Seq<char> {
    match invocation {
        StoredInvocation::Legacy(l) => label + l.path@,
        StoredInvocation::Recipe(_) => "invocation: recipe"@,
    }
}

/// The message for a shortcut whose target cannot be resolved.
pub open spec fn spec_broken_message(name: Seq<char>, shortcut: Shortcut) -> Seq<char> {
    "shortcut '"@ + name + "' is broken:\n\ncatalog: "@ + shortcut.catalog@ + "\ntool: "@ + shortcut.tool@ + "\n"@
        + spec_invocation_line(shortcut.invocation, "path: "@)
}

fn invocation_line(invocation: &StoredInvocation, label: &str) -> (r: String)
    ensures
        r@ == spec_invocation_line(*invocation, label@),
{
    match invocation {
        StoredInvocation::Legacy(l) => cat2(label, l.path.as_str()),
        StoredInvocation::Recipe(_) => "invocation: recipe".to_string(),
    }
}

pub fn broken_message(name: &str, shortcut: &Shortcut) -> (r: String)
    ensures
        r@ == spec_broken_message(name@, *shortcut),
{
    let line = invocation_line(&shortcut.invocation, "path: ");
    let head = crate::text::cat5("shortcut '", name, "' is broken:\n\ncatalog: ", shortcut.catalog.as_str(), "\ntool: ");
    crate::text::cat4(head.as_str(), shortcut.tool.as_str(), "\n", line.as_str())
}

/// The message for a project command whose target cannot be resolved.
pub open spec fn spec_entry_broken_message(catalog: Seq<char>, tool: Seq<char>, entry: ProjectEntry) -> Seq<char> {
    let kind = match entry.source {
        EntrySource::Catalog => "shared command '"@,
        EntrySource::Personal => "shortcut '"@,
    };
    kind + entry.name@ + "' is broken:\n\ncatalog: "@ + catalog + "\ntool: "@ + tool + "\n"@ + spec_invocation_line(
        entry.invocation,
        "path: "@,
    )
}

pub fn entry_broken_message(catalog: &str, tool: &str, entry: &ProjectEntry) -> (r: String)
    ensures
        r@ == spec_entry_broken_message(catalog@, tool@, *entry),
{
    let kind = match entry.source {
        EntrySource::Catalog => "shared command '",
        EntrySource::Personal => "shortcut '",
    };
    let line = invocation_line(&entry.invocation, "path: ");
    let head = crate::text::cat5(kind, entry.name.as_str(), "' is broken:\n\ncatalog: ", catalog, "\ntool: ");
    crate::text::cat4(head.as_str(), tool, "\n", line.as_str())
}

/// The listing of one saved shortcut: its name, catalog, tool and what it runs,
/// then its description and runner when it has them.
pub open spec fn spec_shortcut_details(name: Seq<char>, shortcut: Shortcut) -> Seq<char> {
    let head = "Name: "@ + name + "\nCatalog: "@ + shortcut.catalog@ + "\nTool: "@ + shortcut.tool@ + "\n"@
        + spec_invocation_line(shortcut.invocation, "Path: "@);
    let described = match shortcut.description {
        Some(d) => head + "\nDescription: "@ + d@,
        None => head,
    };
    match shortcut.invocation {
        StoredInvocation::Legacy(l) => match l.runner {
            Some(r) => described + "\nRunner: "@ + r.spec_name(),
            None => described,
        },
        StoredInvocation::Recipe(_) => described,
    }
}

pub fn shortcut_details(name: &str, shortcut: &Shortcut) -> (r: String)
    ensures
        r@ == spec_shortcut_details(name@, *shortcut),
{
    let line = invocation_line(&shortcut.invocation, "Path: ");
    let head = crate::text::cat7(
        "Name: ",
        name,
        "\nCatalog: ",
        shortcut.catalog.as_str(),
        "\nTool: ",
        shortcut.tool.as_str(),
        "\n",
    );
    let head = cat2(head.as_str(), line.as_str());
    let described = match &shortcut.description {
        Some(d) => cat3(head.as_str(), "\nDescription: ", d.as_str()),
        None => head,
    };
    match &shortcut.invocation {
        StoredInvocation::Legacy(l) => match l.runner {
            Some(r) => cat3(described.as_str(), "\nRunner: ", r.as_str()),
            None => described,
        },
        StoredInvocation::Recipe(_) => described,
    }
}

/// The listing of the saved shortcuts, in order, blank lines between them.
pub open spec fn spec_shortcut_listing(shortcuts: Seq<(String, Shortcut)>) -> Seq<char> {
    if shortcuts.len() == 0 {
        "No shortcuts are saved."@
    } else {
        spec_join_with(shortcuts.map_values(|e: (String, Shortcut)| spec_shortcut_details(e.0@, e.1)), "\n\n"@)
    }
}

pub fn shortcut_listing(file: &ShortcutFile) -> (r: String)
    ensures
        r@ == spec_shortcut_listing(file.shortcuts@),
{
    if file.shortcuts.len() == 0 {
        return "No shortcuts are saved.".to_string();
    }
    let mut parts: Vec<String> = Vec::new();
    let mut i: usize = 0;
    while i < file.shortcuts.len()
        invariant
            i <= file.shortcuts.len(),
            parts@.len() == i,
            forall|j: int| 0 <= j < i ==> (#[trigger] parts@[j])@ == spec_shortcut_details(
                file.shortcuts@[j].0@,
                file.shortcuts@[j].1,
            ),
        decreases file.shortcuts.len() - i,
    {
        let entry = &file.shortcuts[i];
        parts.push(shortcut_details(entry.0.as_str(), &entry.1));
        i = i + 1;
    }
    let r = crate::text::join_with(&parts, "\n\n");
    assert(parts@.map_values(|p: String| p@) =~= file.shortcuts@.map_values(
        |e: (String, Shortcut)| spec_shortcut_details(e.0@, e.1),
    ));
    r
}

/// The position of the last `c` in `s`.
pub open spec fn spec_last_index(s: Seq<char>, c: char) -> Option<int>
    decreases s.len(),
{
    if s.len() == 0 {
        None
    } else if s.last() == c {
        Some(s.len() - 1)
    } else {
        spec_last_index(s.drop_last(), c)
    }
}

fn last_index(s: &Vec<char>, c: char) -> (r: Option<usize>)
    ensures
        match r {
            Some(i) => i < s.len() && spec_last_index(s@, c) == Some(i as int),
            None => spec_last_index(s@, c) is None,
        },
{
    let mut i: usize = s.len();
    assert(s@.subrange(0, s.len() as int) =~= s@);
    while i > 0
        invariant
            i <= s.len(),
            spec_last_index(s@, c) == spec_last_index(s@.subrange(0, i as int), c),
        decreases i,
    {
        let ghost part = s@.subrange(0, i as int);
        assert(part.drop_last() =~= s@.subrange(0, i - 1));
        if s[i - 1] == c {
            return Some(i - 1);
        }
        i = i - 1;
    }
    None
}

/// The last component of a path: after its last `/`, or on Windows its last `/` or `\\`.
pub open spec fn spec_file_name(path: Seq<char>, platform: Platform) -> Seq<char> {
    let after_slash = match spec_last_index(path, '/') {
        Some(i) => path.subrange(i + 1, path.len() as int),
        None => path,
    };
    match platform {
        Platform::Windows => match spec_last_index(after_slash, '\\') {
            Some(i) => after_slash.subrange(i + 1, after_slash.len() as int),
            None => after_slash,
        },
        Platform::Other => after_slash,
    }
}

/// A file name's extension: after its last `.`, unless that dot begins the name.
pub open spec fn spec_extension(name: Seq<char>) -> Option<Seq<char>> {
    match spec_last_index(name, '.') {
        Some(i) => if i > 0 {
            Some(name.subrange(i + 1, name.len() as int))
        } else {
            None
        },
        None => None,
    }
}

fn after(s: &Vec<char>, i: usize) -> (r: Vec<char>)
    requires
        i < s.len(),
    ensures
        r@ == s@.subrange(i + 1, s.len() as int),
{
    crate::text::subvec(s, i + 1, s.len())
}

fn extension_of(path: &str, platform: Platform) -> (r: Option<String>)
    ensures
        crate::git::opt_string_view(r) == spec_extension(spec_file_name(path@, platform)),
{
    let p = chars_of(path);
    let after_slash = match last_index(&p, '/') {
        Some(i) => after(&p, i),
        None => p,
    };
    let name = match platform {
        Platform::Windows => match last_index(&after_slash, '\\') {
            Some(i) => after(&after_slash, i),
            None => after_slash,
        },
        Platform::Other => after_slash,
    };
    match last_index(&name, '.') {
        Some(i) => if i > 0 {
            Some(crate::text::string_of(&after(&name, i)))
        } else {
            None
        },
        None => None,
    }
}

/// The commands a launch tries in order, each the first that exists wins, and
/// the directory they run in when one is set.
#[derive(Debug, Clone, PartialEq, Eq)]
pub struct LaunchPlan {
    pub attempts: Vec<Vec<String>>,
    pub working_directory: Option<String>,
}

pub open spec fn attempts_view(attempts: Seq<Vec<String>>) -> Seq<Seq<Seq<char>>> {
    attempts.map_values(|a: Vec<String>| views(a@))
}

/// Each program of `programs` applied to `target`.
pub open spec fn each_with(programs: Seq<Seq<char>>, target: Seq<char>) -> Seq<Seq<Seq<char>>> {
    programs.map_values(|p: Seq<char>| seq![p, target])
}

proof fn lemma_attempt_pushed(
    attempts: Seq<Vec<String>>,
    a: Vec<String>,
    programs: Seq<Seq<char>>,
    i: int,
    target: Seq<char>,
)
    requires
        0 <= i < programs.len(),
        attempts_view(attempts) == each_with(programs.subrange(0, i), target),
        views(a@) == seq![programs[i], target],
    ensures
        attempts_view(attempts.push(a)) == each_with(programs.subrange(0, i + 1), target),
{
    assert(attempts_view(attempts.push(a)) =~= attempts_view(attempts).push(views(a@)));
    assert(each_with(programs.subrange(0, i + 1), target) =~= each_with(programs.subrange(0, i), target).push(
        seq![programs[i], target],
    ));
}

/// How a project file without a runner is launched: itself when it is
/// executable, else with the interpreters its extension names.
pub open spec fn spec_launch_file(target: Seq<char>, executable: bool, platform: Platform) -> Option<
    Seq<Seq<Seq<char>>>,
> {
    if executable {
        Some(seq![seq![target]])
    } else {
        match spec_extension(spec_file_name(target, platform)) {
            Some(e) => match spec_script_interpreters(e, platform) {
                Some(list) => Some(each_with(list, target)),
                None => None,
            },
            None => None,
        }
    }
}

/// The message when a file is neither executable nor a known script.
pub open spec fn spec_not_script_message(target: Seq<char>) -> Seq<char> {
    "Loadbot located "@ + target + ", but it is not executable and has no supported script extension"@
}

/// Plan the launch of a project file with no runner; `Err` holds the message
/// for a file that is neither executable nor a known script.
pub fn launch_file(target: &str, executable: bool, platform: Platform) -> (r: Result<LaunchPlan, String>)
    ensures
        match spec_launch_file(target@, executable, platform) {
            Some(attempts) => r matches Ok(plan) && attempts_view(plan.attempts@) == attempts
                && plan.working_directory is None,
            None => r matches Err(m) && m@ == spec_not_script_message(target@),
        },
{
    if executable {
        let mut one: Vec<String> = Vec::new();
        one.push(target.to_string());
        let mut attempts: Vec<Vec<String>> = Vec::new();
        attempts.push(one);
        assert(views(attempts@[0]@) =~= seq![target@]);
        assert(attempts_view(attempts@) =~= seq![seq![target@]]);
        return Ok(LaunchPlan { attempts, working_directory: None });
    }
    let interpreters = match extension_of(target, platform) {
        Some(e) => script_interpreters(e.as_str(), platform),
        None => None,
    };
    match interpreters {
        None => Err(crate::text::cat3(
            "Loadbot located ",
            target,
            ", but it is not executable and has no supported script extension",
        )),
        Some(list) => {
            let ghost names = views(list@);
            let mut attempts: Vec<Vec<String>> = Vec::new();
            let mut i: usize = 0;
            while i < list.len()
                invariant
                    i <= list.len(),
                    names == views(list@),
                    attempts_view(attempts@) == each_with(names.subrange(0, i as int), target@),
                decreases list.len() - i,
            {
                let mut a: Vec<String> = Vec::new();
                a.push(list[i].clone());
                a.push(target.to_string());
                assert(views(a@) =~= seq![names[i as int], target@]);
                proof {
                    lemma_attempt_pushed(attempts@, a, names, i as int, target@);
                }
                attempts.push(a);
                i = i + 1;
            }
            assert(names.subrange(0, list.len() as int) =~= names);
            Ok(LaunchPlan { attempts, working_directory: None })
        },
    }
}

/// The message when no interpreter for a script was found.
pub fn no_interpreter_message(target: &str) -> (r: String)
    ensures
        r@ == "Loadbot located "@ + target@ + ", but no supported interpreter was found in PATH"@,
{
    crate::text::cat3("Loadbot located ", target, ", but no supported interpreter was found in PATH")
}

/// How a project file runs with a runner, in the tool's directory: itself
/// for the direct runner, else under each of the runner's executables.
pub open spec fn spec_launch_with_runner(target: Seq<char>, runner: Runner, platform: Platform) -> Seq<
    Seq<Seq<char>>,
> {
    if runner == Runner::Direct {
        seq![seq![target]]
    } else {
        each_with(runner.spec_candidates(platform), target)
    }
}

pub fn launch_with_runner(target: &str, working_directory: &str, runner: Runner, platform: Platform) -> (r:
    LaunchPlan)
    ensures
        attempts_view(r.attempts@) == spec_launch_with_runner(target@, runner, platform),
        r.working_directory matches Some(w) && w@ == working_directory@,
{
    let mut attempts: Vec<Vec<String>> = Vec::new();
    match runner {
        Runner::Direct => {
            let mut one: Vec<String> = Vec::new();
            one.push(target.to_string());
            attempts.push(one);
            assert(views(attempts@[0]@) =~= seq![target@]);
            assert(attempts_view(attempts@) =~= seq![seq![target@]]);
        },
        _ => {
            let list = runner.executable_candidates(platform);
            let ghost names = views(list@);
            let mut i: usize = 0;
            while i < list.len()
                invariant
                    i <= list.len(),
                    names == views(list@),
                    names == runner.spec_candidates(platform),
                    attempts_view(attempts@) == each_with(names.subrange(0, i as int), target@),
                decreases list.len() - i,
            {
                let mut a: Vec<String> = Vec::new();
                a.push(list[i].clone());
                a.push(target.to_string());
                assert(views(a@) =~= seq![names[i as int], target@]);
                proof {
                    lemma_attempt_pushed(attempts@, a, names, i as int, target@);
                }
                attempts.push(a);
                i = i + 1;
            }
            assert(names.subrange(0, list.len() as int) =~= names);
        },
    }
    LaunchPlan { attempts, working_directory: Some(working_directory.to_string()) }
}

/// The message when none of a runner's executables was found.
pub fn runner_unavailable_message(runner: Runner, target: &str) -> (r: String)
    ensures
        r@ == "runner '"@ + runner.spec_name() + "' is not available in PATH for "@ + target@,
{
    crate::text::cat4("runner '", runner.as_str(), "' is not available in PATH for ", target)
}

/// Leading `v` characters removed.
pub open spec fn strip_v(s: Seq<char>) -> Seq<char>
    decreases s.len(),
{
    if s.len() > 0 && s[0] == 'v' {
        strip_v(s.drop_first())
    } else {
        s
    }
}

pub open spec fn spec_parse_u32(s: Seq<char>) -> Option<nat> {
    match crate::git::spec_parse_u64(s) {
        Some(v) => if v <= u32::MAX {
            Some(v)
        } else {
            None
        },
        None => None,
    }
}

/// Whether `node --version` reported Node.js 22.12 or newer.
pub open spec fn spec_node_supported(succeeded: bool, output: Seq<char>) -> bool {
    let parts = crate::shortcuts::spec_split(strip_v(crate::text::spec_trim(output)), '.');
    succeeded && parts.len() >= 2 && match (spec_parse_u32(parts[0]), spec_parse_u32(parts[1])) {
        (Some(major), Some(minor)) => major > 22 || (major == 22 && minor >= 12),
        _ => false,
    }
}

fn strip_leading_v(s: &Vec<char>) -> (r: Vec<char>)
    ensures
        r@ == strip_v(s@),
{
    let mut i: usize = 0;
    assert(s@.subrange(0, s.len() as int) =~= s@);
    while i < s.len() && s[i] == 'v'
        invariant
            i <= s.len(),
            strip_v(s@) == strip_v(s@.subrange(i as int, s.len() as int)),
        decreases s.len() - i,
    {
        assert(s@.subrange(i as int, s.len() as int).drop_first() =~= s@.subrange(i + 1, s.len() as int));
        i = i + 1;
    }
    crate::text::subvec(s, i, s.len())
}

fn parse_u32(s: &String) -> (r: Option<u32>)
    ensures
        match r {
            Some(v) => spec_parse_u32(s@) == Some(v as nat),
            None => spec_parse_u32(s@) is None,
        },
{
    match crate::git::parse_u64(&chars_of(s.as_str())) {
        Some(v) => if v <= 4294967295u64 {
            Some(v as u32)
        } else {
            None
        },
        None => None,
    }
}

/// Whether a Node.js version report allows the desktop development build.
pub fn node_version_supported(succeeded: bool, output: &str) -> (r: bool)
    ensures
        r == spec_node_supported(succeeded, output@),
{
    let text = strip_leading_v(&crate::text::trim(&chars_of(output)));
    let parts = crate::shortcuts::split(&text, '.');
    if !succeeded || parts.len() < 2 {
        return false;
    }
    assert(views(parts@)[0] == parts@[0]@ && views(parts@)[1] == parts@[1]@);
    match (parse_u32(&parts[0]), parse_u32(&parts[1])) {
        (Some(major), Some(minor)) => major > 22 || (major == 22 && minor >= 12),
        _ => false,
    }
}

/// A file name without its extension: before its last `.`, unless that dot
/// begins the name.
pub open spec fn spec_file_stem(name: Seq<char>) -> Seq<char> {
    match spec_last_index(name, '.') {
        Some(i) => if i > 0 {
            name.subrange(0, i)
        } else {
            name
        },
        None => name,
    }
}

/// The shortcut name offered for a file: its stem, when that is a valid name.
pub open spec fn spec_default_shortcut_name(relative: Seq<char>, platform: Platform) -> Option<Seq<char>> {
    let stem = spec_file_stem(spec_file_name(relative, platform));
    if crate::paths::spec_valid_name(stem) {
        Some(stem)
    } else {
        None
    }
}

/// The name offered for a shortcut to the file at `relative`.
pub fn default_shortcut_name(relative: &str, platform: Platform) -> (r: Option<String>)
    ensures
        crate::git::opt_string_view(r) == spec_default_shortcut_name(relative@, platform),
{
    let p = chars_of(relative);
    let after_slash = match last_index(&p, '/') {
        Some(i) => after(&p, i),
        None => p,
    };
    let name = match platform {
        Platform::Windows => match last_index(&after_slash, '\\') {
            Some(i) => after(&after_slash, i),
            None => after_slash,
        },
        Platform::Other => after_slash,
    };
    let stem = match last_index(&name, '.') {
        Some(i) => if i > 0 {
            crate::text::subvec(&name, 0, i)
        } else {
            name
        },
        None => name,
    };
    let text = crate::text::string_of(&stem);
    if crate::paths::validate_name(text.as_str()).is_ok() {
        Some(text)
    } else {
        None
    }
}

/// The prompt for a shortcut's name, showing the offered name.
pub fn shortcut_name_label(default: Option<&str>) -> (r: String)
    ensures
        r@ == match default {
            Some(d) => "Shortcut name ["@ + d@ + "]:"@,
            None => "Shortcut name:"@,
        },
{
    match default {
        Some(d) => cat3("Shortcut name [", d, "]:"),
        None => "Shortcut name:".to_string(),
    }
}

} // verus!
