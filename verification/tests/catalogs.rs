use loadbot::catalog::{validate, CatalogError, CatalogFile, CommandConfig, Runner, ToolConfig};
use loadbot::config::{check_legacy, check_local, CatalogSource, ConfigError, LegacyConfig, LocalConfig};
use loadbot::operations::{
    add_tool_definition, catalog_commit_step, catalog_names, catalog_path, check_initialization_request,
    check_tool_add_request, merge_registration, migrate_legacy, plan_initialization, plan_registration, register, require_writable,
    select_tool, tool_index, unrelated_changes, CatalogCommit, CatalogFileState, CatalogLookupError,
    InitializationError, InitializationFacts, InitializationPlan, RegistrationError, ToolAddError, ToolIndexError,
    ToolLookupError,
};
use loadbot::catalog::ResolvedTool;
use loadbot::paths::Paths;
use loadbot::recipe::{InvocationBehavior, RecipeDefinition, RecipeError, RecipeProgram, WorkingDirectory};
use loadbot::shortcuts::ShortcutPathError;

fn tool(commands: Vec<(&str, CommandConfig)>) -> ToolConfig {
    let mut tool = ToolConfig::git("demo.git".to_owned(), None);
    tool.commands = commands.into_iter().map(|(n, c)| (n.to_owned(), c)).collect();
    tool
}

fn catalog(tools: Vec<(&str, ToolConfig)>) -> CatalogFile {
    let mut file = CatalogFile::new();
    file.tools = tools.into_iter().map(|(n, t)| (n.to_owned(), t)).collect();
    file
}

#[test]
fn catalog_rejects_unsafe_command_paths_and_unsupported_runners() {
    for path in ["/tmp/run.sh", "scripts/../run.sh"] {
        let file = catalog(vec![("demo", tool(vec![("run", CommandConfig::legacy(path.to_owned(), None))]))]);
        assert!(validate(&file).is_err());
    }
    assert_eq!(Runner::from_name("fish"), None);
    let file = catalog(vec![("demo", tool(vec![("run", CommandConfig::legacy("/tmp/run.sh".to_owned(), None))]))]);
    assert!(matches!(
        validate(&file),
        Err(CatalogError::UnsafeCommandPath { ref tool, ref command, error: ShortcutPathError::NotPortable })
            if tool == "demo" && command == "run"
    ));
}

#[test]
fn catalog_validation_checks_version_names_and_recipes_in_order() {
    let mut file = catalog(vec![]);
    file.version = 2;
    assert!(matches!(validate(&file), Err(CatalogError::UnsupportedVersion(2))));
    let file = catalog(vec![("../x", tool(vec![]))]);
    assert!(matches!(validate(&file), Err(CatalogError::UnsafeToolName(ref n)) if n == "../x"));
    let file = catalog(vec![("demo", tool(vec![("bad name", CommandConfig::legacy("run.sh".to_owned(), None))]))]);
    assert!(matches!(validate(&file), Err(CatalogError::UnsafeCommandName { .. })));
    let recipe = RecipeDefinition {
        version: 2,
        behavior: InvocationBehavior::Run,
        program: RecipeProgram::Executable { name: "tool".into() },
        working_directory: WorkingDirectory::ProjectRoot,
        arguments: vec![],
    };
    assert_eq!(CommandConfig::recipe(recipe).unwrap_err(), RecipeError::UnsupportedVersion(2));
    let ok = catalog(vec![(
        "demo",
        tool(vec![("run", CommandConfig::legacy("scripts/run.sh".to_owned(), Some(Runner::Bash)))]),
    )]);
    assert!(validate(&ok).is_ok());
    assert!(CatalogFile::new().is_initial());
    assert!(!ok.is_initial());
}

#[test]
fn tools_have_the_same_source_only_with_equal_type_url_and_revision() {
    let a = ToolConfig::git("x.git".to_owned(), Some("main".to_owned()));
    assert!(a.has_source(&ToolConfig::git("x.git".to_owned(), Some("main".to_owned()))));
    assert!(!a.has_source(&ToolConfig::git("x.git".to_owned(), None)));
    assert!(!a.has_source(&ToolConfig::git("y.git".to_owned(), Some("main".to_owned()))));
}

#[test]
fn configuration_checks_version_legacy_tools_and_names() {
    let mut local = LocalConfig::new();
    assert_eq!(check_local(&local, true), Err(ConfigError::LegacyTools));
    local.catalogs.push(("ok".to_owned(), CatalogSource::new("ok.git".to_owned(), true)));
    local.catalogs.push(("bad name".to_owned(), CatalogSource::new("b.git".to_owned(), true)));
    assert_eq!(check_local(&local, false), Err(ConfigError::UnsafeCatalogName("bad name".to_owned())));
    local.version = 3;
    assert_eq!(check_local(&local, false), Err(ConfigError::UnsupportedVersion(3)));
    let legacy = LegacyConfig { version: 1, tools: vec![], extra: vec![] };
    assert_eq!(check_legacy(&legacy), Err(ConfigError::NoLegacyTools));
}

fn local(entries: Vec<(&str, &str, bool)>) -> LocalConfig {
    let mut config = LocalConfig::new();
    for (name, url, writable) in entries {
        config.catalogs.push((name.to_owned(), CatalogSource::new(url.to_owned(), writable)));
    }
    config
}

#[test]
fn registration_refuses_changed_settings_and_case_conflicts() {
    let config = local(vec![("personal", "p.git", true)]);
    let source = CatalogSource::new("other.git".to_owned(), true);
    assert_eq!(
        plan_registration(&config, "personal", &source, true),
        Err(RegistrationError::DifferentSettings("personal".to_owned()))
    );
    assert_eq!(plan_registration(&config, "personal", &source, false), Ok(true));
    assert_eq!(plan_registration(&config, "personal", &CatalogSource::new("p.git".to_owned(), true), true), Ok(false));
    assert_eq!(
        plan_registration(&config, "Personal", &source, false),
        Err(RegistrationError::NameConflict { name: "Personal".to_owned(), existing: "personal".to_owned() })
    );
    assert_eq!(plan_registration(&config, "team", &source, false), Ok(true));
}

#[test]
fn registering_sets_the_first_catalog_as_default() {
    let mut config = LocalConfig::new();
    register(&mut config, "team", &CatalogSource::new("t.git".to_owned(), true));
    register(&mut config, "other", &CatalogSource::new("o.git".to_owned(), false));
    register(&mut config, "team", &CatalogSource::new("t2.git".to_owned(), true));
    assert_eq!(config.default_catalog.as_deref(), Some("team"));
    assert_eq!(catalog_names(&config), vec!["other".to_owned(), "team".to_owned()]);
    let stored: Vec<&str> = config.catalogs.iter().map(|(name, _)| name.as_str()).collect();
    assert_eq!(stored, vec!["other", "team"]);
    assert_eq!(config.source("team").unwrap().url, "t2.git");
}

#[test]
fn merging_keeps_concurrent_registrations_and_detects_busy_entries() {
    let original = local(vec![("a", "a.git", true)]);
    let mut desired = local(vec![("a", "a.git", true)]);
    register(&mut desired, "b", &CatalogSource::new("b.git".to_owned(), true));
    let current = local(vec![("a", "a.git", true), ("c", "c.git", false)]);
    let merged = merge_registration(&original, &desired, current).unwrap();
    assert_eq!(catalog_names(&merged), vec!["a".to_owned(), "b".to_owned(), "c".to_owned()]);
    let stored: Vec<&str> = merged.catalogs.iter().map(|(name, _)| name.as_str()).collect();
    assert_eq!(stored, vec!["a", "b", "c"]);

    let changed = local(vec![("b", "elsewhere.git", true)]);
    assert_eq!(merge_registration(&original, &desired, changed).unwrap_err(), RegistrationError::Busy);
    let conflicting = local(vec![("B", "x.git", true)]);
    assert_eq!(
        merge_registration(&original, &desired, conflicting).unwrap_err(),
        RegistrationError::ConcurrentConflict("b".to_owned())
    );
}

#[test]
fn catalog_lookup_requires_a_portable_registered_name() {
    let paths = Paths::with_root("/lb".to_owned());
    let config = local(vec![("team", "t.git", true)]);
    assert_eq!(catalog_path(&paths, &config, "team").unwrap(), "/lb/catalogs/team");
    let missing = catalog_path(&paths, &config, "other").unwrap_err();
    assert_eq!(missing, CatalogLookupError::NotConfigured("other".to_owned()));
    assert_eq!(missing.message(), "catalog 'other' is not configured");
    assert!(matches!(catalog_path(&paths, &config, "../x"), Err(CatalogLookupError::InvalidName(_))));
}

fn facts(
    changes: &str,
    refs: Vec<(&str, &str)>,
    head: Option<&str>,
    branch: Option<&str>,
    files: Vec<&str>,
    catalog: CatalogFileState,
) -> InitializationFacts {
    InitializationFacts {
        changes: changes.to_owned(),
        origin_refs: refs.into_iter().map(|(a, b)| (a.to_owned(), b.to_owned())).collect(),
        head: head.map(str::to_owned),
        branch: branch.map(str::to_owned),
        tracked_files: files.into_iter().map(str::to_owned).collect(),
        catalog,
    }
}

#[test]
fn initialization_accepts_empty_and_already_initialized_repositories_only() {
    assert_eq!(
        plan_initialization(&facts("", vec![], None, Some("main"), vec![], CatalogFileState::Absent)),
        Ok(InitializationPlan { already_initialized: false, create_catalog: true })
    );
    assert_eq!(
        plan_initialization(&facts(
            "",
            vec![("abc", "refs/heads/main")],
            Some("abc"),
            Some("main"),
            vec!["catalog.toml"],
            CatalogFileState::Initial
        )),
        Ok(InitializationPlan { already_initialized: true, create_catalog: false })
    );
    assert_eq!(
        plan_initialization(&facts("", vec![("abc", "refs/heads/other")], Some("abc"), Some("main"), vec!["catalog.toml"], CatalogFileState::Initial)),
        Err(InitializationError::NotEmptyCatalog)
    );
    assert_eq!(
        plan_initialization(&facts("?? README.md", vec![], None, Some("main"), vec![], CatalogFileState::Absent)),
        Err(InitializationError::UnrelatedChanges)
    );
    assert_eq!(
        plan_initialization(&facts("", vec![], None, Some("main"), vec![], CatalogFileState::Conflicting)),
        Err(InitializationError::ConflictingCatalog)
    );
    assert_eq!(
        plan_initialization(&facts("", vec![("a", "refs/heads/main")], None, None, vec![], CatalogFileState::Absent)),
        Err(InitializationError::Detached)
    );
    assert_eq!(
        plan_initialization(&facts("", vec![], None, None, vec![], CatalogFileState::Absent)),
        Err(InitializationError::NoBranch)
    );
    assert_eq!(
        plan_initialization(&facts("", vec![], None, Some("main"), vec![], CatalogFileState::Initial)),
        Err(InitializationError::NotDetected)
    );
    assert_eq!(
        plan_initialization(&facts("?? catalog.toml", vec![], None, Some("main"), vec![], CatalogFileState::Initial)),
        Ok(InitializationPlan { already_initialized: false, create_catalog: false })
    );
}

#[test]
fn only_catalog_status_lines_count_as_related() {
    assert!(!unrelated_changes(""));
    assert!(!unrelated_changes("?? catalog.toml"));
    assert!(!unrelated_changes("A  catalog.toml\nM  catalog.toml"));
    assert!(unrelated_changes("?? catalog.toml\n?? notes.txt"));
    assert!(unrelated_changes("M catalog.toml"));
    assert!(!unrelated_changes("é catalog.toml"));
}

#[test]
fn initialization_requests_need_a_writable_catalog_and_commit_before_push() {
    assert_eq!(check_initialization_request("new", "new.git", true, false, true), Err(InitializationError::PushWithoutCommit));
    assert_eq!(check_initialization_request("new", "new.git", false, true, true), Err(InitializationError::NotWritable));
    assert_eq!(check_initialization_request("new", "", true, true, true), Err(InitializationError::EmptyUrl));
    assert_eq!(check_initialization_request("n/w", "x", true, true, true), Err(InitializationError::InvalidName));
    assert_eq!(check_initialization_request("new", "x", true, true, true), Ok(()));
    assert_eq!(
        InitializationError::UnrelatedChanges.message("new"),
        "refusing to initialize catalog 'new': working tree has unrelated changes"
    );
}

#[test]
fn tool_requests_need_portable_names_a_url_and_commit_before_push() {
    assert_eq!(check_tool_add_request("personal", "demo", "demo.git", None, false, false), Ok(()));
    assert_eq!(
        check_tool_add_request("personal", "../demo", "demo.git", None, false, false),
        Err(ToolAddError::InvalidName("../demo".to_owned()))
    );
    assert_eq!(
        check_tool_add_request("CON", "demo", "demo.git", None, false, false),
        Err(ToolAddError::InvalidName("CON".to_owned()))
    );
    assert_eq!(check_tool_add_request("personal", "demo", "", None, false, false), Err(ToolAddError::EmptyUrl));
    assert_eq!(
        check_tool_add_request("personal", "demo", "demo.git", Some(""), false, false),
        Err(ToolAddError::EmptyRevision)
    );
    assert_eq!(
        check_tool_add_request("personal", "demo", "demo.git", Some("v1"), false, true),
        Err(ToolAddError::PushWithoutCommit)
    );
    assert_eq!(ToolAddError::PushWithoutCommit.message(), "pushing a catalog change requires --commit");
    let read_only = CatalogSource::new("team.git".to_owned(), false);
    let refused = require_writable("team", &read_only).unwrap_err();
    assert_eq!(refused.message(), "catalog 'team' is read-only");
    assert_eq!(require_writable("team", &CatalogSource::new("team.git".to_owned(), true)), Ok(()));
}

#[test]
fn adding_a_tool_keeps_names_in_order_and_refuses_conflicts() {
    let mut file = catalog(vec![("zeta", ToolConfig::git("z.git".to_owned(), None))]);
    let added = add_tool_definition(&mut file, "personal", "alpha", ToolConfig::git("a.git".to_owned(), None), false);
    assert_eq!(added, Ok(true));
    let names: Vec<&str> = file.tools.iter().map(|(n, _)| n.as_str()).collect();
    assert_eq!(names, vec!["alpha", "zeta"]);

    let again = add_tool_definition(&mut file, "personal", "alpha", ToolConfig::git("a.git".to_owned(), None), true);
    assert_eq!(again, Ok(false));
    assert_eq!(file.tools.len(), 2);

    let other = add_tool_definition(&mut file, "personal", "alpha", ToolConfig::git("b.git".to_owned(), None), false);
    let error = other.unwrap_err();
    assert_eq!(error.message(), "tool 'alpha' already exists in catalog 'personal' with different settings");

    let conflict = add_tool_definition(&mut file, "personal", "Zeta", ToolConfig::git("z.git".to_owned(), None), false);
    assert_eq!(
        conflict.unwrap_err().message(),
        "tool name 'Zeta' conflicts with existing tool 'zeta'"
    );
    let dirty = add_tool_definition(&mut file, "personal", "beta", ToolConfig::git("b.git".to_owned(), None), true);
    assert_eq!(dirty, Err(ToolAddError::UncommittedChanges));
    assert_eq!(file.tools.len(), 2);
}

#[test]
fn catalog_commits_follow_what_git_detects() {
    assert_eq!(
        catalog_commit_step("demo", true, true),
        Ok(CatalogCommit::Commit("Add demo to Loadbot catalog".to_owned()))
    );
    assert_eq!(catalog_commit_step("demo", false, false), Ok(CatalogCommit::AlreadyCommitted));
    assert_eq!(
        catalog_commit_step("demo", false, true).unwrap_err().message(),
        "catalog changed but Git did not detect a catalog.toml modification"
    );
}

fn resolved(name: &str, catalog: &str) -> ResolvedTool {
    ResolvedTool { name: name.to_owned(), catalog: catalog.to_owned(), definition: ToolConfig::git(format!("{name}.git"), None) }
}

#[test]
fn a_tool_name_picks_exactly_one_tool() {
    let tools = vec![resolved("demo", "personal"), resolved("demo", "team"), resolved("solo", "team")];
    assert_eq!(select_tool(&tools, "solo"), Ok(2));
    assert_eq!(select_tool(&tools, "none"), Err(ToolLookupError::NotConfigured("none".to_owned())));
    let ambiguous = select_tool(&tools, "demo").unwrap_err();
    assert_eq!(
        ambiguous.message(),
        "tool 'demo' is ambiguous across catalogs: personal, team; specify --catalog <name>"
    );
    assert_eq!(
        ToolLookupError::NotConfigured("none".to_owned()).message(),
        "tool 'none' is not configured in any catalog"
    );
}

#[test]
fn tools_are_listed_by_name_then_catalog() {
    let team = catalog(vec![("beta", ToolConfig::git("b.git".to_owned(), None)), ("demo", ToolConfig::git("d.git".to_owned(), None))]);
    let personal = catalog(vec![("demo", ToolConfig::git("d.git".to_owned(), None)), ("alpha", ToolConfig::git("a.git".to_owned(), None))]);
    let tools = tool_index(vec![("team".to_owned(), team), ("personal".to_owned(), personal)]).unwrap();
    let order: Vec<(&str, &str)> = tools.iter().map(|t| (t.name.as_str(), t.catalog.as_str())).collect();
    assert_eq!(order, vec![("alpha", "personal"), ("beta", "team"), ("demo", "personal"), ("demo", "team")]);
}

#[test]
fn tool_names_may_not_collide_ignoring_case() {
    let one = catalog(vec![("Demo", ToolConfig::git("d.git".to_owned(), None)), ("demo", ToolConfig::git("d.git".to_owned(), None))]);
    let error = tool_index(vec![("team".to_owned(), one)]).unwrap_err();
    assert_eq!(
        error.message(),
        "catalog 'team' contains case-insensitive tool-name collision 'Demo' and 'demo'"
    );
    let first = catalog(vec![("Demo", ToolConfig::git("d.git".to_owned(), None))]);
    let second = catalog(vec![("demo", ToolConfig::git("d.git".to_owned(), None))]);
    let error = tool_index(vec![("a".to_owned(), first), ("b".to_owned(), second)]).unwrap_err();
    assert_eq!(
        error,
        ToolIndexError::CaseConflict { existing: "Demo".to_owned(), name: "demo".to_owned() }
    );
    assert_eq!(error.message(), "tool names 'Demo' and 'demo' conflict on case-insensitive filesystems");
    let unsafe_name = catalog(vec![("../x", ToolConfig::git("d.git".to_owned(), None))]);
    let error = tool_index(vec![("team".to_owned(), unsafe_name)]).unwrap_err();
    assert!(error.message().starts_with("catalog 'team' contains an unsafe tool name: "));
}

#[test]
fn migration_moves_legacy_tools_into_a_default_writable_catalog() {
    let legacy = LegacyConfig {
        version: 1,
        tools: vec![("demo".to_owned(), ToolConfig::git("https://example.com/demo.git".to_owned(), None))],
        extra: vec![("theme".to_owned(), "\"dark\"".to_owned())],
    };
    let (catalog, local) = migrate_legacy(legacy, "personal", "https://example.com/catalog.git".to_owned());
    assert_eq!(catalog.version, 1);
    assert_eq!(catalog.tools.len(), 1);
    assert_eq!(catalog.tools[0].0, "demo");
    assert_eq!(catalog.tools[0].1.url, "https://example.com/demo.git");
    assert!(catalog.extra.is_empty());
    assert_eq!(local.version, 1);
    assert_eq!(local.default_catalog.as_deref(), Some("personal"));
    assert_eq!(local.catalogs.len(), 1);
    assert_eq!(local.catalogs[0].0, "personal");
    assert_eq!(local.catalogs[0].1.url, "https://example.com/catalog.git");
    assert!(local.catalogs[0].1.writable);
    assert_eq!(local.extra, vec![("theme".to_owned(), "\"dark\"".to_owned())]);
}

#[test]
fn catalog_names_come_out_ascending_once_each() {
    let mut local = LocalConfig::new();
    local.catalogs.push(("team".to_owned(), CatalogSource::new("https://example.com/t.git".to_owned(), false)));
    local.catalogs.push(("alpha".to_owned(), CatalogSource::new("https://example.com/a.git".to_owned(), true)));
    local.catalogs.push(("team".to_owned(), CatalogSource::new("https://example.com/t.git".to_owned(), false)));
    assert_eq!(catalog_names(&local), vec!["alpha".to_owned(), "team".to_owned()]);
}
