use loadbot::catalog::{CommandConfig, ResolvedTool, ToolConfig};
use loadbot::catalog::{Platform, Runner};
use loadbot::launcher::{
    default_shortcut_name, launch_file, launch_with_runner, shortcut_name_label, no_interpreter_message, node_version_supported, project_inventory,
    runner_unavailable_message, script_interpreters, sort_browsed, BrowserEntry, EntrySource, browsable_entries,
    browse_problem, BrowseProblem, ComponentFacts, ListedEntry,
};
use loadbot::operations::{
    check_commit_request, checkout_problem, select_changes, CheckoutFacts, CheckoutProblem, CheckoutUse,
    CommitSelectionError, RepositoryChange, RepositoryChangeKind,
};
use loadbot::shortcuts::{save, Shortcut, ShortcutFile};

fn change(path: &str, original: Option<&str>) -> RepositoryChange {
    RepositoryChange {
        path: path.to_owned(),
        original_path: original.map(str::to_owned),
        status: if original.is_some() { RepositoryChangeKind::Renamed } else { RepositoryChangeKind::Modified },
    }
}

fn paths(items: &[&str]) -> Vec<String> {
    items.iter().map(|p| (*p).to_owned()).collect()
}

#[test]
fn commits_need_a_selection_and_a_message() {
    assert_eq!(check_commit_request(&vec![], "msg"), Err(CommitSelectionError::NothingSelected));
    assert_eq!(check_commit_request(&paths(&["a"]), "  \n"), Err(CommitSelectionError::EmptyMessage));
    assert_eq!(check_commit_request(&paths(&["a"]), "Fix"), Ok(()));
    assert_eq!(CommitSelectionError::EmptyMessage.message(), "commit message must not be empty");
}

#[test]
fn selected_changes_are_committed_in_path_order_with_rename_sources() {
    let changes = vec![change("b.txt", None), change("new.txt", Some("old.txt")), change("a.txt", None)];
    let selection = select_changes(&paths(&["new.txt", "b.txt", "a.txt"]), &changes).unwrap();
    assert_eq!(selection.stage_paths, paths(&["a.txt", "b.txt", "new.txt"]));
    assert_eq!(selection.commit_paths, paths(&["a.txt", "b.txt", "old.txt", "new.txt"]));
}

#[test]
fn selections_refuse_repeated_and_vanished_paths() {
    let changes = vec![change("a.txt", None)];
    let twice = select_changes(&paths(&["a.txt", "b.txt", "a.txt"]), &changes).unwrap_err();
    assert_eq!(twice.message(), "changed path 'a.txt' was selected more than once");
    let gone = select_changes(&paths(&["z.txt", "c.txt", "a.txt"]), &changes).unwrap_err();
    assert_eq!(gone, CommitSelectionError::NotChanged("c.txt".to_owned()));
    assert_eq!(gone.message(), "selected path 'c.txt' is no longer in the working-tree change set");
}

fn facts() -> CheckoutFacts {
    CheckoutFacts {
        definition_unchanged: true,
        installed: true,
        managed_directory: true,
        configured_repository: true,
        dirty: false,
        commits_ahead: false,
    }
}

#[test]
fn removal_needs_a_clean_checkout_with_everything_pushed() {
    assert_eq!(checkout_problem(CheckoutUse::Remove, &facts()), None);
    let ahead = CheckoutFacts { commits_ahead: true, ..facts() };
    assert_eq!(checkout_problem(CheckoutUse::Remove, &ahead), Some(CheckoutProblem::LocalCommits));
    assert_eq!(checkout_problem(CheckoutUse::Push, &ahead), None);
    let dirty = CheckoutFacts { dirty: true, commits_ahead: true, ..facts() };
    assert_eq!(checkout_problem(CheckoutUse::Remove, &dirty), Some(CheckoutProblem::Dirty));
    assert_eq!(checkout_problem(CheckoutUse::Inspect, &dirty), None);
    assert_eq!(
        CheckoutProblem::Dirty.message(CheckoutUse::Push, "demo", "team", "/t"),
        "working tree has local changes; commit or discard them explicitly before retrying"
    );
    let foreign = CheckoutFacts { configured_repository: false, dirty: true, ..facts() };
    assert_eq!(checkout_problem(CheckoutUse::Push, &foreign), Some(CheckoutProblem::NotConfigured));
    assert_eq!(
        CheckoutProblem::NotConfigured.message(CheckoutUse::Remove, "demo", "team", "/t"),
        "refusing to remove a checkout that is not the configured Git repository"
    );
    let missing = CheckoutFacts { installed: false, ..facts() };
    assert_eq!(
        checkout_problem(CheckoutUse::Remove, &missing).unwrap().message(CheckoutUse::Remove, "demo", "team", "/t"),
        "tool 'demo' from catalog 'team' is not installed"
    );
    let busy = CheckoutFacts { definition_unchanged: false, installed: false, ..facts() };
    assert_eq!(
        checkout_problem(CheckoutUse::Push, &busy).unwrap().message(CheckoutUse::Push, "demo", "team", "/t/demo"),
        "/t/demo is busy or changed while awaiting a decision; retry the operation"
    );
}

fn tool(name: &str, catalog: &str, commands: &[&str]) -> ResolvedTool {
    let mut definition = ToolConfig::git(format!("{name}.git"), None);
    definition.commands = commands
        .iter()
        .map(|c| ((*c).to_owned(), CommandConfig::legacy(format!("{c}.sh"), None)))
        .collect();
    ResolvedTool { name: name.to_owned(), catalog: catalog.to_owned(), definition }
}

#[test]
fn inventory_groups_entries_by_project_in_order() {
    let tools = vec![tool("zed", "team", &["run", "build"]), tool("alpha", "team", &[])];
    let mut shortcuts = ShortcutFile::new();
    let personal = |path: &str| Shortcut::new("team".to_owned(), "zed".to_owned(), path.to_owned()).unwrap();
    save(&mut shortcuts, "run", personal("mine.sh")).unwrap();
    save(&mut shortcuts, "alpha-only", Shortcut::new("home".to_owned(), "other".to_owned(), "x.sh".to_owned()).unwrap())
        .unwrap();
    let projects = project_inventory(tools, shortcuts);
    let keys: Vec<(&str, &str)> = projects.iter().map(|p| (p.tool.as_str(), p.catalog.as_str())).collect();
    assert_eq!(keys, vec![("alpha", "team"), ("other", "home"), ("zed", "team")]);
    assert!(projects.iter().all(|p| !p.installed));
    assert!(projects[0].entries.is_empty());
    let zed: Vec<(&str, EntrySource)> = projects[2].entries.iter().map(|e| (e.name.as_str(), e.source)).collect();
    assert_eq!(
        zed,
        vec![("build", EntrySource::Catalog), ("run", EntrySource::Catalog), ("run", EntrySource::Personal)]
    );
}

#[test]
fn browsed_directories_come_first_then_names() {
    let entry = |name: &str, is_directory: bool| BrowserEntry { name: name.to_owned(), path: format!("/p/{name}"), is_directory };
    let sorted = sort_browsed(vec![entry("b.txt", false), entry("src", true), entry("a.txt", false), entry("docs", true)]);
    let names: Vec<&str> = sorted.iter().map(|e| e.name.as_str()).collect();
    assert_eq!(names, vec!["docs", "src", "a.txt", "b.txt"]);
}

#[test]
fn scripts_run_with_the_interpreter_their_extension_names() {
    assert_eq!(script_interpreters("PY", Platform::Other), Some(vec!["python3".to_owned(), "python".to_owned()]));
    assert_eq!(script_interpreters("py", Platform::Windows), Some(vec!["python".to_owned(), "python3".to_owned()]));
    assert_eq!(script_interpreters("sh", Platform::Other), Some(vec!["sh".to_owned()]));
    assert_eq!(script_interpreters("ps1", Platform::Other), Some(vec!["pwsh".to_owned(), "powershell".to_owned()]));
    assert_eq!(script_interpreters("txt", Platform::Other), None);
}

fn attempts(items: &[&[&str]]) -> Vec<Vec<String>> {
    items.iter().map(|a| paths(a)).collect()
}

#[test]
fn executable_files_run_themselves() {
    let plan = launch_file("/tools/t/run.py", true, Platform::Other).unwrap();
    assert_eq!(plan.attempts, attempts(&[&["/tools/t/run.py"]]));
    assert_eq!(plan.working_directory, None);
}

#[test]
fn scripts_run_under_the_interpreters_of_their_extension() {
    let plan = launch_file("/tools/t/run.PY", false, Platform::Other).unwrap();
    assert_eq!(plan.attempts, attempts(&[&["python3", "/tools/t/run.PY"], &["python", "/tools/t/run.PY"]]));
    let plan = launch_file("C:\\tools\\t\\setup.ps1", false, Platform::Windows).unwrap();
    assert_eq!(
        plan.attempts,
        attempts(&[&["pwsh", "C:\\tools\\t\\setup.ps1"], &["powershell", "C:\\tools\\t\\setup.ps1"]])
    );
    let plan = launch_file("/a.b/tool.sh", false, Platform::Other).unwrap();
    assert_eq!(plan.attempts, attempts(&[&["sh", "/a.b/tool.sh"]]));
}

#[test]
fn files_that_are_neither_executable_nor_scripts_are_refused() {
    let message = "Loadbot located /t/notes.txt, but it is not executable and has no supported script extension";
    assert_eq!(launch_file("/t/notes.txt", false, Platform::Other), Err(message.to_owned()));
    assert!(launch_file("/t/.sh", false, Platform::Other).is_err());
    assert!(launch_file("/t.sh/readme", false, Platform::Other).is_err());
    assert_eq!(
        no_interpreter_message("/t/x.py"),
        "Loadbot located /t/x.py, but no supported interpreter was found in PATH"
    );
}

#[test]
fn runners_launch_in_the_tool_directory() {
    let plan = launch_with_runner("/t/build.sh", "/t", Runner::Bash, Platform::Other);
    assert_eq!(plan.attempts, attempts(&[&["bash", "/t/build.sh"]]));
    assert_eq!(plan.working_directory.as_deref(), Some("/t"));
    let plan = launch_with_runner("/t/app", "/t", Runner::Direct, Platform::Other);
    assert_eq!(plan.attempts, attempts(&[&["/t/app"]]));
    let plan = launch_with_runner("/t/s.ps1", "/t", Runner::Powershell, Platform::Windows);
    assert_eq!(plan.attempts, attempts(&[&["powershell", "/t/s.ps1"], &["pwsh", "/t/s.ps1"]]));
    assert_eq!(
        runner_unavailable_message(Runner::Python, "/t/x.py"),
        "runner 'python' is not available in PATH for /t/x.py"
    );
}

#[test]
fn node_must_be_at_least_22_12() {
    assert!(node_version_supported(true, "v22.12.0\n"));
    assert!(node_version_supported(true, "v23.0.1"));
    assert!(node_version_supported(true, "22.12"));
    assert!(!node_version_supported(true, "v22.11.9"));
    assert!(!node_version_supported(true, "v21.99.0"));
    assert!(!node_version_supported(false, "v24.0.0"));
    assert!(!node_version_supported(true, "v24"));
    assert!(!node_version_supported(true, "node 24.1"));
    assert!(!node_version_supported(true, "v4294967296.1"));
}

#[test]
fn shortcuts_are_offered_the_file_stem_as_name() {
    assert_eq!(default_shortcut_name("scripts/build.sh", Platform::Other), Some("build".to_owned()));
    assert_eq!(default_shortcut_name("tool.tar.gz", Platform::Other), Some("tool.tar".to_owned()));
    assert_eq!(default_shortcut_name(".env", Platform::Other), Some(".env".to_owned()));
    assert_eq!(default_shortcut_name("bin\\deploy.ps1", Platform::Windows), Some("deploy".to_owned()));
    assert_eq!(default_shortcut_name("bin\\deploy.ps1", Platform::Other), None);
    assert_eq!(default_shortcut_name("docs/read me.txt", Platform::Other), None);
    assert_eq!(shortcut_name_label(Some("build")), "Shortcut name [build]:");
    assert_eq!(shortcut_name_label(None), "Shortcut name:");
}

fn listed(name: Option<&str>, is_symlink: bool, is_dir: bool, is_file: bool) -> ListedEntry {
    ListedEntry {
        name: name.map(str::to_owned),
        path: format!("/p/{}", name.unwrap_or("?")),
        is_symlink,
        is_dir,
        is_file,
    }
}

#[test]
fn browsing_leaves_out_links_special_files_and_unreadable_names() {
    let entries = browsable_entries(vec![
        listed(Some("z.sh"), false, false, true),
        listed(Some("link"), true, false, false),
        listed(Some("fifo"), false, false, false),
        listed(None, false, false, true),
        listed(Some("lib"), false, true, false),
        listed(Some("a.py"), false, false, true),
    ]);
    let names: Vec<(&str, bool)> = entries.iter().map(|entry| (entry.name.as_str(), entry.is_directory)).collect();
    assert_eq!(names, vec![("lib", true), ("a.py", false), ("z.sh", false)]);
    assert_eq!(entries[0].path, "/p/lib");
}

#[test]
fn browsing_refuses_links_non_directories_and_escapes() {
    let dir = ComponentFacts { is_symlink: false, is_dir: true };
    let link = ComponentFacts { is_symlink: true, is_dir: false };
    let file = ComponentFacts { is_symlink: false, is_dir: false };
    assert_eq!(browse_problem(true, &vec![], None), Some(BrowseProblem::SymlinkRoot));
    assert_eq!(browse_problem(false, &vec![dir, link, file], None), Some(BrowseProblem::SymlinkDirectory));
    assert_eq!(browse_problem(false, &vec![dir, file], None), Some(BrowseProblem::NotDirectory));
    assert_eq!(browse_problem(false, &vec![dir, dir], Some(false)), Some(BrowseProblem::Escapes));
    assert_eq!(browse_problem(false, &vec![dir, dir], Some(true)), None);
    assert_eq!(browse_problem(false, &vec![dir], None), None);
    assert_eq!(BrowseProblem::SymlinkRoot.message(), "refusing to browse a symlink tool directory");
    assert_eq!(BrowseProblem::SymlinkDirectory.message(), "refusing to browse a symlink directory");
    assert_eq!(BrowseProblem::NotDirectory.message(), "selected path is not a directory");
    assert_eq!(BrowseProblem::Escapes.message(), "selected directory escapes its tool repository");
}
