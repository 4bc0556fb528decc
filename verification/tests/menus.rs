use std::collections::VecDeque;

use loadbot::catalog::{CommandConfig, ResolvedTool, Runner, ToolConfig};
use loadbot::interaction::OperationError;
use loadbot::interactive::{
    collect_shortcut_menu, confirm_kamaji_catalog, entry_action, entry_labels, project_action, project_labels,
    select_project_action,
    select_project_entry, Asked, CatalogAddInput, EntryAction, ProjectAction, Prompt, ShortcutMenuAction,
};
use loadbot::launcher::{entry_broken_message, project_inventory, EntrySource, Project, ProjectEntry};
use loadbot::recipe::StoredInvocation;
use loadbot::shortcuts::{save, Shortcut, ShortcutFile};

const BROWSE_TOOLS: &str = "Browse installed tools...";
const EXIT: &str = "Exit";

#[derive(Default)]
struct FakePrompt {
    selections: VecDeque<Option<String>>,
    confirmations: VecDeque<Option<bool>>,
    displayed: Vec<Vec<String>>,
    labels: Vec<String>,
}

impl Prompt for FakePrompt {
    fn input(&mut self, _: &str, _: Option<&str>) -> Result<Option<String>, OperationError> {
        unreachable!()
    }
    fn confirm(&mut self, _: &str, _: bool) -> Result<Option<bool>, OperationError> {
        Ok(self.confirmations.pop_front().unwrap())
    }
    fn select(&mut self, label: &str, choices: &[String]) -> Result<Option<String>, OperationError> {
        self.labels.push(label.to_owned());
        self.displayed.push(choices.to_vec());
        Ok(self.selections.pop_front().unwrap())
    }
    fn message(&mut self, _: &str) -> Result<(), OperationError> {
        Ok(())
    }
}

fn selecting(selections: &[Option<&str>]) -> Asked<FakePrompt> {
    Asked::new(FakePrompt {
        selections: selections.iter().map(|s| s.map(str::to_owned)).collect(),
        ..FakePrompt::default()
    })
}

fn confirming(answer: bool) -> Asked<FakePrompt> {
    Asked::new(FakePrompt { confirmations: [Some(answer)].into(), ..FakePrompt::default() })
}

#[test]
fn project_menu_is_first_and_keeps_browser_reachable() {
    let projects = vec![Project {
        tool: "demo".to_owned(),
        catalog: "personal".to_owned(),
        installed: true,
        entries: Vec::new(),
    }];
    let mut project_prompt = selecting(&[Some("demo")]);
    assert_eq!(select_project_action(&mut project_prompt, &projects).unwrap(), ProjectAction::Project(0));
    assert_eq!(project_prompt.prompt.displayed[0], ["demo", BROWSE_TOOLS, EXIT]);

    let mut browse_prompt = selecting(&[Some(BROWSE_TOOLS)]);
    assert_eq!(select_project_action(&mut browse_prompt, &projects).unwrap(), ProjectAction::Browse);
}

#[test]
fn zero_shortcuts_offer_browse_and_exit() {
    let mut prompt = selecting(&[Some(BROWSE_TOOLS)]);
    assert_eq!(select_project_action(&mut prompt, &Vec::new()).unwrap(), ProjectAction::Browse);
    assert_eq!(prompt.prompt.displayed[0], [BROWSE_TOOLS, EXIT]);

    let mut exit_prompt = selecting(&[Some(EXIT)]);
    assert_eq!(select_project_action(&mut exit_prompt, &Vec::new()).unwrap(), ProjectAction::Exit);
}

fn command(description: Option<&str>) -> CommandConfig {
    let mut command = CommandConfig::legacy("scripts/audit.sh".to_owned(), Some(Runner::Bash));
    command.description = description.map(str::to_owned);
    command
}

fn demo(catalog: &str, commands: Vec<(String, CommandConfig)>) -> ResolvedTool {
    let mut definition = ToolConfig::git("demo.git".to_owned(), None);
    definition.commands = commands;
    ResolvedTool { name: "demo".to_owned(), catalog: catalog.to_owned(), definition }
}

#[test]
fn inventory_groups_projects_qualifies_duplicates_and_marks_name_conflicts() {
    let tools = vec![
        demo(
            "personal",
            vec![("audit".to_owned(), command(Some("Shared audit"))), ("build".to_owned(), command(None))],
        ),
        demo("public", vec![("scan".to_owned(), command(None))]),
    ];
    let mut shortcut_file = ShortcutFile::new();
    let mut shortcut = Shortcut::new("personal".to_owned(), "demo".to_owned(), "local/audit.sh".to_owned()).unwrap();
    shortcut.description = Some("My audit".to_owned());
    save(&mut shortcut_file, "audit", shortcut).unwrap();

    let projects = project_inventory(tools, shortcut_file);

    assert_eq!(projects.len(), 2);
    let labels = project_labels(&projects);
    assert_eq!(labels[0], "demo (personal)");
    assert_eq!(labels[1], "demo (public)");
    assert_eq!(
        entry_labels(&projects[0].entries),
        ["audit [shared] - Shared audit", "audit [personal] - My audit", "build"]
    );
}

fn entry(name: &str, source: EntrySource) -> ProjectEntry {
    ProjectEntry {
        name: name.to_owned(),
        description: None,
        invocation: StoredInvocation::legacy(format!("{name}.sh"), None),
        source,
    }
}

#[test]
fn entries_named_like_menu_choices_are_qualified() {
    let entries = vec![entry("../ Back", EntrySource::Personal), entry("Exit", EntrySource::Catalog), entry("run", EntrySource::Catalog)];
    assert_eq!(entry_labels(&entries), ["../ Back [personal]", "Exit [shared]", "run"]);
    let projects = vec![Project { tool: EXIT.to_owned(), catalog: "home".to_owned(), installed: true, entries }];
    assert_eq!(project_labels(&projects), ["Exit (home)"]);
}

#[test]
fn project_menus_offer_back_and_exit_after_the_entries() {
    let project = Project {
        tool: "demo".to_owned(),
        catalog: "home".to_owned(),
        installed: true,
        entries: vec![entry("build", EntrySource::Catalog), entry("test", EntrySource::Personal)],
    };
    let mut prompt = selecting(&[Some("test")]);
    assert_eq!(select_project_entry(&mut prompt, "demo", &project).unwrap(), EntryAction::Entry(1));
    assert_eq!(prompt.prompt.labels[0], "Run from demo:");
    assert_eq!(prompt.prompt.displayed[0], ["build", "test", "../ Back", EXIT]);
    let labels = entry_labels(&project.entries);
    assert_eq!(entry_action(&labels, Some("../ Back".to_owned())).unwrap(), EntryAction::Back);
    assert_eq!(entry_action(&labels, Some(EXIT.to_owned())).unwrap(), EntryAction::Exit);
    assert_eq!(entry_action(&labels, None).unwrap(), EntryAction::Cancelled);
    assert_eq!(entry_action(&labels, Some("gone".to_owned())).unwrap_err().text(), "invalid project command selection");
    let mut unknown = selecting(&[Some("gone")]);
    assert_eq!(
        select_project_action(&mut unknown, &vec![project]).unwrap_err().text(),
        "invalid project selection"
    );
}

#[test]
fn broken_project_entries_name_where_they_are_defined() {
    assert_eq!(
        entry_broken_message("home", "demo", &entry("build", EntrySource::Catalog)),
        "shared command 'build' is broken:\n\ncatalog: home\ntool: demo\npath: build.sh"
    );
    assert_eq!(
        entry_broken_message("home", "demo", &entry("mine", EntrySource::Personal)),
        "shortcut 'mine' is broken:\n\ncatalog: home\ntool: demo\npath: mine.sh"
    );
}

fn kamaji_input() -> CatalogAddInput {
    CatalogAddInput {
        name: "personal".to_owned(),
        url: "https://github.com/0xkamaji/loadbot-catalog.git".to_owned(),
        writable: true,
    }
}

#[test]
fn mod_kamaji_preset_delegates_exact_catalog_add_values() {
    assert_eq!(confirm_kamaji_catalog(&mut confirming(true)).unwrap(), Some(kamaji_input()));
}

#[test]
fn mod_refusing_kamaji_preset_never_calls_catalog_add() {
    assert_eq!(confirm_kamaji_catalog(&mut confirming(false)).unwrap(), None);
}

#[test]
fn main_kamaji_preset_delegates_exact_catalog_add_values() {
    assert_eq!(confirm_kamaji_catalog(&mut confirming(true)).unwrap(), Some(kamaji_input()));
}

#[test]
fn main_refusing_kamaji_preset_never_calls_catalog_add() {
    assert_eq!(confirm_kamaji_catalog(&mut confirming(false)).unwrap(), None);
}

#[test]
fn shortcut_menu_and_direct_add_delegate_to_the_same_handler() {
    let mut prompt = selecting(&[Some("Add a shortcut")]);
    assert_eq!(collect_shortcut_menu(&mut prompt).unwrap(), Some(ShortcutMenuAction::Add));
    assert_eq!(prompt.prompt.labels[0], "Shortcuts:");
    assert_eq!(prompt.prompt.displayed[0], ["Add a shortcut", "List shortcuts", "Remove a shortcut", "Cancel"]);
}

#[test]
fn shortcut_menu_cancel_and_eof_never_call_add() {
    for selection in [Some("Cancel"), None] {
        assert_eq!(collect_shortcut_menu(&mut selecting(&[selection])).unwrap(), None);
    }
}

#[test]
fn every_label_selects_its_own_project_and_entry() {
    let tools = vec![
        demo("personal", vec![("audit".to_owned(), command(None)), ("build".to_owned(), command(Some("b")))]),
        demo("public", vec![("audit".to_owned(), command(None))]),
    ];
    let mut shortcut_file = ShortcutFile::new();
    let shortcut = Shortcut::new("personal".to_owned(), "demo".to_owned(), "mine.sh".to_owned()).unwrap();
    save(&mut shortcut_file, "audit", shortcut).unwrap();
    let projects = project_inventory(tools, shortcut_file);
    let labels = project_labels(&projects);
    for (index, label) in labels.iter().enumerate() {
        assert_eq!(project_action(&labels, Some(label.clone())).unwrap(), ProjectAction::Project(index));
    }
    let entries = entry_labels(&projects[0].entries);
    assert_eq!(entries, ["audit [shared]", "audit [personal]", "build - b"]);
    for (index, label) in entries.iter().enumerate() {
        assert_eq!(entry_action(&entries, Some(label.clone())).unwrap(), EntryAction::Entry(index));
    }
}
