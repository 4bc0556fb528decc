use std::collections::VecDeque;

use loadbot::cli::args::{Cli, Commands};
use loadbot::interaction::OperationError;
use loadbot::interactive::{
    collect_catalog_menu, collect_main_command, collect_shortcut_menu, confirm_kamaji_catalog, is_interactive,
    Asked, CatalogAddInput, CatalogMenuAction, Prompt, ShortcutMenuAction,
};

struct MenuPrompt(Option<usize>);

impl Prompt for MenuPrompt {
    fn input(&mut self, _: &str, _: Option<&str>) -> Result<Option<String>, OperationError> {
        unreachable!()
    }
    fn confirm(&mut self, _: &str, _: bool) -> Result<Option<bool>, OperationError> {
        unreachable!()
    }
    fn message(&mut self, _: &str) -> Result<(), OperationError> {
        unreachable!()
    }
    fn select(&mut self, label: &str, choices: &[String]) -> Result<Option<String>, OperationError> {
        assert_eq!(label, "Loadbot:");
        assert_eq!(
            choices,
            &[
                "Run a tool",
                "Add a tool",
                "Pull/install a tool",
                "Update a tool",
                "List tools",
                "Show tool path",
                "Show tool status",
                "Manage shortcuts",
                "Manage catalogs",
                "Exit",
            ]
        );
        Ok(self.0.map(|index| choices[index].clone()))
    }
}

#[test]
fn every_main_menu_selection_delegates_to_its_direct_command() {
    let commands = [
        vec!["run"],
        vec!["add"],
        vec!["pull"],
        vec!["update"],
        vec!["list"],
        vec!["path"],
        vec!["status"],
        vec!["shortcut"],
        vec!["catalog"],
    ];
    for (index, arguments) in commands.into_iter().enumerate() {
        let line: Vec<&str> = std::iter::once("loadbot").chain(arguments).collect();
        let direct = Cli::try_parse_from(&line).unwrap();
        let selected: Option<Commands> = collect_main_command(&mut Asked::new(MenuPrompt(Some(index)))).unwrap();
        assert_eq!(selected, direct.command);
    }
}

#[test]
fn main_menu_exit_and_cancellation_do_not_dispatch() {
    for selection in [Some(9), None] {
        assert!(collect_main_command(&mut Asked::new(MenuPrompt(selection))).unwrap().is_none());
    }
}

#[test]
fn tty_detection_requires_both_streams() {
    assert!(is_interactive(true, true));
    assert!(!is_interactive(true, false));
    assert!(!is_interactive(false, true));
}

#[derive(Default)]
struct FakePrompt {
    inputs: VecDeque<Option<String>>,
    confirmations: VecDeque<Option<bool>>,
    selections: VecDeque<Option<String>>,
    messages: Vec<String>,
    selection_requests: Vec<(String, Vec<String>)>,
}

impl Prompt for FakePrompt {
    fn input(&mut self, _label: &str, _default: Option<&str>) -> Result<Option<String>, OperationError> {
        Ok(self.inputs.pop_front().flatten())
    }
    fn confirm(&mut self, _label: &str, _default: bool) -> Result<Option<bool>, OperationError> {
        Ok(self.confirmations.pop_front().flatten())
    }
    fn select(&mut self, label: &str, choices: &[String]) -> Result<Option<String>, OperationError> {
        self.selection_requests.push((label.to_owned(), choices.to_vec()));
        Ok(self.selections.pop_front().flatten())
    }
    fn message(&mut self, message: &str) -> Result<(), OperationError> {
        self.messages.push(message.to_owned());
        Ok(())
    }
}

#[test]
fn bare_catalog_menu_lists_onboarding_and_management_choices() {
    let mut prompt = Asked::new(FakePrompt {
        selections: [Some("Use 0xkamaji's catalog".to_owned())].into(),
        ..FakePrompt::default()
    });
    assert_eq!(collect_catalog_menu(&mut prompt).unwrap(), Some(CatalogMenuAction::UseKamajiCatalog));
    assert_eq!(
        prompt.prompt.selection_requests[0].1,
        [
            "Use 0xkamaji's catalog",
            "Add an existing catalog",
            "Create or initialize a catalog",
            "List catalogs",
            "Sync a catalog",
            "Show catalog status",
            "Show catalog path",
            "Cancel",
        ]
    );

    let mut cancelled = Asked::new(FakePrompt { selections: [Some("Cancel".to_owned())].into(), ..FakePrompt::default() });
    assert_eq!(collect_catalog_menu(&mut cancelled).unwrap(), None);
    let mut unknown = Asked::new(FakePrompt { selections: [Some("Nothing".to_owned())].into(), ..FakePrompt::default() });
    assert_eq!(collect_catalog_menu(&mut unknown).unwrap_err().text(), "invalid catalog menu selection");
}

#[test]
fn kamaji_preset_requires_confirmation_and_returns_exact_values() {
    let mut confirmed = Asked::new(FakePrompt { confirmations: [Some(true)].into(), ..FakePrompt::default() });
    assert_eq!(
        confirm_kamaji_catalog(&mut confirmed).unwrap(),
        Some(CatalogAddInput {
            name: "personal".to_owned(),
            url: "https://github.com/0xkamaji/loadbot-catalog.git".to_owned(),
            writable: true,
        })
    );
    assert!(confirmed.prompt.messages[0].contains("Writable:  yes"));

    let mut refused = Asked::new(FakePrompt { confirmations: [Some(false)].into(), ..FakePrompt::default() });
    assert_eq!(confirm_kamaji_catalog(&mut refused).unwrap(), None);
}

#[test]
fn shortcut_menu_offers_add_list_remove_and_cancel() {
    let mut prompt = Asked::new(FakePrompt { selections: [Some("Remove a shortcut".to_owned())].into(), ..FakePrompt::default() });
    assert_eq!(collect_shortcut_menu(&mut prompt).unwrap(), Some(ShortcutMenuAction::Remove));
    assert_eq!(prompt.prompt.selection_requests[0].0, "Shortcuts:");
    assert_eq!(
        prompt.prompt.selection_requests[0].1,
        ["Add a shortcut", "List shortcuts", "Remove a shortcut", "Cancel"]
    );
    for selection in [Some("Cancel".to_owned()), None] {
        let mut prompt = Asked::new(FakePrompt { selections: [selection].into(), ..FakePrompt::default() });
        assert_eq!(collect_shortcut_menu(&mut prompt).unwrap(), None);
    }
}
