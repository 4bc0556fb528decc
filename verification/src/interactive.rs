//! Terminal questions and how their answers become commands and inputs.
//!
//! Asking is the caller's part, through `Prompt`; the functions here decide
//! what is asked and what each answer means.
use vstd::prelude::*;

use crate::cli::args::{Commands, CommandsView};
use crate::git::views;
use crate::interaction::{is_message, OperationError};
use crate::launcher::{EntrySource, Project, ProjectEntry};
use crate::text::{cat2, cat3, cat4, str_eq};

verus! {

/// One question put through a `Prompt`, with what came back, as plain values.
pub enum Exchange {
    Confirm { label: Seq<char>, default: bool, answer: Result<Option<bool>, OperationError> },
    Select { label: Seq<char>, choices: Seq<Seq<char>>, answer: Result<Option<Seq<char>>, OperationError> },
    Message { text: Seq<char>, answer: Result<(), OperationError> },
}

/// A text answer as plain values.
pub open spec fn text_answer(r: Result<Option<String>, OperationError>) -> Result<Option<Seq<char>>, OperationError> {
    match r {
        Ok(s) => Ok(crate::cli::scan::opt_view(s)),
        Err(e) => Err(e),
    }
}

/// Asks the person at the terminal. `None` means the question was cancelled.
pub trait Prompt {
    fn input(&mut self, label: &str, default: Option<&str>) -> Result<Option<String>, OperationError>;

    fn confirm(&mut self, label: &str, default: bool) -> Result<Option<bool>, OperationError>;

    fn select(&mut self, label: &str, choices: &[String]) -> Result<Option<String>, OperationError>;

    fn message(&mut self, message: &str) -> Result<(), OperationError>;
}

/// A prompt together with the record of what was asked through it and what
/// came back, so that the questions the library asks can be stated.
pub struct Asked<P> {
    pub prompt: P,
    history: Ghost<Seq<Exchange>>,
}

impl<P: Prompt> Asked<P> {
    /// The questions asked so far, each with its answer, in order.
    pub closed spec fn exchanges(&self) -> Seq<Exchange> {
        self.history@
    }

    /// The prompt asked through.
    pub closed spec fn asking(&self) -> P {
        self.prompt
    }

    /// Start asking through `prompt`, with nothing asked yet.
    pub fn new(prompt: P) -> (r: Self)
        ensures
            r.asking() == prompt,
            r.exchanges() == Seq::<Exchange>::empty(),
    {
        Asked { prompt, history: Ghost(Seq::empty()) }
    }

    /// Ask for one of `choices`.
    pub fn select(&mut self, label: &str, choices: &[String]) -> (r: Result<Option<String>, OperationError>)
        ensures
            final(self).exchanges() == old(self).exchanges().push(
                Exchange::Select { label: label@, choices: crate::git::views(choices@), answer: text_answer(r) },
            ),
    {
        let r = self.prompt.select(label, choices);
        self.history = Ghost(self.history@.push(
            Exchange::Select { label: label@, choices: crate::git::views(choices@), answer: text_answer(r) },
        ));
        r
    }

    /// Ask to confirm.
    pub fn confirm(&mut self, label: &str, default: bool) -> (r: Result<Option<bool>, OperationError>)
        ensures
            final(self).exchanges() == old(self).exchanges().push(Exchange::Confirm { label: label@, default, answer: r }),
    {
        let r = self.prompt.confirm(label, default);
        self.history = Ghost(self.history@.push(Exchange::Confirm { label: label@, default, answer: r }));
        r
    }

    /// Show a message.
    pub fn message(&mut self, text: &str) -> (r: Result<(), OperationError>)
        ensures
            final(self).exchanges() == old(self).exchanges().push(Exchange::Message { text: text@, answer: r }),
    {
        let r = self.prompt.message(text);
        self.history = Ghost(self.history@.push(Exchange::Message { text: text@, answer: r }));
        r
    }
}

/// The answer of the last question, when it was a choice among texts.
pub open spec fn select_answer(exchanges: Seq<Exchange>) -> Result<Option<Seq<char>>, OperationError> {
    match exchanges.last() {
        Exchange::Select { answer, .. } => answer,
        _ => Ok(None),
    }
}

/// The answer of the last question, when it was a confirmation.
pub open spec fn confirm_answer(exchanges: Seq<Exchange>) -> Result<Option<bool>, OperationError> {
    match exchanges.last() {
        Exchange::Confirm { answer, .. } => answer,
        _ => Ok(None),
    }
}

/// The answer of the last question, when it was a message.
pub open spec fn message_answer(exchanges: Seq<Exchange>) -> Result<(), OperationError> {
    match exchanges.last() {
        Exchange::Message { answer, .. } => answer,
        _ => Ok(()),
    }
}

/// A menu's result: the prompt's error as it came, else the action that the
/// selection stands for, or `invalid` for a text that is no choice.
pub open spec fn menu_result<A>(
    answer: Result<Option<Seq<char>>, OperationError>,
    mapped: spec_fn(Option<Seq<char>>) -> Option<Option<A>>,
    invalid: Seq<char>,
    r: Result<Option<A>, OperationError>,
) -> bool {
    match answer {
        Err(e) => r == Err::<Option<A>, OperationError>(e),
        Ok(selection) => match mapped(selection) {
            Some(a) => r == Ok::<Option<A>, OperationError>(a),
            None => r matches Err(e) && is_message(e, invalid),
        },
    }
}

/// A catalog to register.
#[derive(Debug, PartialEq, Eq)]
pub struct CatalogAddInput {
    pub name: String,
    pub url: String,
    pub writable: bool,
}

/// What the catalog menu offers.
#[derive(Debug, Clone, Copy, PartialEq, Eq)]
pub enum CatalogMenuAction {
    UseKamajiCatalog,
    AddExisting,
    Initialize,
    List,
    Sync,
    Status,
    Path,
}

/// A catalog to initialize, and whether to commit and push it.
#[derive(Debug, PartialEq, Eq)]
pub struct CatalogInitializeInput {
    pub catalog: CatalogAddInput,
    pub commit: bool,
    pub push: bool,
}

/// A tool to add to a writable catalog.
#[derive(Debug, PartialEq, Eq)]
pub struct ToolAddInput {
    pub name: String,
    pub url: String,
    pub revision: Option<String>,
    pub catalog: String,
    pub commit: bool,
    pub push: bool,
}

/// Questions are asked only when both standard input and output are terminals.
pub fn is_interactive(stdin_is_terminal: bool, stdout_is_terminal: bool) -> (r: bool)
    ensures
        r == (stdin_is_terminal && stdout_is_terminal),
{
    stdin_is_terminal && stdout_is_terminal
}

fn strings(items: &[&str]) -> (r: Vec<String>)
    ensures
        crate::git::views(r@) == items@.map_values(|s: &str| s@),
{
    crate::cli::scan::all_strings(items)
}

/// The catalog menu's choices, in order.
pub open spec fn catalog_menu_choices() -> Seq<Seq<char>> {
    seq![
        "Use 0xkamaji's catalog"@,
        "Add an existing catalog"@,
        "Create or initialize a catalog"@,
        "List catalogs"@,
        "Sync a catalog"@,
        "Show catalog status"@,
        "Show catalog path"@,
        "Cancel"@,
    ]
}

/// The action a catalog menu selection stands for; `Cancel` and a cancelled
/// question stand for none; any other text is not a selection.
pub open spec fn spec_catalog_menu_action(selection: Option<Seq<char>>) -> Option<Option<CatalogMenuAction>> {
    match selection {
        None => Some(None),
        Some(s) => if s == catalog_menu_choices()[0] {
            Some(Some(CatalogMenuAction::UseKamajiCatalog))
        } else if s == catalog_menu_choices()[1] {
            Some(Some(CatalogMenuAction::AddExisting))
        } else if s == catalog_menu_choices()[2] {
            Some(Some(CatalogMenuAction::Initialize))
        } else if s == catalog_menu_choices()[3] {
            Some(Some(CatalogMenuAction::List))
        } else if s == catalog_menu_choices()[4] {
            Some(Some(CatalogMenuAction::Sync))
        } else if s == catalog_menu_choices()[5] {
            Some(Some(CatalogMenuAction::Status))
        } else if s == catalog_menu_choices()[6] {
            Some(Some(CatalogMenuAction::Path))
        } else if s == catalog_menu_choices()[7] {
            Some(None)
        } else {
            None
        },
    }
}

/// The action for a catalog menu selection.
pub fn catalog_menu_action(selection: Option<String>) -> (r: Result<Option<CatalogMenuAction>, OperationError>)
    ensures
        match spec_catalog_menu_action(crate::cli::scan::opt_view(selection)) {
            Some(a) => r == Ok::<Option<CatalogMenuAction>, OperationError>(a),
            None => r matches Err(e) && is_message(e, "invalid catalog menu selection"@),
        },
{
    match selection {
        None => Ok(None),
        Some(s) => {
            let s = s.as_str();
            if str_eq(s, "Use 0xkamaji's catalog") {
                Ok(Some(CatalogMenuAction::UseKamajiCatalog))
            } else if str_eq(s, "Add an existing catalog") {
                Ok(Some(CatalogMenuAction::AddExisting))
            } else if str_eq(s, "Create or initialize a catalog") {
                Ok(Some(CatalogMenuAction::Initialize))
            } else if str_eq(s, "List catalogs") {
                Ok(Some(CatalogMenuAction::List))
            } else if str_eq(s, "Sync a catalog") {
                Ok(Some(CatalogMenuAction::Sync))
            } else if str_eq(s, "Show catalog status") {
                Ok(Some(CatalogMenuAction::Status))
            } else if str_eq(s, "Show catalog path") {
                Ok(Some(CatalogMenuAction::Path))
            } else if str_eq(s, "Cancel") {
                Ok(None)
            } else {
                Err(OperationError::message("invalid catalog menu selection".to_string()))
            }
        },
    }
}

/// Ask which catalog action to take.
pub fn collect_catalog_menu<P: Prompt>(prompt: &mut Asked<P>) -> (r: Result<Option<CatalogMenuAction>, OperationError>)
    ensures
        final(prompt).exchanges() == old(prompt).exchanges().push(
            Exchange::Select {
                label: "Catalog setup and management:"@,
                choices: catalog_menu_choices(),
                answer: select_answer(final(prompt).exchanges()),
            },
        ),
        menu_result(
            select_answer(final(prompt).exchanges()),
            |s: Option<Seq<char>>| spec_catalog_menu_action(s),
            "invalid catalog menu selection"@,
            r,
        ),
{
    let choices = strings(
        &[
            "Use 0xkamaji's catalog",
            "Add an existing catalog",
            "Create or initialize a catalog",
            "List catalogs",
            "Sync a catalog",
            "Show catalog status",
            "Show catalog path",
            "Cancel",
        ],
    );
    let selection = match prompt.select("Catalog setup and management:", choices.as_slice()) {
        Ok(s) => s,
        Err(e) => {
            assert(crate::git::views(choices@) =~= catalog_menu_choices());
            return Err(e);
        },
    };
    assert(crate::git::views(choices@) =~= catalog_menu_choices());
    catalog_menu_action(selection)
}

/// The name of the preset catalog.
pub open spec fn kamaji_name() -> Seq<char> {
    "personal"@
}

/// The URL of the preset catalog.
pub open spec fn kamaji_url() -> Seq<char> {
    "https://github.com/0xkamaji/loadbot-catalog.git"@
}

/// What the preset catalog's confirmation shows.
pub open spec fn kamaji_message() -> Seq<char> {
    "\nUse this catalog?\n\n  Name:      personal\n  URL:       https://github.com/0xkamaji/loadbot-catalog.git\n  Writable:  yes\n"@
}

/// Whether `r` is what the answer to the preset's confirmation gives: the
/// preset, registered writable, when confirmed; nothing when declined or
/// cancelled; the prompt's error as it came.
pub open spec fn spec_kamaji_choice(
    answer: Result<Option<bool>, OperationError>,
    r: Result<Option<CatalogAddInput>, OperationError>,
) -> bool {
    match answer {
        Err(e) => r == Err::<Option<CatalogAddInput>, OperationError>(e),
        Ok(Some(true)) => r matches Ok(Some(input)) && input.name@ == kamaji_name() && input.url@ == kamaji_url()
            && input.writable,
        Ok(_) => r == Ok::<Option<CatalogAddInput>, OperationError>(None),
    }
}

/// The preset catalog for an answer to its confirmation.
pub fn kamaji_choice(answer: Result<Option<bool>, OperationError>) -> (r: Result<Option<CatalogAddInput>, OperationError>)
    ensures
        spec_kamaji_choice(answer, r),
{
    match answer {
        Err(e) => Err(e),
        Ok(Some(true)) => Ok(
            Some(
                CatalogAddInput {
                    name: "personal".to_string(),
                    url: "https://github.com/0xkamaji/loadbot-catalog.git".to_string(),
                    writable: true,
                },
            ),
        ),
        Ok(_) => Ok(None),
    }
}

/// Show the preset catalog and ask to use it; it is registered writable.
pub fn confirm_kamaji_catalog<P: Prompt>(prompt: &mut Asked<P>) -> (r: Result<Option<CatalogAddInput>, OperationError>)
    ensures
        old(prompt).exchanges().len() < final(prompt).exchanges().len(),
        final(prompt).exchanges()[old(prompt).exchanges().len() as int] matches Exchange::Message { text, answer }
            && text == kamaji_message(),
        match message_answer(final(prompt).exchanges().subrange(0, old(prompt).exchanges().len() as int + 1)) {
            Err(e) => final(prompt).exchanges() == old(prompt).exchanges().push(
                Exchange::Message { text: kamaji_message(), answer: Err(e) },
            ) && r == Err::<Option<CatalogAddInput>, OperationError>(e),
            Ok(u) => final(prompt).exchanges() == old(prompt).exchanges().push(
                Exchange::Message { text: kamaji_message(), answer: Ok(u) },
            ).push(
                Exchange::Confirm {
                    label: "Proceed?"@,
                    default: true,
                    answer: confirm_answer(final(prompt).exchanges()),
                },
            ) && spec_kamaji_choice(confirm_answer(final(prompt).exchanges()), r),
        },
{
    let ghost before = prompt.exchanges();
    let shown = prompt.message(
        "\nUse this catalog?\n\n  Name:      personal\n  URL:       https://github.com/0xkamaji/loadbot-catalog.git\n  Writable:  yes\n",
    );
    assert(prompt.exchanges().subrange(0, before.len() as int + 1) =~= prompt.exchanges());
    match shown {
        Err(e) => {
            return Err(e);
        },
        Ok(()) => {},
    }
    let ghost middle = prompt.exchanges();
    let answer = prompt.confirm("Proceed?", true);
    assert(prompt.exchanges().subrange(0, before.len() as int + 1) =~= middle);
    assert(middle == before.push(Exchange::Message { text: kamaji_message(), answer: shown }));
    assert(confirm_answer(prompt.exchanges()) == answer);
    kamaji_choice(answer)
}

/// What the main menu offers.
#[derive(Debug, Clone, Copy, PartialEq, Eq)]
pub enum MainMenuAction {
    Run,
    Add,
    Pull,
    Update,
    List,
    Path,
    Status,
    ManageShortcuts,
    ManageCatalogs,
    Exit,
}

/// The main menu's choices, in order.
pub open spec fn main_menu_choices() -> Seq<Seq<char>> {
    seq![
        "Run a tool"@,
        "Add a tool"@,
        "Pull/install a tool"@,
        "Update a tool"@,
        "List tools"@,
        "Show tool path"@,
        "Show tool status"@,
        "Manage shortcuts"@,
        "Manage catalogs"@,
        "Exit"@,
    ]
}

/// The action each main menu choice stands for, by position.
pub open spec fn main_menu_action_at(i: int) -> MainMenuAction {
    if i == 0 {
        MainMenuAction::Run
    } else if i == 1 {
        MainMenuAction::Add
    } else if i == 2 {
        MainMenuAction::Pull
    } else if i == 3 {
        MainMenuAction::Update
    } else if i == 4 {
        MainMenuAction::List
    } else if i == 5 {
        MainMenuAction::Path
    } else if i == 6 {
        MainMenuAction::Status
    } else if i == 7 {
        MainMenuAction::ManageShortcuts
    } else if i == 8 {
        MainMenuAction::ManageCatalogs
    } else {
        MainMenuAction::Exit
    }
}

/// The position of a main menu choice.
pub open spec fn main_menu_index(s: Seq<char>) -> int {
    choose|i: int| 0 <= i < 10 && main_menu_choices()[i] == s
}

/// The action a main menu selection stands for; none for a cancelled
/// question; any other text is not a selection.
pub open spec fn spec_main_menu_action(selection: Option<Seq<char>>) -> Option<Option<MainMenuAction>> {
    match selection {
        None => Some(None),
        Some(s) => if exists|i: int| 0 <= i < 10 && main_menu_choices()[i] == s {
            Some(Some(main_menu_action_at(main_menu_index(s))))
        } else {
            None
        },
    }
}

/// The action for a main menu selection.
pub fn main_menu_action(selection: Option<String>) -> (r: Result<Option<MainMenuAction>, OperationError>)
    ensures
        match spec_main_menu_action(crate::cli::scan::opt_view(selection)) {
            Some(a) => r == Ok::<Option<MainMenuAction>, OperationError>(a),
            None => r matches Err(e) && is_message(e, "invalid main menu selection"@),
        },
{
    let s = match selection {
        None => return Ok(None),
        Some(s) => s,
    };
    let choices = [
        "Run a tool",
        "Add a tool",
        "Pull/install a tool",
        "Update a tool",
        "List tools",
        "Show tool path",
        "Show tool status",
        "Manage shortcuts",
        "Manage catalogs",
        "Exit",
    ];
    let actions = [
        MainMenuAction::Run,
        MainMenuAction::Add,
        MainMenuAction::Pull,
        MainMenuAction::Update,
        MainMenuAction::List,
        MainMenuAction::Path,
        MainMenuAction::Status,
        MainMenuAction::ManageShortcuts,
        MainMenuAction::ManageCatalogs,
        MainMenuAction::Exit,
    ];
    assert(choices@.map_values(|c: &str| c@) =~= main_menu_choices());
    assert forall|i: int| 0 <= i < 10 implies actions@[i] == main_menu_action_at(i) by {}
    let mut i: usize = 0;
    while i < 10
        invariant
            i <= 10,
            choices@.map_values(|c: &str| c@) == main_menu_choices(),
            crate::cli::scan::opt_view(selection) == Some(s@),
            forall|k: int| 0 <= k < 10 ==> actions@[k] == main_menu_action_at(k),
            forall|k: int| 0 <= k < i ==> main_menu_choices()[k] != s@,
        decreases 10 - i,
    {
        if str_eq(choices[i], s.as_str()) {
            proof {
                assert(choices@.map_values(|c: &str| c@)[i as int] == choices@[i as int]@);
                assert(main_menu_choices()[i as int] == s@);
                assert(exists|k: int| 0 <= k < 10 && main_menu_choices()[k] == s@);
                let k = main_menu_index(s@);
                assert(main_menu_choices()[k] == main_menu_choices()[i as int]);
                lemma_main_menu_choices_distinct(k, i as int);
                assert(k == i);
                assert(spec_main_menu_action(Some(s@)) == Some(Some(main_menu_action_at(i as int))));
            }
            let a = actions[i];
            assert(a == main_menu_action_at(i as int));
            return Ok(Some(a));
        }
        i = i + 1;
    }
    Err(OperationError::message("invalid main menu selection".to_string()))
}

proof fn lemma_main_menu_choices_distinct(a: int, b: int)
    requires
        0 <= a < 10,
        0 <= b < 10,
        main_menu_choices()[a] == main_menu_choices()[b],
    ensures
        a == b,
{
    reveal_strlit("Run a tool");
    reveal_strlit("Add a tool");
    reveal_strlit("Pull/install a tool");
    reveal_strlit("Update a tool");
    reveal_strlit("List tools");
    reveal_strlit("Show tool path");
    reveal_strlit("Show tool status");
    reveal_strlit("Manage shortcuts");
    reveal_strlit("Manage catalogs");
    reveal_strlit("Exit");
    let c = main_menu_choices();
    if a != b {
        assert(c[a].len() != c[b].len() || c[a][0] != c[b][0] || c[a][5] != c[b][5] || c[a][7] != c[b][7]);
    }
}

/// Ask which main menu action to take.
pub fn collect_main_menu<P: Prompt>(prompt: &mut Asked<P>) -> (r: Result<Option<MainMenuAction>, OperationError>)
    ensures
        final(prompt).exchanges() == old(prompt).exchanges().push(
            Exchange::Select {
                label: "Loadbot:"@,
                choices: main_menu_choices(),
                answer: select_answer(final(prompt).exchanges()),
            },
        ),
        menu_result(
            select_answer(final(prompt).exchanges()),
            |s: Option<Seq<char>>| spec_main_menu_action(s),
            "invalid main menu selection"@,
            r,
        ),
{
    let choices = strings(
        &[
            "Run a tool",
            "Add a tool",
            "Pull/install a tool",
            "Update a tool",
            "List tools",
            "Show tool path",
            "Show tool status",
            "Manage shortcuts",
            "Manage catalogs",
            "Exit",
        ],
    );
    assert(crate::git::views(choices@) =~= main_menu_choices());
    let selection = match prompt.select("Loadbot:", choices.as_slice()) {
        Ok(s) => s,
        Err(e) => return Err(e),
    };
    main_menu_action(selection)
}

/// The command a main menu action runs: the same as typing its command
/// without arguments. Exit runs none.
pub open spec fn spec_main_command(action: MainMenuAction) -> Option<CommandsView> {
    match action {
        MainMenuAction::Run => Some(CommandsView::Run { shortcut: None }),
        MainMenuAction::Add => Some(
            CommandsView::Add { name: None, git_url: None, revision: None, catalog: None, commit: false, push: false },
        ),
        MainMenuAction::Pull => Some(CommandsView::Pull { name: None, catalog: None }),
        MainMenuAction::Update => Some(CommandsView::Update { name: None, catalog: None }),
        MainMenuAction::List => Some(CommandsView::List),
        MainMenuAction::Path => Some(CommandsView::Path { name: None, catalog: None }),
        MainMenuAction::Status => Some(CommandsView::Status { name: None, catalog: None }),
        MainMenuAction::ManageShortcuts => Some(CommandsView::Shortcut { command: None }),
        MainMenuAction::ManageCatalogs => Some(CommandsView::Catalog { command: None }),
        MainMenuAction::Exit => None,
    }
}

/// The command for an action of the menu, if any.
pub open spec fn spec_command_for(action: Option<MainMenuAction>) -> Option<CommandsView> {
    match action {
        Some(a) => spec_main_command(a),
        None => None,
    }
}

pub open spec fn opt_commands_view(c: Option<Commands>) -> Option<CommandsView> {
    match c {
        Some(c) => Some(c@),
        None => None,
    }
}

/// The command for a main menu action.
pub fn main_command(action: Option<MainMenuAction>) -> (r: Option<Commands>)
    ensures
        opt_commands_view(r) == spec_command_for(action),
{
    match action {
        Some(MainMenuAction::Run) => Some(Commands::Run { shortcut: None }),
        Some(MainMenuAction::Add) => Some(
            Commands::Add { name: None, git_url: None, revision: None, catalog: None, commit: false, push: false },
        ),
        Some(MainMenuAction::Pull) => Some(Commands::Pull { name: None, catalog: None }),
        Some(MainMenuAction::Update) => Some(Commands::Update { name: None, catalog: None }),
        Some(MainMenuAction::List) => Some(Commands::List),
        Some(MainMenuAction::Path) => Some(Commands::Path { name: None, catalog: None }),
        Some(MainMenuAction::Status) => Some(Commands::Status { name: None, catalog: None }),
        Some(MainMenuAction::ManageShortcuts) => Some(Commands::Shortcut { command: None }),
        Some(MainMenuAction::ManageCatalogs) => Some(Commands::Catalog { command: None }),
        Some(MainMenuAction::Exit) | None => None,
    }
}

/// Ask for the command to run when none was given.
pub fn collect_main_command<P: Prompt>(prompt: &mut Asked<P>) -> (r: Result<Option<Commands>, OperationError>)
    ensures
        final(prompt).exchanges() == old(prompt).exchanges().push(
            Exchange::Select {
                label: "Loadbot:"@,
                choices: main_menu_choices(),
                answer: select_answer(final(prompt).exchanges()),
            },
        ),
        match select_answer(final(prompt).exchanges()) {
            Err(e) => r == Err::<Option<Commands>, OperationError>(e),
            Ok(selection) => match spec_main_menu_action(selection) {
                Some(action) => r matches Ok(c) && opt_commands_view(c) == spec_command_for(action),
                None => r matches Err(e) && is_message(e, "invalid main menu selection"@),
            },
        },
{
    match collect_main_menu(prompt) {
        Err(e) => Err(e),
        Ok(action) => {
            let c = main_command(action);
            Ok(c)
        },
    }
}

/// What the shortcut menu offers.
#[derive(Debug, Clone, Copy, PartialEq, Eq)]
pub enum ShortcutMenuAction {
    Add,
    List,
    Remove,
}

/// The shortcut menu's choices, in order.
pub open spec fn shortcut_menu_choices() -> Seq<Seq<char>> {
    seq!["Add a shortcut"@, "List shortcuts"@, "Remove a shortcut"@, "Cancel"@]
}

/// The action a shortcut menu selection stands for; `Cancel` and a cancelled
/// question stand for none; any other text is not a selection.
pub open spec fn spec_shortcut_menu_action(selection: Option<Seq<char>>) -> Option<Option<ShortcutMenuAction>> {
    match selection {
        None => Some(None),
        Some(s) => if s == shortcut_menu_choices()[0] {
            Some(Some(ShortcutMenuAction::Add))
        } else if s == shortcut_menu_choices()[1] {
            Some(Some(ShortcutMenuAction::List))
        } else if s == shortcut_menu_choices()[2] {
            Some(Some(ShortcutMenuAction::Remove))
        } else if s == shortcut_menu_choices()[3] {
            Some(None)
        } else {
            None
        },
    }
}

/// The action for a shortcut menu selection.
pub fn shortcut_menu_action(selection: Option<String>) -> (r: Result<Option<ShortcutMenuAction>, OperationError>)
    ensures
        match spec_shortcut_menu_action(crate::cli::scan::opt_view(selection)) {
            Some(a) => r == Ok::<Option<ShortcutMenuAction>, OperationError>(a),
            None => r matches Err(e) && is_message(e, "invalid shortcut menu selection"@),
        },
{
    match selection {
        None => Ok(None),
        Some(s) => {
            let s = s.as_str();
            if str_eq(s, "Add a shortcut") {
                Ok(Some(ShortcutMenuAction::Add))
            } else if str_eq(s, "List shortcuts") {
                Ok(Some(ShortcutMenuAction::List))
            } else if str_eq(s, "Remove a shortcut") {
                Ok(Some(ShortcutMenuAction::Remove))
            } else if str_eq(s, "Cancel") {
                Ok(None)
            } else {
                Err(OperationError::message("invalid shortcut menu selection".to_string()))
            }
        },
    }
}

/// Ask which shortcut action to take.
pub fn collect_shortcut_menu<P: Prompt>(prompt: &mut Asked<P>) -> (r: Result<Option<ShortcutMenuAction>, OperationError>)
    ensures
        final(prompt).exchanges() == old(prompt).exchanges().push(
            Exchange::Select {
                label: "Shortcuts:"@,
                choices: shortcut_menu_choices(),
                answer: select_answer(final(prompt).exchanges()),
            },
        ),
        menu_result(
            select_answer(final(prompt).exchanges()),
            |s: Option<Seq<char>>| spec_shortcut_menu_action(s),
            "invalid shortcut menu selection"@,
            r,
        ),
{
    let choices = strings(&["Add a shortcut", "List shortcuts", "Remove a shortcut", "Cancel"]);
    assert(crate::git::views(choices@) =~= shortcut_menu_choices());
    let selection = match prompt.select("Shortcuts:", choices.as_slice()) {
        Ok(s) => s,
        Err(e) => return Err(e),
    };
    shortcut_menu_action(selection)
}

/// The project menu's choice that browses installed tools instead.
pub open spec fn browse_tools_choice() -> Seq<char> {
    "Browse installed tools..."@
}

/// The menus' choice that leaves the launcher.
pub open spec fn exit_choice() -> Seq<char> {
    "Exit"@
}

/// The menus' choice that goes back one level.
pub open spec fn back_choice() -> Seq<char> {
    "../ Back"@
}

/// Whether another project has the same tool name.
pub open spec fn tool_shared(projects: Seq<Project>, i: int) -> bool {
    exists|j: int| #![trigger projects[j]] 0 <= j < projects.len() && j != i && projects[j].tool@ == projects[i].tool@
}

/// A project's label: its tool, with the catalog when another project has the
/// same tool or the tool is named like one of the menu's own choices.
pub open spec fn spec_project_label(projects: Seq<Project>, i: int) -> Seq<char> {
    let p = projects[i];
    if tool_shared(projects, i) || p.tool@ == browse_tools_choice() || p.tool@ == exit_choice() {
        p.tool@ + " ("@ + p.catalog@ + ")"@
    } else {
        p.tool@
    }
}

pub open spec fn spec_project_labels(projects: Seq<Project>) -> Seq<Seq<char>> {
    Seq::new(projects.len(), |i: int| spec_project_label(projects, i))
}

fn has_tool_twin(projects: &Vec<Project>, i: usize) -> (r: bool)
    requires
        i < projects.len(),
    ensures
        r == tool_shared(projects@, i as int),
{
    let mut j: usize = 0;
    while j < projects.len()
        invariant
            i < projects.len(),
            j <= projects.len(),
            forall|k: int| 0 <= k < j && k != i ==> (#[trigger] projects@[k]).tool@ != projects@[i as int].tool@,
        decreases projects.len() - j,
    {
        if j != i && str_eq(projects[j].tool.as_str(), projects[i].tool.as_str()) {
            return true;
        }
        j = j + 1;
    }
    false
}

/// The labels of the projects, in order.
pub fn project_labels(projects: &Vec<Project>) -> (r: Vec<String>)
    ensures
        views(r@) == spec_project_labels(projects@),
{
    let mut r: Vec<String> = Vec::new();
    let mut i: usize = 0;
    while i < projects.len()
        invariant
            i <= projects.len(),
            r@.len() == i,
            forall|k: int| 0 <= k < i ==> (#[trigger] r@[k])@ == spec_project_label(projects@, k),
        decreases projects.len() - i,
    {
        let p = &projects[i];
        let label = if has_tool_twin(projects, i) || str_eq(p.tool.as_str(), "Browse installed tools...") || str_eq(
            p.tool.as_str(),
            "Exit",
        ) {
            cat4(p.tool.as_str(), " (", p.catalog.as_str(), ")")
        } else {
            p.tool.clone()
        };
        r.push(label);
        i = i + 1;
    }
    assert(views(r@) =~= spec_project_labels(projects@));
    r
}

/// Whether another entry has the same name.
pub open spec fn name_shared(entries: Seq<ProjectEntry>, i: int) -> bool {
    exists|j: int| #![trigger entries[j]] 0 <= j < entries.len() && j != i && entries[j].name@ == entries[i].name@
}

/// An entry's label: its name, with where it is defined when another entry
/// has the same name or the name is one of the menu's own choices, then its
/// description.
pub open spec fn spec_entry_label(entries: Seq<ProjectEntry>, i: int) -> Seq<char> {
    let e = entries[i];
    let base = if name_shared(entries, i) || e.name@ == back_choice() || e.name@ == exit_choice() {
        e.name@ + match e.source {
            EntrySource::Catalog => " [shared]"@,
            EntrySource::Personal => " [personal]"@,
        }
    } else {
        e.name@
    };
    match e.description {
        Some(d) => base + " - "@ + d@,
        None => base,
    }
}

pub open spec fn spec_entry_labels(entries: Seq<ProjectEntry>) -> Seq<Seq<char>> {
    Seq::new(entries.len(), |i: int| spec_entry_label(entries, i))
}

fn has_name_twin(entries: &Vec<ProjectEntry>, i: usize) -> (r: bool)
    requires
        i < entries.len(),
    ensures
        r == name_shared(entries@, i as int),
{
    let mut j: usize = 0;
    while j < entries.len()
        invariant
            i < entries.len(),
            j <= entries.len(),
            forall|k: int| 0 <= k < j && k != i ==> (#[trigger] entries@[k]).name@ != entries@[i as int].name@,
        decreases entries.len() - j,
    {
        if j != i && str_eq(entries[j].name.as_str(), entries[i].name.as_str()) {
            return true;
        }
        j = j + 1;
    }
    false
}

/// The labels of a project's entries, in order.
pub fn entry_labels(entries: &Vec<ProjectEntry>) -> (r: Vec<String>)
    ensures
        views(r@) == spec_entry_labels(entries@),
{
    let mut r: Vec<String> = Vec::new();
    let mut i: usize = 0;
    while i < entries.len()
        invariant
            i <= entries.len(),
            r@.len() == i,
            forall|k: int| 0 <= k < i ==> (#[trigger] r@[k])@ == spec_entry_label(entries@, k),
        decreases entries.len() - i,
    {
        let e = &entries[i];
        let base = if has_name_twin(entries, i) || str_eq(e.name.as_str(), "../ Back") || str_eq(
            e.name.as_str(),
            "Exit",
        ) {
            match e.source {
                EntrySource::Catalog => cat2(e.name.as_str(), " [shared]"),
                EntrySource::Personal => cat2(e.name.as_str(), " [personal]"),
            }
        } else {
            e.name.clone()
        };
        let label = match &e.description {
            Some(d) => cat3(base.as_str(), " - ", d.as_str()),
            None => base,
        };
        r.push(label);
        i = i + 1;
    }
    assert(views(r@) =~= spec_entry_labels(entries@));
    r
}

/// `labels[i]` is the first label equal to `s`.
pub open spec fn first_match(labels: Seq<Seq<char>>, s: Seq<char>, i: int) -> bool {
    &&& 0 <= i < labels.len()
    &&& labels[i] == s
    &&& forall|j: int| 0 <= j < i ==> labels[j] != s
}

/// What the project menu does with a selection.
#[derive(Debug, Clone, Copy, PartialEq, Eq)]
pub enum ProjectAction {
    Project(usize),
    Browse,
    Exit,
    Cancelled,
}

/// Whether `r` is what the project menu makes of `selection` among projects
/// labelled `labels`: its own choices first, then the first project so labelled.
pub open spec fn spec_project_action(
    labels: Seq<Seq<char>>,
    selection: Option<Seq<char>>,
    r: Result<ProjectAction, OperationError>,
) -> bool {
    match selection {
        None => r == Ok::<ProjectAction, OperationError>(ProjectAction::Cancelled),
        Some(s) => if s == browse_tools_choice() {
            r == Ok::<ProjectAction, OperationError>(ProjectAction::Browse)
        } else if s == exit_choice() {
            r == Ok::<ProjectAction, OperationError>(ProjectAction::Exit)
        } else if exists|i: int| first_match(labels, s, i) {
            r matches Ok(ProjectAction::Project(i)) && first_match(labels, s, i as int)
        } else {
            r matches Err(e) && is_message(e, "invalid project selection"@)
        },
    }
}

/// The project menu's reading of a selection.
pub fn project_action(labels: &Vec<String>, selection: Option<String>) -> (r: Result<ProjectAction, OperationError>)
    ensures
        spec_project_action(views(labels@), crate::cli::scan::opt_view(selection), r),
{
    let s = match selection {
        None => return Ok(ProjectAction::Cancelled),
        Some(s) => s,
    };
    if str_eq(s.as_str(), "Browse installed tools...") {
        return Ok(ProjectAction::Browse);
    }
    if str_eq(s.as_str(), "Exit") {
        return Ok(ProjectAction::Exit);
    }
    match crate::output::choice_index(labels, s.as_str()) {
        Some(i) => {
            assert(first_match(views(labels@), s@, i as int));
            Ok(ProjectAction::Project(i))
        },
        None => {
            assert forall|i: int| !first_match(views(labels@), s@, i) by {
                if 0 <= i < labels@.len() {
                    assert(views(labels@)[i] == labels@[i]@);
                }
            }
            Err(OperationError::message("invalid project selection".to_string()))
        },
    }
}

fn with_two(labels: &Vec<String>, a: &str, b: &str) -> (r: Vec<String>)
    ensures
        views(r@) == views(labels@) + seq![a@, b@],
{
    let mut r: Vec<String> = Vec::new();
    let mut i: usize = 0;
    while i < labels.len()
        invariant
            i <= labels.len(),
            views(r@) == views(labels@).subrange(0, i as int),
        decreases labels.len() - i,
    {
        let item = labels[i].clone();
        proof {
            crate::git::lemma_views_push(r@, item);
        }
        r.push(item);
        assert(views(labels@).subrange(0, i + 1) =~= views(labels@).subrange(0, i as int).push(labels@[i as int]@));
        i = i + 1;
    }
    assert(views(labels@).subrange(0, labels.len() as int) =~= views(labels@));
    let first = a.to_string();
    proof {
        crate::git::lemma_views_push(r@, first);
    }
    r.push(first);
    let second = b.to_string();
    proof {
        crate::git::lemma_views_push(r@, second);
    }
    r.push(second);
    assert(views(r@) =~= views(labels@) + seq![a@, b@]);
    r
}

/// The project menu's choices: the projects' labels, then browsing and leaving.
pub fn project_menu_choices(labels: &Vec<String>) -> (r: Vec<String>)
    ensures
        views(r@) == views(labels@) + seq![browse_tools_choice(), exit_choice()],
{
    with_two(labels, "Browse installed tools...", "Exit")
}

/// Ask which project to open.
pub fn select_project_action<P: Prompt>(prompt: &mut Asked<P>, projects: &Vec<Project>) -> (r: Result<
    ProjectAction,
    OperationError,
>)
    ensures
        final(prompt).exchanges() == old(prompt).exchanges().push(
            Exchange::Select {
                label: "Select project:"@,
                choices: spec_project_labels(projects@) + seq![browse_tools_choice(), exit_choice()],
                answer: select_answer(final(prompt).exchanges()),
            },
        ),
        match select_answer(final(prompt).exchanges()) {
            Err(e) => r == Err::<ProjectAction, OperationError>(e),
            Ok(selection) => spec_project_action(spec_project_labels(projects@), selection, r),
        },
{
    let labels = project_labels(projects);
    let choices = project_menu_choices(&labels);
    let selection = match prompt.select("Select project:", choices.as_slice()) {
        Ok(s) => s,
        Err(e) => return Err(e),
    };
    project_action(&labels, selection)
}

/// What a project's menu does with a selection.
#[derive(Debug, Clone, Copy, PartialEq, Eq)]
pub enum EntryAction {
    Entry(usize),
    Back,
    Exit,
    Cancelled,
}

/// Whether `r` is what a project's menu makes of `selection` among entries
/// labelled `labels`: its own choices first, then the first entry so labelled.
pub open spec fn spec_entry_action(
    labels: Seq<Seq<char>>,
    selection: Option<Seq<char>>,
    r: Result<EntryAction, OperationError>,
) -> bool {
    match selection {
        None => r == Ok::<EntryAction, OperationError>(EntryAction::Cancelled),
        Some(s) => if s == back_choice() {
            r == Ok::<EntryAction, OperationError>(EntryAction::Back)
        } else if s == exit_choice() {
            r == Ok::<EntryAction, OperationError>(EntryAction::Exit)
        } else if exists|i: int| first_match(labels, s, i) {
            r matches Ok(EntryAction::Entry(i)) && first_match(labels, s, i as int)
        } else {
            r matches Err(e) && is_message(e, "invalid project command selection"@)
        },
    }
}

/// A project menu's reading of a selection.
pub fn entry_action(labels: &Vec<String>, selection: Option<String>) -> (r: Result<EntryAction, OperationError>)
    ensures
        spec_entry_action(views(labels@), crate::cli::scan::opt_view(selection), r),
{
    let s = match selection {
        None => return Ok(EntryAction::Cancelled),
        Some(s) => s,
    };
    if str_eq(s.as_str(), "../ Back") {
        return Ok(EntryAction::Back);
    }
    if str_eq(s.as_str(), "Exit") {
        return Ok(EntryAction::Exit);
    }
    match crate::output::choice_index(labels, s.as_str()) {
        Some(i) => {
            assert(first_match(views(labels@), s@, i as int));
            Ok(EntryAction::Entry(i))
        },
        None => {
            assert forall|i: int| !first_match(views(labels@), s@, i) by {
                if 0 <= i < labels@.len() {
                    assert(views(labels@)[i] == labels@[i]@);
                }
            }
            Err(OperationError::message("invalid project command selection".to_string()))
        },
    }
}

/// A project menu's choices: its entries' labels, then going back and leaving.
pub fn project_entry_choices(labels: &Vec<String>) -> (r: Vec<String>)
    ensures
        views(r@) == views(labels@) + seq![back_choice(), exit_choice()],
{
    with_two(labels, "../ Back", "Exit")
}

/// Ask which of a project's entries to run; `project_label` names the project.
pub fn select_project_entry<P: Prompt>(prompt: &mut Asked<P>, project_label: &str, project: &Project) -> (r: Result<
    EntryAction,
    OperationError,
>)
    ensures
        final(prompt).exchanges() == old(prompt).exchanges().push(
            Exchange::Select {
                label: "Run from "@ + project_label@ + ":"@,
                choices: spec_entry_labels(project.entries@) + seq![back_choice(), exit_choice()],
                answer: select_answer(final(prompt).exchanges()),
            },
        ),
        match select_answer(final(prompt).exchanges()) {
            Err(e) => r == Err::<EntryAction, OperationError>(e),
            Ok(selection) => spec_entry_action(spec_entry_labels(project.entries@), selection, r),
        },
{
    let labels = entry_labels(&project.entries);
    let choices = project_entry_choices(&labels);
    let title = cat3("Run from ", project_label, ":");
    let selection = match prompt.select(title.as_str(), choices.as_slice()) {
        Ok(s) => s,
        Err(e) => return Err(e),
    };
    entry_action(&labels, selection)
}

/// No character of a valid name is a space.
proof fn lemma_valid_name_has_no_space(name: Seq<char>)
    requires
        crate::paths::spec_valid_name(name),
    ensures
        forall|k: int| 0 <= k < name.len() ==> name[k] != ' ',
{
    reveal_strlit("_-.");
    assert forall|k: int| 0 <= k < name.len() implies name[k] != ' ' by {
        assert(crate::text::spec_is_ascii_alphanumeric(name[k]) || "_-."@.contains(name[k]));
        if name[k] == ' ' {
            assert(!"_-."@.contains(' ')) by {
                assert("_-."@ =~= seq!['_', '-', '.']);
            }
        }
    }
}

/// A word without spaces, then a space and more, is told apart from any
/// other such text by its word and its remainder.
proof fn lemma_split_at_space(a: Seq<char>, x: Seq<char>, b: Seq<char>, y: Seq<char>)
    requires
        forall|k: int| 0 <= k < a.len() ==> a[k] != ' ',
        forall|k: int| 0 <= k < b.len() ==> b[k] != ' ',
        x.len() > 0 && x[0] == ' ',
        y.len() > 0 && y[0] == ' ',
        a + x == b + y,
    ensures
        a == b,
        x == y,
{
    if a.len() < b.len() {
        assert((a + x)[a.len() as int] == ' ');
        assert((b + y)[a.len() as int] == b[a.len() as int]);
    } else if b.len() < a.len() {
        assert((b + y)[b.len() as int] == ' ');
        assert((a + x)[b.len() as int] == a[b.len() as int]);
    }
    assert(a =~= (a + x).subrange(0, a.len() as int));
    assert(b =~= (b + y).subrange(0, b.len() as int));
    assert(x =~= (a + x).subrange(a.len() as int, (a + x).len() as int));
    assert(y =~= (b + y).subrange(b.len() as int, (b + y).len() as int));
}

/// A word without spaces differs from any word followed by a space and more.
proof fn lemma_word_differs_from_spaced(a: Seq<char>, b: Seq<char>, y: Seq<char>)
    requires
        forall|k: int| 0 <= k < a.len() ==> a[k] != ' ',
        y.len() > 0 && y[0] == ' ',
    ensures
        a != b + y,
{
    if a == b + y {
        assert((b + y)[b.len() as int] == ' ');
        assert(a[b.len() as int] == ' ');
    }
}

/// What follows the tool in a qualified project label.
pub open spec fn catalog_suffix(catalog: Seq<char>) -> Seq<char> {
    " ("@ + catalog + ")"@
}

proof fn lemma_catalog_suffix(c: Seq<char>, d: Seq<char>)
    ensures
        catalog_suffix(c).len() > 0 && catalog_suffix(c)[0] == ' ',
        catalog_suffix(c) == catalog_suffix(d) ==> c == d,
{
    reveal_strlit(" (");
    reveal_strlit(")");
    let s = catalog_suffix(c);
    assert(s[0] == " ("@[0]);
    if catalog_suffix(c) == catalog_suffix(d) {
        assert(c =~= s.subrange(2, s.len() - 1));
        assert(d =~= catalog_suffix(d).subrange(2, catalog_suffix(d).len() - 1));
    }
}

/// The project menu tells projects apart: when tools have valid names and no
/// tool of a catalog comes twice, no two projects share a label, and no label
/// is one of the menu's own choices.
pub proof fn lemma_project_labels_distinct(projects: Seq<Project>)
    requires
        forall|i: int| 0 <= i < projects.len() ==> crate::paths::spec_valid_name(#[trigger] projects[i].tool@),
        forall|i: int, j: int|
            #![trigger projects[i], projects[j]]
            0 <= i < j < projects.len() ==> projects[i].tool@ != projects[j].tool@ || projects[i].catalog@
                != projects[j].catalog@,
    ensures
        forall|i: int, j: int|
            0 <= i < j < projects.len() ==> #[trigger] spec_project_labels(projects)[i] != #[trigger] spec_project_labels(
                projects,
            )[j],
        forall|i: int|
            0 <= i < projects.len() ==> #[trigger] spec_project_labels(projects)[i] != browse_tools_choice()
                && spec_project_labels(projects)[i] != exit_choice(),
{
    reveal_strlit("Browse installed tools...");
    reveal_strlit("Exit");
    reveal_strlit(")");
    let labels = spec_project_labels(projects);
    assert forall|i: int| 0 <= i < projects.len() implies #[trigger] labels[i] != browse_tools_choice() && labels[i]
        != exit_choice() by {
        let p = projects[i];
        if labels[i] != p.tool@ {
            let l = labels[i];
            assert(l =~= p.tool@ + catalog_suffix(p.catalog@));
            assert(l[l.len() - 1] == ')');
            assert(browse_tools_choice()[browse_tools_choice().len() - 1] == '.');
            assert(exit_choice()[exit_choice().len() - 1] == 't');
        }
    }
    assert forall|i: int, j: int| 0 <= i < j < projects.len() implies #[trigger] labels[i] != #[trigger] labels[j] by {
        let p = projects[i];
        let q = projects[j];
        lemma_valid_name_has_no_space(p.tool@);
        lemma_valid_name_has_no_space(q.tool@);
        lemma_catalog_suffix(p.catalog@, q.catalog@);
        lemma_catalog_suffix(q.catalog@, p.catalog@);
        let qp = tool_shared(projects, i) || p.tool@ == browse_tools_choice() || p.tool@ == exit_choice();
        let qq = tool_shared(projects, j) || q.tool@ == browse_tools_choice() || q.tool@ == exit_choice();
        if qp {
            assert(labels[i] =~= p.tool@ + catalog_suffix(p.catalog@));
        }
        if qq {
            assert(labels[j] =~= q.tool@ + catalog_suffix(q.catalog@));
        }
        if qp && qq {
            if labels[i] == labels[j] {
                lemma_split_at_space(p.tool@, catalog_suffix(p.catalog@), q.tool@, catalog_suffix(q.catalog@));
            }
        } else if qp {
            lemma_word_differs_from_spaced(q.tool@, p.tool@, catalog_suffix(p.catalog@));
        } else if qq {
            lemma_word_differs_from_spaced(p.tool@, q.tool@, catalog_suffix(q.catalog@));
        } else {
            if p.tool@ == q.tool@ {
                assert(projects[j].tool@ == projects[i].tool@);
                assert(tool_shared(projects, i));
            }
        }
    }
}

/// What follows a qualified entry's name: where it is defined.
pub open spec fn source_suffix(source: EntrySource) -> Seq<char> {
    match source {
        EntrySource::Catalog => " [shared]"@,
        EntrySource::Personal => " [personal]"@,
    }
}

/// What follows an entry's name in its label.
pub open spec fn entry_tail(entries: Seq<ProjectEntry>, i: int) -> Seq<char> {
    let e = entries[i];
    let qualified = if name_shared(entries, i) || e.name@ == back_choice() || e.name@ == exit_choice() {
        source_suffix(e.source)
    } else {
        Seq::empty()
    };
    match e.description {
        Some(d) => qualified + " - "@ + d@,
        None => qualified,
    }
}

proof fn lemma_entry_label_shape(entries: Seq<ProjectEntry>, i: int)
    requires
        0 <= i < entries.len(),
    ensures
        spec_entry_label(entries, i) == entries[i].name@ + entry_tail(entries, i),
        entry_tail(entries, i).len() > 0 ==> entry_tail(entries, i)[0] == ' ',
        entry_tail(entries, i).len() == 0 ==> !(name_shared(entries, i) || entries[i].name@ == back_choice()
            || entries[i].name@ == exit_choice()),
        name_shared(entries, i) ==> entry_tail(entries, i).len() > 2 && entry_tail(entries, i)[2] == match entries[i].source {
            EntrySource::Catalog => 's',
            EntrySource::Personal => 'p',
        },
{
    reveal_strlit(" [shared]");
    reveal_strlit(" [personal]");
    reveal_strlit(" - ");
    let e = entries[i];
    let q = if name_shared(entries, i) || e.name@ == back_choice() || e.name@ == exit_choice() {
        source_suffix(e.source)
    } else {
        Seq::empty()
    };
    let t = entry_tail(entries, i);
    match e.description {
        Some(d) => {
            assert(t =~= q + (" - "@ + d@));
            assert(spec_entry_label(entries, i) =~= e.name@ + t);
            if q.len() > 0 {
                assert(t[0] == q[0]);
                assert(t[2] == q[2]);
            } else {
                assert(t[0] == " - "@[0]);
            }
        },
        None => {
            assert(spec_entry_label(entries, i) =~= e.name@ + t);
        },
    }
}

/// A project's menu tells its entries apart: when names are valid and no name
/// comes twice from the same place, no two entries share a label, and no label
/// is one of the menu's own choices.
pub proof fn lemma_entry_labels_distinct(entries: Seq<ProjectEntry>)
    requires
        forall|i: int| 0 <= i < entries.len() ==> crate::paths::spec_valid_name(#[trigger] entries[i].name@),
        forall|i: int, j: int|
            #![trigger entries[i], entries[j]]
            0 <= i < j < entries.len() ==> entries[i].name@ != entries[j].name@ || entries[i].source
                != entries[j].source,
    ensures
        forall|i: int, j: int|
            0 <= i < j < entries.len() ==> #[trigger] spec_entry_labels(entries)[i] != #[trigger] spec_entry_labels(
                entries,
            )[j],
        forall|i: int|
            0 <= i < entries.len() ==> #[trigger] spec_entry_labels(entries)[i] != back_choice()
                && spec_entry_labels(entries)[i] != exit_choice(),
{
    reveal_strlit("../ Back");
    reveal_strlit("Exit");
    reveal_strlit("../");
    reveal_strlit(" Back");
    reveal_strlit("_-.");
    let labels = spec_entry_labels(entries);
    assert forall|i: int| 0 <= i < entries.len() implies #[trigger] labels[i] != back_choice() && labels[i]
        != exit_choice() by {
        let name = entries[i].name@;
        let t = entry_tail(entries, i);
        lemma_entry_label_shape(entries, i);
        lemma_valid_name_has_no_space(name);
        if t.len() > 0 {
            let exit = exit_choice();
            assert(forall|k: int| 0 <= k < exit.len() ==> exit[k] != ' ');
            lemma_word_differs_from_spaced(exit, name, t);
            if labels[i] == back_choice() {
                let up = "../"@;
                assert(back_choice() =~= up + " Back"@);
                assert(forall|k: int| 0 <= k < up.len() ==> up[k] != ' ');
                lemma_split_at_space(name, t, up, " Back"@);
                assert(crate::text::spec_is_ascii_alphanumeric(name[1]) || "_-."@.contains(name[1]));
                assert(!"_-."@.contains('/')) by {
                    assert("_-."@ =~= seq!['_', '-', '.']);
                }
            }
        } else {
            assert(labels[i] =~= name);
        }
    }
    assert forall|i: int, j: int| 0 <= i < j < entries.len() implies #[trigger] labels[i] != #[trigger] labels[j] by {
        let a = entries[i].name@;
        let b = entries[j].name@;
        let ta = entry_tail(entries, i);
        let tb = entry_tail(entries, j);
        lemma_entry_label_shape(entries, i);
        lemma_entry_label_shape(entries, j);
        lemma_valid_name_has_no_space(a);
        lemma_valid_name_has_no_space(b);
        if ta.len() > 0 && tb.len() > 0 {
            if labels[i] == labels[j] {
                lemma_split_at_space(a, ta, b, tb);
                assert(entries[j].name@ == entries[i].name@);
                assert(name_shared(entries, i));
                assert(name_shared(entries, j));
            }
        } else if ta.len() > 0 {
            assert(labels[j] =~= b);
            lemma_word_differs_from_spaced(b, a, ta);
        } else if tb.len() > 0 {
            assert(labels[i] =~= a);
            lemma_word_differs_from_spaced(a, b, tb);
        } else {
            assert(labels[i] =~= a);
            assert(labels[j] =~= b);
            if a == b {
                assert(entries[j].name@ == entries[i].name@);
                assert(name_shared(entries, i));
            }
        }
    }
}

/// Choosing a project's label in the project menu opens that project, when
/// the labels tell the projects apart as `lemma_project_labels_distinct` shows.
pub proof fn lemma_choosing_a_project_opens_it(projects: Seq<Project>, i: int, r: Result<ProjectAction, OperationError>)
    requires
        forall|k: int| 0 <= k < projects.len() ==> crate::paths::spec_valid_name(#[trigger] projects[k].tool@),
        forall|k: int, l: int|
            #![trigger projects[k], projects[l]]
            0 <= k < l < projects.len() ==> projects[k].tool@ != projects[l].tool@ || projects[k].catalog@
                != projects[l].catalog@,
        0 <= i < projects.len(),
        spec_project_action(spec_project_labels(projects), Some(spec_project_labels(projects)[i]), r),
    ensures
        r == Ok::<ProjectAction, OperationError>(ProjectAction::Project(i as usize)),
{
    lemma_project_labels_distinct(projects);
    let labels = spec_project_labels(projects);
    assert(labels[i] != browse_tools_choice() && labels[i] != exit_choice());
    assert(first_match(labels, labels[i], i)) by {
        assert forall|j: int| 0 <= j < i implies labels[j] != labels[i] by {
            assert(labels[j] != labels[i]);
        }
    }
    let k = r->Ok_0->Project_0 as int;
    if k != i {
        assert(first_match(labels, labels[i], k));
        if k < i {
            assert(labels[k] != labels[i]);
        }
    }
}

/// Choosing an entry's label in a project's menu runs that entry, when the
/// labels tell the entries apart as `lemma_entry_labels_distinct` shows.
pub proof fn lemma_choosing_an_entry_runs_it(entries: Seq<ProjectEntry>, i: int, r: Result<EntryAction, OperationError>)
    requires
        forall|k: int| 0 <= k < entries.len() ==> crate::paths::spec_valid_name(#[trigger] entries[k].name@),
        forall|k: int, l: int|
            #![trigger entries[k], entries[l]]
            0 <= k < l < entries.len() ==> entries[k].name@ != entries[l].name@ || entries[k].source
                != entries[l].source,
        0 <= i < entries.len(),
        spec_entry_action(spec_entry_labels(entries), Some(spec_entry_labels(entries)[i]), r),
    ensures
        r == Ok::<EntryAction, OperationError>(EntryAction::Entry(i as usize)),
{
    lemma_entry_labels_distinct(entries);
    let labels = spec_entry_labels(entries);
    assert(labels[i] != back_choice() && labels[i] != exit_choice());
    assert(first_match(labels, labels[i], i)) by {
        assert forall|j: int| 0 <= j < i implies labels[j] != labels[i] by {
            assert(labels[j] != labels[i]);
        }
    }
    let k = r->Ok_0->Entry_0 as int;
    if k != i {
        assert(first_match(labels, labels[i], k));
        if k < i {
            assert(labels[k] != labels[i]);
        }
    }
}

} // verus!
