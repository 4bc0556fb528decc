//! The command-line grammar of the `loadbot` program: the desktop and setup
//! commands, the tool lifecycle, and the shortcut and catalog menus.
use vstd::prelude::*;

pub use super::{CatalogCommands, RotCommands};

use super::scan::{
    self, all_strings, is_help, is_option_like, is_word, item_of, looks_like_option, opt_view, positionals,
    skip, spec_positionals, spec_scan, spec_tool_target, tool_target, ParseError, ParseErrorView,
};
use super::{parse_catalog, spec_add, spec_catalog, CatalogCommandsView};
use crate::git::views;

verus! {

/// A parsed command line.
#[derive(Debug, PartialEq, Eq)]
pub struct Cli {
    pub command: Option<Commands>,
}

#[derive(Debug, PartialEq, Eq)]
pub enum Commands {
    /// Launch the installed desktop GUI.
    Gui {
        /// Launch the source development environment with hot reload.
        dev: bool,
    },
    /// Install, configure, or repair Loadbot from a source checkout.
    Setup(SetupArgs),
    /// Add a tool definition to a writable catalog.
    Add {
        name: Option<String>,
        git_url: Option<String>,
        revision: Option<String>,
        catalog: Option<String>,
        commit: bool,
        push: bool,
    },
    /// Clone a registered repository.
    Pull { name: Option<String>, catalog: Option<String> },
    /// Fast-forward an installed repository.
    Update { name: Option<String>, catalog: Option<String> },
    /// Push local commits to the configured remote for an installed tool.
    Push { name: Option<String>, catalog: Option<String> },
    /// Remove a managed local checkout while retaining its catalog entry.
    Remove { name: Option<String>, catalog: Option<String> },
    /// Replace a managed local checkout with a fresh clone.
    Reinstall { name: Option<String>, catalog: Option<String> },
    /// List configured tools.
    List,
    /// Print the absolute path assigned to a tool.
    Path { name: Option<String>, catalog: Option<String> },
    /// Show local repository status.
    Status { name: Option<String>, catalog: Option<String> },
    /// Launch an installed file or saved shortcut.
    Run { shortcut: Option<String> },
    /// Manage saved shortcuts.
    Shortcut { command: Option<ShortcutCommands> },
    /// Manage Git-backed tool catalogs.
    Catalog { command: Option<CatalogCommands> },
    /// Shell completion through Rot; not listed in help.
    Rot { command: RotCommands },
}

/// Which components setup installs; at most one may be chosen.
#[derive(Debug, Clone, Copy, PartialEq, Eq)]
pub struct SetupArgs {
    /// Install only the CLI and shell integration.
    pub cli: bool,
    /// Install the GUI launcher and desktop application without shell completion.
    pub gui: bool,
    /// Install the CLI, shell integration, and GUI.
    pub all: bool,
    /// Verify and conservatively restore the previously selected components.
    pub repair: bool,
}

#[derive(Debug, PartialEq, Eq)]
pub enum ShortcutCommands {
    /// Save an installed file as a shortcut without running it.
    Add,
    /// List saved shortcut definitions.
    List,
    /// Remove a saved shortcut definition; `--yes` needs a name.
    Remove { name: Option<String>, yes: bool },
}

pub enum ShortcutCommandsView {
    Add,
    List,
    Remove { name: Option<Seq<char>>, yes: bool },
}

pub enum CommandsView {
    Gui { dev: bool },
    Setup(SetupArgs),
    Add {
        name: Option<Seq<char>>,
        git_url: Option<Seq<char>>,
        revision: Option<Seq<char>>,
        catalog: Option<Seq<char>>,
        commit: bool,
        push: bool,
    },
    Pull { name: Option<Seq<char>>, catalog: Option<Seq<char>> },
    Update { name: Option<Seq<char>>, catalog: Option<Seq<char>> },
    Push { name: Option<Seq<char>>, catalog: Option<Seq<char>> },
    Remove { name: Option<Seq<char>>, catalog: Option<Seq<char>> },
    Reinstall { name: Option<Seq<char>>, catalog: Option<Seq<char>> },
    List,
    Path { name: Option<Seq<char>>, catalog: Option<Seq<char>> },
    Status { name: Option<Seq<char>>, catalog: Option<Seq<char>> },
    Run { shortcut: Option<Seq<char>> },
    Shortcut { command: Option<ShortcutCommandsView> },
    Catalog { command: Option<CatalogCommandsView> },
    RotComplete { words: Seq<Seq<char>> },
}

impl View for ShortcutCommands {
    type V = ShortcutCommandsView;

    open spec fn view(&self) -> ShortcutCommandsView {
        match self {
            ShortcutCommands::Add => ShortcutCommandsView::Add,
            ShortcutCommands::List => ShortcutCommandsView::List,
            ShortcutCommands::Remove { name, yes } => ShortcutCommandsView::Remove { name: opt_view(*name), yes: *yes },
        }
    }
}

impl View for Commands {
    type V = CommandsView;

    open spec fn view(&self) -> CommandsView {
        match self {
            Commands::Gui { dev } => CommandsView::Gui { dev: *dev },
            Commands::Setup(a) => CommandsView::Setup(*a),
            Commands::Add { name, git_url, revision, catalog, commit, push } => CommandsView::Add {
                name: opt_view(*name),
                git_url: opt_view(*git_url),
                revision: opt_view(*revision),
                catalog: opt_view(*catalog),
                commit: *commit,
                push: *push,
            },
            Commands::Pull { name, catalog } => CommandsView::Pull { name: opt_view(*name), catalog: opt_view(*catalog) },
            Commands::Update { name, catalog } => CommandsView::Update {
                name: opt_view(*name),
                catalog: opt_view(*catalog),
            },
            Commands::Push { name, catalog } => CommandsView::Push { name: opt_view(*name), catalog: opt_view(*catalog) },
            Commands::Remove { name, catalog } => CommandsView::Remove {
                name: opt_view(*name),
                catalog: opt_view(*catalog),
            },
            Commands::Reinstall { name, catalog } => CommandsView::Reinstall {
                name: opt_view(*name),
                catalog: opt_view(*catalog),
            },
            Commands::List => CommandsView::List,
            Commands::Path { name, catalog } => CommandsView::Path { name: opt_view(*name), catalog: opt_view(*catalog) },
            Commands::Status { name, catalog } => CommandsView::Status {
                name: opt_view(*name),
                catalog: opt_view(*catalog),
            },
            Commands::Run { shortcut } => CommandsView::Run { shortcut: opt_view(*shortcut) },
            Commands::Shortcut { command } => CommandsView::Shortcut {
                command: match command {
                    Some(c) => Some(c@),
                    None => None,
                },
            },
            Commands::Catalog { command } => CommandsView::Catalog {
                command: match command {
                    Some(c) => Some(c@),
                    None => None,
                },
            },
            Commands::Rot { command: RotCommands::Complete { words } } => CommandsView::RotComplete { words: views(words@) },
        }
    }
}

/// A parse result as plain values.
pub open spec fn cli_result_view(r: Result<Cli, ParseError>) -> Result<Option<CommandsView>, ParseErrorView> {
    match r {
        Ok(cli) => Ok(
            match cli.command {
                Some(c) => Some(c@),
                None => None,
            },
        ),
        Err(e) => Err(e@),
    }
}

/// The first flag set at or after `from`.
pub open spec fn next_set(flags: Seq<bool>, from: int) -> Option<int>
    decreases flags.len() - from,
{
    if from < 0 || from >= flags.len() {
        None
    } else if flags[from] {
        Some(from)
    } else {
        next_set(flags, from + 1)
    }
}

/// The setup flags, of which at most one is given: the first two given conflict.
pub open spec fn spec_setup(tokens: Seq<Seq<char>>) -> Result<SetupArgs, ParseErrorView> {
    let names = seq!["cli"@, "gui"@, "all"@, "repair"@];
    match spec_scan(seq![], names, 0, tokens) {
        Err(e) => Err(e),
        Ok(s) => match next_set(s.flags, 0) {
            Some(i) => match next_set(s.flags, i + 1) {
                Some(j) => Err(ParseErrorView::Conflict { first: "--"@ + names[i], second: "--"@ + names[j] }),
                None => Ok(SetupArgs { cli: s.flags[0], gui: s.flags[1], all: s.flags[2], repair: s.flags[3] }),
            },
            None => Ok(SetupArgs { cli: s.flags[0], gui: s.flags[1], all: s.flags[2], repair: s.flags[3] }),
        },
    }
}

fn next_set_exec(flags: &Vec<bool>, from: usize) -> (r: Option<usize>)
    ensures
        match r {
            Some(i) => next_set(flags@, from as int) == Some(i as int) && i < flags@.len(),
            None => next_set(flags@, from as int) is None,
        },
    decreases flags.len() - from,
{
    if from >= flags.len() {
        None
    } else if flags[from] {
        Some(from)
    } else {
        next_set_exec(flags, from + 1)
    }
}

/// The shortcut subcommands; with none, the shortcut menu is asked for.
pub open spec fn spec_shortcut(tokens: Seq<Seq<char>>) -> Result<Option<ShortcutCommandsView>, ParseErrorView> {
    if tokens.len() == 0 {
        Ok(None)
    } else {
        let word = tokens[0];
        let rest = tokens.drop_first();
        if word == "help"@ || word == "--help"@ || word == "-h"@ {
            Err(ParseErrorView::Help)
        } else if looks_like_option(word) {
            Err(ParseErrorView::UnknownArgument(word))
        } else if word == "add"@ {
            match spec_positionals(rest, 0) {
                Err(e) => Err(e),
                Ok(_) => Ok(Some(ShortcutCommandsView::Add)),
            }
        } else if word == "list"@ {
            match spec_positionals(rest, 0) {
                Err(e) => Err(e),
                Ok(_) => Ok(Some(ShortcutCommandsView::List)),
            }
        } else if word == "remove"@ {
            match spec_scan(seq![], seq!["yes"@], 1, rest) {
                Err(e) => Err(e),
                Ok(s) => if s.flags[0] && s.positionals.len() == 0 {
                    Err(ParseErrorView::MissingRequired("<NAME>"@))
                } else {
                    Ok(Some(ShortcutCommandsView::Remove { name: scan::spec_item(s, 0), yes: s.flags[0] }))
                },
            }
        } else {
            Err(ParseErrorView::UnknownSubcommand(word))
        }
    }
}

/// A command that names a tool.
pub open spec fn is_tool_command(word: Seq<char>) -> bool {
    ||| word == "pull"@
    ||| word == "update"@
    ||| word == "push"@
    ||| word == "remove"@
    ||| word == "reinstall"@
    ||| word == "path"@
    ||| word == "status"@
}

pub open spec fn tool_command(word: Seq<char>, name: Option<Seq<char>>, catalog: Option<Seq<char>>) -> CommandsView {
    if word == "pull"@ {
        CommandsView::Pull { name, catalog }
    } else if word == "update"@ {
        CommandsView::Update { name, catalog }
    } else if word == "push"@ {
        CommandsView::Push { name, catalog }
    } else if word == "remove"@ {
        CommandsView::Remove { name, catalog }
    } else if word == "reinstall"@ {
        CommandsView::Reinstall { name, catalog }
    } else if word == "path"@ {
        CommandsView::Path { name, catalog }
    } else {
        CommandsView::Status { name, catalog }
    }
}

/// The grammar: no subcommand, or one subcommand with its arguments.
pub open spec fn spec_parse_tokens(tokens: Seq<Seq<char>>) -> Result<Option<CommandsView>, ParseErrorView> {
    if tokens.len() == 0 {
        Ok(None)
    } else {
        let word = tokens[0];
        let rest = tokens.drop_first();
        if word == "help"@ || word == "--help"@ || word == "-h"@ {
            Err(ParseErrorView::Help)
        } else if word == "--version"@ || word == "-V"@ {
            Err(ParseErrorView::Version)
        } else if looks_like_option(word) {
            Err(ParseErrorView::UnknownArgument(word))
        } else if word == "gui"@ {
            match spec_scan(seq![], seq!["dev"@], 0, rest) {
                Err(e) => Err(e),
                Ok(s) => Ok(Some(CommandsView::Gui { dev: s.flags[0] })),
            }
        } else if word == "setup"@ {
            match spec_setup(rest) {
                Err(e) => Err(e),
                Ok(a) => Ok(Some(CommandsView::Setup(a))),
            }
        } else if word == "add"@ {
            match spec_add(rest) {
                Err(e) => Err(e),
                Ok(super::CommandsView::Add { name, git_url, revision, catalog, commit, push }) => Ok(
                    Some(CommandsView::Add { name, git_url, revision, catalog, commit, push }),
                ),
                Ok(_) => Err(ParseErrorView::UnknownSubcommand(word)),
            }
        } else if is_tool_command(word) {
            match spec_tool_target(rest) {
                Err(e) => Err(e),
                Ok((name, catalog)) => Ok(Some(tool_command(word, name, catalog))),
            }
        } else if word == "list"@ {
            match spec_positionals(rest, 0) {
                Err(e) => Err(e),
                Ok(_) => Ok(Some(CommandsView::List)),
            }
        } else if word == "run"@ {
            match spec_positionals(rest, 1) {
                Err(e) => Err(e),
                Ok(p) => Ok(Some(CommandsView::Run { shortcut: if p.len() > 0 { Some(p[0]) } else { None } })),
            }
        } else if word == "shortcut"@ {
            match spec_shortcut(rest) {
                Err(e) => Err(e),
                Ok(c) => Ok(Some(CommandsView::Shortcut { command: c })),
            }
        } else if word == "catalog"@ {
            match spec_catalog(rest) {
                Err(e) => Err(e),
                Ok(c) => Ok(Some(CommandsView::Catalog { command: c })),
            }
        } else if word == "rot"@ {
            if rest.len() > 0 && rest[0] == "complete"@ {
                Ok(Some(CommandsView::RotComplete { words: rest.drop_first() }))
            } else if rest.len() == 0 {
                Err(ParseErrorView::MissingSubcommand)
            } else if rest[0] == "help"@ || rest[0] == "--help"@ || rest[0] == "-h"@ {
                Err(ParseErrorView::Help)
            } else if looks_like_option(rest[0]) {
                Err(ParseErrorView::UnknownArgument(rest[0]))
            } else {
                Err(ParseErrorView::UnknownSubcommand(rest[0]))
            }
        } else {
            Err(ParseErrorView::UnknownSubcommand(word))
        }
    }
}

fn parse_setup(rest: &[&str]) -> (r: Result<SetupArgs, ParseError>)
    ensures
        match r {
            Ok(a) => spec_setup(rest@.map_values(|t: &str| t@)) == Ok::<SetupArgs, ParseErrorView>(a),
            Err(e) => spec_setup(rest@.map_values(|t: &str| t@)) == Err::<SetupArgs, ParseErrorView>(e@),
        },
{
    let names = ["cli", "gui", "all", "repair"];
    let none: [&str; 0] = [];
    let ghost ns = seq!["cli"@, "gui"@, "all"@, "repair"@];
    assert(names@.map_values(|n: &str| n@) =~= ns);
    assert(none@.map_values(|n: &str| n@) =~= seq![]);
    let s = match scan::scan(rest, &none, &names, 0) {
        Ok(s) => s,
        Err(e) => return Err(e),
    };
    if let Some(i) = next_set_exec(&s.flags, 0) {
        if let Some(j) = next_set_exec(&s.flags, i + 1) {
            assert(names@.map_values(|n: &str| n@)[i as int] == names@[i as int]@);
            assert(names@.map_values(|n: &str| n@)[j as int] == names@[j as int]@);
            return Err(
                ParseError::Conflict {
                    first: crate::text::cat2("--", names[i]),
                    second: crate::text::cat2("--", names[j]),
                },
            );
        }
    }
    Ok(SetupArgs { cli: s.flags[0], gui: s.flags[1], all: s.flags[2], repair: s.flags[3] })
}

fn parse_shortcut(rest: &[&str]) -> (r: Result<Option<ShortcutCommands>, ParseError>)
    ensures
        match r {
            Ok(c) => spec_shortcut(rest@.map_values(|t: &str| t@)) == Ok::<Option<ShortcutCommandsView>, ParseErrorView>(
                match c {
                    Some(c) => Some(c@),
                    None => None,
                },
            ),
            Err(e) => spec_shortcut(rest@.map_values(|t: &str| t@)) == Err::<Option<ShortcutCommandsView>, ParseErrorView>(
                e@,
            ),
        },
{
    let ghost ts = rest@.map_values(|t: &str| t@);
    if rest.len() == 0 {
        return Ok(None);
    }
    let word = rest[0];
    assert(ts[0] == word@);
    let after = skip(rest, 1);
    assert(after@.map_values(|t: &str| t@) =~= ts.drop_first());
    if is_help(word) {
        return Err(ParseError::Help);
    }
    if is_option_like(word) {
        return Err(ParseError::UnknownArgument(word.to_string()));
    }
    if is_word(word, "add") {
        return match positionals(after, 0) {
            Err(e) => Err(e),
            Ok(_) => Ok(Some(ShortcutCommands::Add)),
        };
    }
    if is_word(word, "list") {
        return match positionals(after, 0) {
            Err(e) => Err(e),
            Ok(_) => Ok(Some(ShortcutCommands::List)),
        };
    }
    if is_word(word, "remove") {
        let flags = ["yes"];
        let none: [&str; 0] = [];
        assert(flags@.map_values(|n: &str| n@) =~= seq!["yes"@]);
        assert(none@.map_values(|n: &str| n@) =~= seq![]);
        return match scan::scan(after, &none, &flags, 1) {
            Err(e) => Err(e),
            Ok(s) => {
                if s.flags[0] && s.positionals.len() == 0 {
                    Err(ParseError::MissingRequired("<NAME>".to_string()))
                } else {
                    Ok(Some(ShortcutCommands::Remove { name: scan::item(&s, 0), yes: s.flags[0] }))
                }
            },
        };
    }
    Err(ParseError::UnknownSubcommand(word.to_string()))
}

fn is_tool_command_exec(word: &str) -> (r: bool)
    ensures
        r == is_tool_command(word@),
{
    is_word(word, "pull") || is_word(word, "update") || is_word(word, "push") || is_word(word, "remove")
        || is_word(word, "reinstall") || is_word(word, "path") || is_word(word, "status")
}

fn tool_command_exec(word: &str, name: Option<String>, catalog: Option<String>) -> (r: Commands)
    ensures
        r@ == tool_command(word@, opt_view(name), opt_view(catalog)),
{
    if is_word(word, "pull") {
        Commands::Pull { name, catalog }
    } else if is_word(word, "update") {
        Commands::Update { name, catalog }
    } else if is_word(word, "push") {
        Commands::Push { name, catalog }
    } else if is_word(word, "remove") {
        Commands::Remove { name, catalog }
    } else if is_word(word, "reinstall") {
        Commands::Reinstall { name, catalog }
    } else if is_word(word, "path") {
        Commands::Path { name, catalog }
    } else {
        Commands::Status { name, catalog }
    }
}

fn parse_tokens(tokens: &[&str]) -> (r: Result<Option<Commands>, ParseError>)
    ensures
        cli_result_view(
            match r {
                Ok(c) => Ok(Cli { command: c }),
                Err(e) => Err(e),
            },
        ) == spec_parse_tokens(tokens@.map_values(|t: &str| t@)),
{
    let ghost ts = tokens@.map_values(|t: &str| t@);
    if tokens.len() == 0 {
        return Ok(None);
    }
    let word = tokens[0];
    assert(ts[0] == word@);
    let rest = skip(tokens, 1);
    assert(rest@.map_values(|t: &str| t@) =~= ts.drop_first());
    if is_help(word) {
        return Err(ParseError::Help);
    }
    if is_word(word, "--version") || is_word(word, "-V") {
        return Err(ParseError::Version);
    }
    if is_option_like(word) {
        return Err(ParseError::UnknownArgument(word.to_string()));
    }
    if is_word(word, "gui") {
        let flags = ["dev"];
        let none: [&str; 0] = [];
        assert(flags@.map_values(|n: &str| n@) =~= seq!["dev"@]);
        assert(none@.map_values(|n: &str| n@) =~= seq![]);
        return match scan::scan(rest, &none, &flags, 0) {
            Err(e) => Err(e),
            Ok(s) => Ok(Some(Commands::Gui { dev: s.flags[0] })),
        };
    }
    if is_word(word, "setup") {
        return match parse_setup(rest) {
            Err(e) => Err(e),
            Ok(a) => Ok(Some(Commands::Setup(a))),
        };
    }
    if is_word(word, "add") {
        return match super::parse_add(rest) {
            Err(e) => Err(e),
            Ok(super::Commands::Add { name, git_url, revision, catalog, commit, push }) => Ok(
                Some(Commands::Add { name, git_url, revision, catalog, commit, push }),
            ),
            Ok(_) => Err(ParseError::UnknownSubcommand(word.to_string())),
        };
    }
    if is_tool_command_exec(word) {
        return match tool_target(rest) {
            Err(e) => Err(e),
            Ok((name, catalog)) => Ok(Some(tool_command_exec(word, name, catalog))),
        };
    }
    if is_word(word, "list") {
        return match positionals(rest, 0) {
            Err(e) => Err(e),
            Ok(_) => Ok(Some(Commands::List)),
        };
    }
    if is_word(word, "run") {
        return match positionals(rest, 1) {
            Err(e) => Err(e),
            Ok(p) => Ok(Some(Commands::Run { shortcut: item_of(&p, 0) })),
        };
    }
    if is_word(word, "shortcut") {
        return match parse_shortcut(rest) {
            Err(e) => Err(e),
            Ok(c) => Ok(Some(Commands::Shortcut { command: c })),
        };
    }
    if is_word(word, "catalog") {
        return match parse_catalog(rest) {
            Err(e) => Err(e),
            Ok(c) => Ok(Some(Commands::Catalog { command: c })),
        };
    }
    if is_word(word, "rot") {
        if rest.len() > 0 && is_word(rest[0], "complete") {
            let after = skip(rest, 1);
            assert(after@.map_values(|t: &str| t@) =~= ts.drop_first().drop_first());
            return Ok(Some(Commands::Rot { command: RotCommands::Complete { words: all_strings(after) } }));
        }
        if rest.len() == 0 {
            return Err(ParseError::MissingSubcommand);
        }
        let sub = rest[0];
        assert(ts.drop_first()[0] == sub@);
        if is_help(sub) {
            return Err(ParseError::Help);
        }
        if is_option_like(sub) {
            return Err(ParseError::UnknownArgument(sub.to_string()));
        }
        return Err(ParseError::UnknownSubcommand(sub.to_string()));
    }
    Err(ParseError::UnknownSubcommand(word.to_string()))
}

impl Cli {
    /// Parse a command line whose first item is the program name.
    pub fn try_parse_from(args: &[&str]) -> (r: Result<Cli, ParseError>)
        ensures
            cli_result_view(r) == spec_parse_tokens(super::arguments_after_program(args@.map_values(|t: &str| t@))),
    {
        let tokens = if args.len() > 0 {
            skip(args, 1)
        } else {
            args
        };
        assert(tokens@.map_values(|t: &str| t@) =~= super::arguments_after_program(args@.map_values(|t: &str| t@)));
        match parse_tokens(tokens) {
            Ok(command) => Ok(Cli { command }),
            Err(e) => Err(e),
        }
    }
}

} // verus!
