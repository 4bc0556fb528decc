//! The command-line grammar of the library's `loadbot` command: a subcommand
//! and its arguments, each optional where the command can ask for it instead.
pub mod args;
pub mod scan;

use vstd::prelude::*;

use crate::git::views;
use crate::text::str_eq;
use scan::{
    all_strings, is_help, is_option_like, is_word, item_of, looks_like_option, opt_view, positionals, skip,
    spec_positionals, spec_scan, spec_tool_target, tool_target, ParseError, ParseErrorView,
};

verus! {

/// A parsed command line.
#[derive(Debug, PartialEq, Eq)]
pub struct Cli {
    pub command: Option<Commands>,
}

#[derive(Debug, PartialEq, Eq)]
pub enum Commands {
    /// Add a tool definition to a writable catalog.
    Add {
        name: Option<String>,
        git_url: Option<String>,
        revision: Option<String>,
        catalog: Option<String>,
        commit: bool,
        push: bool,
    },
    /// Clone a registered repository.
    Pull { name: Option<String>, catalog: Option<String> },
    /// Fast-forward an installed repository.
    Update { name: Option<String>, catalog: Option<String> },
    /// List configured tools.
    List,
    /// Print the absolute path assigned to a tool.
    Path { name: Option<String>, catalog: Option<String> },
    /// Show local repository status.
    Status { name: Option<String>, catalog: Option<String> },
    /// Launch an installed file or saved shortcut.
    Run { shortcut: Option<String> },
    /// Manage saved shortcuts.
    Shortcut { command: ShortcutCommands },
    /// Manage Git-backed tool catalogs.
    Catalog { command: Option<CatalogCommands> },
    /// Shell completion through Rot; not listed in help.
    Rot { command: RotCommands },
}

#[derive(Debug, PartialEq, Eq)]
pub enum RotCommands {
    Complete { words: Vec<String> },
}

#[derive(Debug, PartialEq, Eq)]
pub enum ShortcutCommands {
    /// Save an installed file as a shortcut without running it.
    Add,
}

#[derive(Debug, PartialEq, Eq)]
pub enum CatalogCommands {
    /// Register and clone a catalog repository.
    Add { name: Option<String>, git_url: Option<String>, writable: bool },
    /// List registered catalogs.
    List,
    /// Fast-forward a registered catalog.
    Sync { name: Option<String> },
    /// Show local catalog status.
    Status { name: Option<String> },
    /// Print the absolute path assigned to a catalog.
    Path { name: Option<String> },
    /// Move legacy local tool definitions into a new catalog clone.
    Migrate { name: String, git_url: String },
}

pub enum CatalogCommandsView {
    Add { name: Option<Seq<char>>, git_url: Option<Seq<char>>, writable: bool },
    List,
    Sync { name: Option<Seq<char>> },
    Status { name: Option<Seq<char>> },
    Path { name: Option<Seq<char>> },
    Migrate { name: Seq<char>, git_url: Seq<char> },
}

pub enum CommandsView {
    Add {
        name: Option<Seq<char>>,
        git_url: Option<Seq<char>>,
        revision: Option<Seq<char>>,
        catalog: Option<Seq<char>>,
        commit: bool,
        push: bool,
    },
    Pull { name: Option<Seq<char>>, catalog: Option<Seq<char>> },
    Update { name: Option<Seq<char>>, catalog: Option<Seq<char>> },
    List,
    Path { name: Option<Seq<char>>, catalog: Option<Seq<char>> },
    Status { name: Option<Seq<char>>, catalog: Option<Seq<char>> },
    Run { shortcut: Option<Seq<char>> },
    ShortcutAdd,
    Catalog { command: Option<CatalogCommandsView> },
    RotComplete { words: Seq<Seq<char>> },
}

impl View for CatalogCommands {
    type V = CatalogCommandsView;

    open spec fn view(&self) -> CatalogCommandsView {
        match self {
            CatalogCommands::Add { name, git_url, writable } => CatalogCommandsView::Add {
                name: opt_view(*name),
                git_url: opt_view(*git_url),
                writable: *writable,
            },
            CatalogCommands::List => CatalogCommandsView::List,
            CatalogCommands::Sync { name } => CatalogCommandsView::Sync { name: opt_view(*name) },
            CatalogCommands::Status { name } => CatalogCommandsView::Status { name: opt_view(*name) },
            CatalogCommands::Path { name } => CatalogCommandsView::Path { name: opt_view(*name) },
            CatalogCommands::Migrate { name, git_url } => CatalogCommandsView::Migrate { name: name@, git_url: git_url@ },
        }
    }
}

impl View for Commands {
    type V = CommandsView;

    open spec fn view(&self) -> CommandsView {
        match self {
            Commands::Add { name, git_url, revision, catalog, commit, push } => CommandsView::Add {
                name: opt_view(*name),
                git_url: opt_view(*git_url),
                revision: opt_view(*revision),
                catalog: opt_view(*catalog),
                commit: *commit,
                push: *push,
            },
            Commands::Pull { name, catalog } => CommandsView::Pull { name: opt_view(*name), catalog: opt_view(*catalog) },
            Commands::Update { name, catalog } => CommandsView::Update {
                name: opt_view(*name),
                catalog: opt_view(*catalog),
            },
            Commands::List => CommandsView::List,
            Commands::Path { name, catalog } => CommandsView::Path { name: opt_view(*name), catalog: opt_view(*catalog) },
            Commands::Status { name, catalog } => CommandsView::Status {
                name: opt_view(*name),
                catalog: opt_view(*catalog),
            },
            Commands::Run { shortcut } => CommandsView::Run { shortcut: opt_view(*shortcut) },
            Commands::Shortcut { command: ShortcutCommands::Add } => CommandsView::ShortcutAdd,
            Commands::Catalog { command } => CommandsView::Catalog {
                command: match command {
                    Some(c) => Some(c@),
                    None => None,
                },
            },
            Commands::Rot { command: RotCommands::Complete { words } } => CommandsView::RotComplete { words: views(words@) },
        }
    }
}

/// A parse result as plain values.
pub open spec fn cli_result_view(r: Result<Cli, ParseError>) -> Result<Option<CommandsView>, ParseErrorView> {
    match r {
        Ok(cli) => Ok(
            match cli.command {
                Some(c) => Some(c@),
                None => None,
            },
        ),
        Err(e) => Err(e@),
    }
}

/// The tool-adding command: name and URL, `--revision` and `--catalog`, and
/// `--commit`, without which `--push` is refused.
pub open spec fn spec_add(tokens: Seq<Seq<char>>) -> Result<CommandsView, ParseErrorView> {
    match spec_scan(seq!["revision"@, "catalog"@], seq!["commit"@, "push"@], 2, tokens) {
        Err(e) => Err(e),
        Ok(s) => if s.flags[1] && !s.flags[0] {
            Err(ParseErrorView::MissingRequired("--commit"@))
        } else {
            Ok(
                CommandsView::Add {
                    name: scan::spec_item(s, 0),
                    git_url: scan::spec_item(s, 1),
                    revision: s.values[0],
                    catalog: s.values[1],
                    commit: s.flags[0],
                    push: s.flags[1],
                },
            )
        },
    }
}

/// The catalog subcommands; with none, the catalog menu is asked for.
pub open spec fn spec_catalog(tokens: Seq<Seq<char>>) -> Result<Option<CatalogCommandsView>, ParseErrorView> {
    if tokens.len() == 0 {
        Ok(None)
    } else {
        let word = tokens[0];
        let rest = tokens.drop_first();
        if word == "help"@ || word == "--help"@ || word == "-h"@ {
            Err(ParseErrorView::Help)
        } else if looks_like_option(word) {
            Err(ParseErrorView::UnknownArgument(word))
        } else if word == "add"@ {
            match spec_scan(seq![], seq!["writable"@], 2, rest) {
                Err(e) => Err(e),
                Ok(s) => Ok(
                    Some(
                        CatalogCommandsView::Add {
                            name: scan::spec_item(s, 0),
                            git_url: scan::spec_item(s, 1),
                            writable: s.flags[0],
                        },
                    ),
                ),
            }
        } else if word == "list"@ {
            match spec_positionals(rest, 0) {
                Err(e) => Err(e),
                Ok(_) => Ok(Some(CatalogCommandsView::List)),
            }
        } else if word == "sync"@ || word == "status"@ || word == "path"@ {
            match spec_positionals(rest, 1) {
                Err(e) => Err(e),
                Ok(p) => {
                    let name = if p.len() > 0 { Some(p[0]) } else { None };
                    Ok(
                        Some(
                            if word == "sync"@ {
                                CatalogCommandsView::Sync { name }
                            } else if word == "status"@ {
                                CatalogCommandsView::Status { name }
                            } else {
                                CatalogCommandsView::Path { name }
                            },
                        ),
                    )
                },
            }
        } else if word == "migrate"@ {
            match spec_positionals(rest, 2) {
                Err(e) => Err(e),
                Ok(p) => if p.len() == 0 {
                    Err(ParseErrorView::MissingRequired("<NAME>"@))
                } else if p.len() == 1 {
                    Err(ParseErrorView::MissingRequired("<GIT_URL>"@))
                } else {
                    Ok(Some(CatalogCommandsView::Migrate { name: p[0], git_url: p[1] }))
                },
            }
        } else {
            Err(ParseErrorView::UnknownSubcommand(word))
        }
    }
}

/// The grammar: no subcommand, or one subcommand with its arguments.
pub open spec fn spec_parse_tokens(tokens: Seq<Seq<char>>) -> Result<Option<CommandsView>, ParseErrorView> {
    if tokens.len() == 0 {
        Ok(None)
    } else {
        let word = tokens[0];
        let rest = tokens.drop_first();
        let target = spec_tool_target(rest);
        if word == "help"@ || word == "--help"@ || word == "-h"@ {
            Err(ParseErrorView::Help)
        } else if word == "--version"@ || word == "-V"@ {
            Err(ParseErrorView::Version)
        } else if looks_like_option(word) {
            Err(ParseErrorView::UnknownArgument(word))
        } else if word == "add"@ {
            match spec_add(rest) {
                Ok(c) => Ok(Some(c)),
                Err(e) => Err(e),
            }
        } else if word == "pull"@ || word == "update"@ || word == "path"@ || word == "status"@ {
            match target {
                Err(e) => Err(e),
                Ok((name, catalog)) => Ok(
                    Some(
                        if word == "pull"@ {
                            CommandsView::Pull { name, catalog }
                        } else if word == "update"@ {
                            CommandsView::Update { name, catalog }
                        } else if word == "path"@ {
                            CommandsView::Path { name, catalog }
                        } else {
                            CommandsView::Status { name, catalog }
                        },
                    ),
                ),
            }
        } else if word == "list"@ {
            match spec_positionals(rest, 0) {
                Err(e) => Err(e),
                Ok(_) => Ok(Some(CommandsView::List)),
            }
        } else if word == "run"@ {
            match spec_positionals(rest, 1) {
                Err(e) => Err(e),
                Ok(p) => Ok(Some(CommandsView::Run { shortcut: if p.len() > 0 { Some(p[0]) } else { None } })),
            }
        } else if word == "shortcut"@ {
            if rest.len() == 0 {
                Err(ParseErrorView::MissingSubcommand)
            } else if rest[0] == "help"@ || rest[0] == "--help"@ || rest[0] == "-h"@ {
                Err(ParseErrorView::Help)
            } else if looks_like_option(rest[0]) {
                Err(ParseErrorView::UnknownArgument(rest[0]))
            } else if rest[0] == "add"@ {
                match spec_positionals(rest.drop_first(), 0) {
                    Err(e) => Err(e),
                    Ok(_) => Ok(Some(CommandsView::ShortcutAdd)),
                }
            } else {
                Err(ParseErrorView::UnknownSubcommand(rest[0]))
            }
        } else if word == "catalog"@ {
            match spec_catalog(rest) {
                Err(e) => Err(e),
                Ok(c) => Ok(Some(CommandsView::Catalog { command: c })),
            }
        } else if word == "rot"@ {
            if rest.len() > 0 && rest[0] == "complete"@ {
                Ok(Some(CommandsView::RotComplete { words: rest.drop_first() }))
            } else if rest.len() == 0 {
                Err(ParseErrorView::MissingSubcommand)
            } else if rest[0] == "help"@ || rest[0] == "--help"@ || rest[0] == "-h"@ {
                Err(ParseErrorView::Help)
            } else if looks_like_option(rest[0]) {
                Err(ParseErrorView::UnknownArgument(rest[0]))
            } else {
                Err(ParseErrorView::UnknownSubcommand(rest[0]))
            }
        } else {
            Err(ParseErrorView::UnknownSubcommand(word))
        }
    }
}

/// The arguments after the program name.
pub open spec fn arguments_after_program(args: Seq<Seq<char>>) -> Seq<Seq<char>> {
    if args.len() > 0 {
        args.drop_first()
    } else {
        args
    }
}

pub(crate) fn parse_add(rest: &[&str]) -> (r: Result<Commands, ParseError>)
    ensures
        match r {
            Ok(c) => spec_add(rest@.map_values(|t: &str| t@)) == Ok::<CommandsView, ParseErrorView>(c@),
            Err(e) => spec_add(rest@.map_values(|t: &str| t@)) == Err::<CommandsView, ParseErrorView>(e@),
        },
{
    let options = ["revision", "catalog"];
    let flags = ["commit", "push"];
    assert(options@.map_values(|n: &str| n@) =~= seq!["revision"@, "catalog"@]);
    assert(flags@.map_values(|n: &str| n@) =~= seq!["commit"@, "push"@]);
    let s = match scan::scan(rest, &options, &flags, 2) {
        Ok(s) => s,
        Err(e) => return Err(e),
    };
    if s.flags[1] && !s.flags[0] {
        return Err(ParseError::MissingRequired("--commit".to_string()));
    }
    Ok(
        Commands::Add {
            name: scan::item(&s, 0),
            git_url: scan::item(&s, 1),
            revision: scan::value(&s, 0),
            catalog: scan::value(&s, 1),
            commit: s.flags[0],
            push: s.flags[1],
        },
    )
}

pub(crate) fn parse_catalog(rest: &[&str]) -> (r: Result<Option<CatalogCommands>, ParseError>)
    ensures
        match r {
            Ok(c) => spec_catalog(rest@.map_values(|t: &str| t@)) == Ok::<Option<CatalogCommandsView>, ParseErrorView>(
                match c {
                    Some(c) => Some(c@),
                    None => None,
                },
            ),
            Err(e) => spec_catalog(rest@.map_values(|t: &str| t@)) == Err::<Option<CatalogCommandsView>, ParseErrorView>(
                e@,
            ),
        },
{
    let ghost ts = rest@.map_values(|t: &str| t@);
    if rest.len() == 0 {
        return Ok(None);
    }
    let word = rest[0];
    assert(ts[0] == word@);
    let after = skip(rest, 1);
    assert(after@.map_values(|t: &str| t@) =~= ts.drop_first());
    if is_help(word) {
        return Err(ParseError::Help);
    }
    if is_option_like(word) {
        return Err(ParseError::UnknownArgument(word.to_string()));
    }
    if is_word(word, "add") {
        let flags = ["writable"];
        let none: [&str; 0] = [];
        assert(flags@.map_values(|n: &str| n@) =~= seq!["writable"@]);
        assert(none@.map_values(|n: &str| n@) =~= seq![]);
        return match scan::scan(after, &none, &flags, 2) {
            Err(e) => Err(e),
            Ok(s) => Ok(
                Some(CatalogCommands::Add { name: scan::item(&s, 0), git_url: scan::item(&s, 1), writable: s.flags[0] }),
            ),
        };
    }
    if is_word(word, "list") {
        return match positionals(after, 0) {
            Err(e) => Err(e),
            Ok(_) => Ok(Some(CatalogCommands::List)),
        };
    }
    if is_word(word, "sync") || is_word(word, "status") || is_word(word, "path") {
        return match positionals(after, 1) {
            Err(e) => Err(e),
            Ok(p) => {
                let name = item_of(&p, 0);
                Ok(
                    Some(
                        if is_word(word, "sync") {
                            CatalogCommands::Sync { name }
                        } else if is_word(word, "status") {
                            CatalogCommands::Status { name }
                        } else {
                            CatalogCommands::Path { name }
                        },
                    ),
                )
            },
        };
    }
    if is_word(word, "migrate") {
        return match positionals(after, 2) {
            Err(e) => Err(e),
            Ok(p) => {
                if p.len() == 0 {
                    Err(ParseError::MissingRequired("<NAME>".to_string()))
                } else if p.len() == 1 {
                    Err(ParseError::MissingRequired("<GIT_URL>".to_string()))
                } else {
                    Ok(Some(CatalogCommands::Migrate { name: p[0].clone(), git_url: p[1].clone() }))
                }
            },
        };
    }
    Err(ParseError::UnknownSubcommand(word.to_string()))
}

fn parse_tokens(tokens: &[&str]) -> (r: Result<Option<Commands>, ParseError>)
    ensures
        cli_result_view(
            match r {
                Ok(c) => Ok(Cli { command: c }),
                Err(e) => Err(e),
            },
        ) == spec_parse_tokens(tokens@.map_values(|t: &str| t@)),
{
    let ghost ts = tokens@.map_values(|t: &str| t@);
    if tokens.len() == 0 {
        return Ok(None);
    }
    let word = tokens[0];
    assert(ts[0] == word@);
    let rest = skip(tokens, 1);
    assert(rest@.map_values(|t: &str| t@) =~= ts.drop_first());
    if is_help(word) {
        return Err(ParseError::Help);
    }
    if is_word(word, "--version") || is_word(word, "-V") {
        return Err(ParseError::Version);
    }
    if is_option_like(word) {
        return Err(ParseError::UnknownArgument(word.to_string()));
    }
    if is_word(word, "add") {
        return match parse_add(rest) {
            Ok(c) => Ok(Some(c)),
            Err(e) => Err(e),
        };
    }
    if is_word(word, "pull") || is_word(word, "update") || is_word(word, "path") || is_word(word, "status") {
        return match tool_target(rest) {
            Err(e) => Err(e),
            Ok((name, catalog)) => Ok(
                Some(
                    if is_word(word, "pull") {
                        Commands::Pull { name, catalog }
                    } else if is_word(word, "update") {
                        Commands::Update { name, catalog }
                    } else if is_word(word, "path") {
                        Commands::Path { name, catalog }
                    } else {
                        Commands::Status { name, catalog }
                    },
                ),
            ),
        };
    }
    if is_word(word, "list") {
        return match positionals(rest, 0) {
            Err(e) => Err(e),
            Ok(_) => Ok(Some(Commands::List)),
        };
    }
    if is_word(word, "run") {
        return match positionals(rest, 1) {
            Err(e) => Err(e),
            Ok(p) => Ok(Some(Commands::Run { shortcut: item_of(&p, 0) })),
        };
    }
    if is_word(word, "shortcut") {
        if rest.len() == 0 {
            return Err(ParseError::MissingSubcommand);
        }
        let sub = rest[0];
        assert(ts.drop_first()[0] == sub@);
        if is_help(sub) {
            return Err(ParseError::Help);
        }
        if is_option_like(sub) {
            return Err(ParseError::UnknownArgument(sub.to_string()));
        }
        if is_word(sub, "add") {
            let after = skip(rest, 1);
            assert(after@.map_values(|t: &str| t@) =~= ts.drop_first().drop_first());
            return match positionals(after, 0) {
                Err(e) => Err(e),
                Ok(_) => Ok(Some(Commands::Shortcut { command: ShortcutCommands::Add })),
            };
        }
        return Err(ParseError::UnknownSubcommand(sub.to_string()));
    }
    if is_word(word, "catalog") {
        return match parse_catalog(rest) {
            Err(e) => Err(e),
            Ok(c) => Ok(Some(Commands::Catalog { command: c })),
        };
    }
    if is_word(word, "rot") {
        if rest.len() > 0 && is_word(rest[0], "complete") {
            let after = skip(rest, 1);
            assert(after@.map_values(|t: &str| t@) =~= ts.drop_first().drop_first());
            return Ok(Some(Commands::Rot { command: RotCommands::Complete { words: all_strings(after) } }));
        }
        if rest.len() == 0 {
            return Err(ParseError::MissingSubcommand);
        }
        let sub = rest[0];
        assert(ts.drop_first()[0] == sub@);
        if is_help(sub) {
            return Err(ParseError::Help);
        }
        if is_option_like(sub) {
            return Err(ParseError::UnknownArgument(sub.to_string()));
        }
        return Err(ParseError::UnknownSubcommand(sub.to_string()));
    }
    Err(ParseError::UnknownSubcommand(word.to_string()))
}

impl Cli {
    /// Parse a command line whose first item is the program name.
    pub fn try_parse_from(args: &[&str]) -> (r: Result<Cli, ParseError>)
        ensures
            cli_result_view(r) == spec_parse_tokens(arguments_after_program(args@.map_values(|t: &str| t@))),
    {
        let tokens = if args.len() > 0 {
            skip(args, 1)
        } else {
            args
        };
        assert(tokens@.map_values(|t: &str| t@) =~= arguments_after_program(args@.map_values(|t: &str| t@)));
        match parse_tokens(tokens) {
            Ok(command) => Ok(Cli { command }),
            Err(e) => Err(e),
        }
    }
}

proof fn lemma_pull_word(rest: Seq<Seq<char>>)
    ensures
        spec_tool_target(rest) matches Ok((name, catalog)) ==> spec_parse_tokens(seq!["pull"@] + rest) == Ok::<
            Option<CommandsView>,
            ParseErrorView,
        >(Some(CommandsView::Pull { name, catalog })),
        spec_tool_target(rest) matches Err(e) ==> spec_parse_tokens(seq!["pull"@] + rest) == Err::<
            Option<CommandsView>,
            ParseErrorView,
        >(e),
{
    reveal_strlit("pull");
    reveal_strlit("update");
    reveal_strlit("path");
    reveal_strlit("status");
    reveal_strlit("help");
    reveal_strlit("--help");
    reveal_strlit("-h");
    reveal_strlit("--version");
    reveal_strlit("-V");
    reveal_strlit("add");
    reveal_strlit("pull");
    let t = seq!["pull"@] + rest;
    assert(t[0] == "pull"@);
    assert(t.drop_first() =~= rest);
    assert(t[0][0] != "help"@[0] || t[0][1] != "help"@[1] || t[0].len() != 4);
    assert(t[0] != "help"@);
    assert("-h"@.len() == 2 && "--help"@.len() == 6 && "--version"@.len() == 9 && "-V"@.len() == 2 && "add"@.len() == 3);
    assert(t[0][0] != '-');
    assert(t[0] != "-h"@ && t[0] != "--help"@ && t[0] != "--version"@ && t[0] != "-V"@);
    assert(t[0] != "add"@);
    assert(!looks_like_option(t[0]));
}

proof fn lemma_update_word(rest: Seq<Seq<char>>)
    ensures
        spec_tool_target(rest) matches Ok((name, catalog)) ==> spec_parse_tokens(seq!["update"@] + rest) == Ok::<
            Option<CommandsView>,
            ParseErrorView,
        >(Some(CommandsView::Update { name, catalog })),
        spec_tool_target(rest) matches Err(e) ==> spec_parse_tokens(seq!["update"@] + rest) == Err::<
            Option<CommandsView>,
            ParseErrorView,
        >(e),
{
    reveal_strlit("pull");
    reveal_strlit("update");
    reveal_strlit("path");
    reveal_strlit("status");
    reveal_strlit("help");
    reveal_strlit("--help");
    reveal_strlit("-h");
    reveal_strlit("--version");
    reveal_strlit("-V");
    reveal_strlit("add");
    reveal_strlit("update");
    let t = seq!["update"@] + rest;
    assert(t[0] == "update"@);
    assert(t.drop_first() =~= rest);
    assert(t[0][0] != "help"@[0] || t[0][1] != "help"@[1] || t[0].len() != 4);
    assert(t[0] != "help"@);
    assert("-h"@.len() == 2 && "--help"@.len() == 6 && "--version"@.len() == 9 && "-V"@.len() == 2 && "add"@.len() == 3);
    assert(t[0][0] != '-');
    assert(t[0] != "-h"@ && t[0] != "--help"@ && t[0] != "--version"@ && t[0] != "-V"@);
    assert(t[0] != "add"@);
    assert(!looks_like_option(t[0]));
}

proof fn lemma_path_word(rest: Seq<Seq<char>>)
    ensures
        spec_tool_target(rest) matches Ok((name, catalog)) ==> spec_parse_tokens(seq!["path"@] + rest) == Ok::<
            Option<CommandsView>,
            ParseErrorView,
        >(Some(CommandsView::Path { name, catalog })),
        spec_tool_target(rest) matches Err(e) ==> spec_parse_tokens(seq!["path"@] + rest) == Err::<
            Option<CommandsView>,
            ParseErrorView,
        >(e),
{
    reveal_strlit("pull");
    reveal_strlit("update");
    reveal_strlit("path");
    reveal_strlit("status");
    reveal_strlit("help");
    reveal_strlit("--help");
    reveal_strlit("-h");
    reveal_strlit("--version");
    reveal_strlit("-V");
    reveal_strlit("add");
    reveal_strlit("path");
    let t = seq!["path"@] + rest;
    assert(t[0] == "path"@);
    assert(t.drop_first() =~= rest);
    assert(t[0][0] != "help"@[0] || t[0][1] != "help"@[1] || t[0].len() != 4);
    assert(t[0] != "help"@);
    assert("-h"@.len() == 2 && "--help"@.len() == 6 && "--version"@.len() == 9 && "-V"@.len() == 2 && "add"@.len() == 3);
    assert(t[0][0] != '-');
    assert(t[0] != "-h"@ && t[0] != "--help"@ && t[0] != "--version"@ && t[0] != "-V"@);
    assert(t[0] != "add"@);
    assert(!looks_like_option(t[0]));
}

proof fn lemma_status_word(rest: Seq<Seq<char>>)
    ensures
        spec_tool_target(rest) matches Ok((name, catalog)) ==> spec_parse_tokens(seq!["status"@] + rest) == Ok::<
            Option<CommandsView>,
            ParseErrorView,
        >(Some(CommandsView::Status { name, catalog })),
        spec_tool_target(rest) matches Err(e) ==> spec_parse_tokens(seq!["status"@] + rest) == Err::<
            Option<CommandsView>,
            ParseErrorView,
        >(e),
{
    reveal_strlit("pull");
    reveal_strlit("update");
    reveal_strlit("path");
    reveal_strlit("status");
    reveal_strlit("help");
    reveal_strlit("--help");
    reveal_strlit("-h");
    reveal_strlit("--version");
    reveal_strlit("-V");
    reveal_strlit("add");
    reveal_strlit("status");
    let t = seq!["status"@] + rest;
    assert(t[0] == "status"@);
    assert(t.drop_first() =~= rest);
    assert(t[0][0] != "help"@[0] || t[0][1] != "help"@[1] || t[0].len() != 4);
    assert(t[0] != "help"@);
    assert("-h"@.len() == 2 && "--help"@.len() == 6 && "--version"@.len() == 9 && "-V"@.len() == 2 && "add"@.len() == 3);
    assert(t[0][0] != '-');
    assert(t[0] != "-h"@ && t[0] != "--help"@ && t[0] != "--version"@ && t[0] != "-V"@);
    assert(t[0] != "add"@);
    assert(!looks_like_option(t[0]));
}

/// A command line that starts with a tool word names that word's command, for
/// the tool and catalog that the rest of the line names: `pull` clones a
/// tool, `update` fast-forwards it, `path` prints its checkout and `status`
/// reports it. A rest of the line that names no tool is refused as it is.
pub proof fn lemma_tool_words_choose_their_command(rest: Seq<Seq<char>>)
    ensures
        spec_tool_target(rest) matches Ok((name, catalog)) ==> spec_parse_tokens(seq!["pull"@] + rest) == Ok::<
            Option<CommandsView>,
            ParseErrorView,
        >(Some(CommandsView::Pull { name, catalog })),
        spec_tool_target(rest) matches Err(e) ==> spec_parse_tokens(seq!["pull"@] + rest) == Err::<
            Option<CommandsView>,
            ParseErrorView,
        >(e),
        spec_tool_target(rest) matches Ok((name, catalog)) ==> spec_parse_tokens(seq!["update"@] + rest) == Ok::<
            Option<CommandsView>,
            ParseErrorView,
        >(Some(CommandsView::Update { name, catalog })),
        spec_tool_target(rest) matches Err(e) ==> spec_parse_tokens(seq!["update"@] + rest) == Err::<
            Option<CommandsView>,
            ParseErrorView,
        >(e),
        spec_tool_target(rest) matches Ok((name, catalog)) ==> spec_parse_tokens(seq!["path"@] + rest) == Ok::<
            Option<CommandsView>,
            ParseErrorView,
        >(Some(CommandsView::Path { name, catalog })),
        spec_tool_target(rest) matches Err(e) ==> spec_parse_tokens(seq!["path"@] + rest) == Err::<
            Option<CommandsView>,
            ParseErrorView,
        >(e),
        spec_tool_target(rest) matches Ok((name, catalog)) ==> spec_parse_tokens(seq!["status"@] + rest) == Ok::<
            Option<CommandsView>,
            ParseErrorView,
        >(Some(CommandsView::Status { name, catalog })),
        spec_tool_target(rest) matches Err(e) ==> spec_parse_tokens(seq!["status"@] + rest) == Err::<
            Option<CommandsView>,
            ParseErrorView,
        >(e),
{
    lemma_pull_word(rest);
    lemma_update_word(rest);
    lemma_path_word(rest);
    lemma_status_word(rest);
}

} // verus!
