use loadbot::cli::args;
use loadbot::cli::scan::ParseError;
use loadbot::cli::{CatalogCommands, Cli, Commands, ShortcutCommands};

#[test]
fn cli_bare_command_is_optional() {
    assert!(Cli::try_parse_from(&["loadbot"]).unwrap().command.is_none());
    assert!(Cli::try_parse_from(&["loadbot", "shortcut"]).is_err());
}

#[test]
fn cli_direct_tool_arguments_are_preserved() {
    for command in ["pull", "update", "path", "status"] {
        let parsed = Cli::try_parse_from(&["loadbot", command, "demo", "--catalog", "personal"]).unwrap();
        let (name, catalog) = match parsed.command.unwrap() {
            Commands::Pull { name, catalog }
            | Commands::Update { name, catalog }
            | Commands::Path { name, catalog }
            | Commands::Status { name, catalog } => (name, catalog),
            _ => panic!("wrong command"),
        };
        assert_eq!(name.as_deref(), Some("demo"));
        assert_eq!(catalog.as_deref(), Some("personal"));
    }
    let parsed = Cli::try_parse_from(&[
        "loadbot", "add", "demo", "local.git", "--revision", "main", "--catalog", "personal", "--commit", "--push",
    ])
    .unwrap();
    assert!(
        matches!(parsed.command, Some(Commands::Add { name: Some(name), git_url: Some(url), revision: Some(revision), catalog: Some(catalog), commit: true, push: true }) if name == "demo" && url == "local.git" && revision == "main" && catalog == "personal")
    );
    assert!(Cli::try_parse_from(&["loadbot", "add", "--push"]).is_err());
}

#[test]
fn cli_parses_interactive_and_shortcut_run_forms() {
    let interactive = Cli::try_parse_from(&["loadbot", "run"]).unwrap();
    assert!(matches!(interactive.command.unwrap(), Commands::Run { shortcut: None }));

    let catalog = Cli::try_parse_from(&["loadbot", "catalog"]).unwrap();
    assert!(matches!(catalog.command.unwrap(), Commands::Catalog { command: None }));

    let direct = Cli::try_parse_from(&["loadbot", "run", "print-strings"]).unwrap();
    assert!(matches!(
        direct.command.unwrap(),
        Commands::Run { shortcut: Some(name) } if name == "print-strings"
    ));

    let add = Cli::try_parse_from(&["loadbot", "shortcut", "add"]).unwrap();
    assert!(matches!(add.command.unwrap(), Commands::Shortcut { command: ShortcutCommands::Add }));
}

#[test]
fn shortcut_commands_compare_structurally() {
    for (arguments, expected) in [
        (vec!["add"], args::ShortcutCommands::Add),
        (vec!["list"], args::ShortcutCommands::List),
        (vec!["remove"], args::ShortcutCommands::Remove { name: None, yes: false }),
        (vec!["remove", "demo"], args::ShortcutCommands::Remove { name: Some("demo".to_owned()), yes: false }),
        (
            vec!["remove", "demo", "--yes"],
            args::ShortcutCommands::Remove { name: Some("demo".to_owned()), yes: true },
        ),
    ] {
        let line: Vec<&str> = ["loadbot", "shortcut"].into_iter().chain(arguments).collect();
        let parsed = args::Cli::try_parse_from(&line).unwrap();
        assert_eq!(parsed.command, Some(args::Commands::Shortcut { command: Some(expected) }));
    }
    assert!(args::Cli::try_parse_from(&["loadbot", "shortcut", "remove", "--yes"]).is_err());
}

#[test]
fn args_bare_command_is_optional() {
    assert!(args::Cli::try_parse_from(&["loadbot"]).unwrap().command.is_none());
    assert_eq!(
        args::Cli::try_parse_from(&["loadbot", "shortcut"]).unwrap().command,
        Some(args::Commands::Shortcut { command: None })
    );
}

#[test]
fn args_direct_tool_arguments_are_preserved() {
    for command in ["pull", "update", "push", "remove", "reinstall", "path", "status"] {
        let parsed = args::Cli::try_parse_from(&["loadbot", command, "demo", "--catalog", "personal"]).unwrap();
        let (name, catalog) = match parsed.command.unwrap() {
            args::Commands::Pull { name, catalog }
            | args::Commands::Update { name, catalog }
            | args::Commands::Push { name, catalog }
            | args::Commands::Remove { name, catalog }
            | args::Commands::Reinstall { name, catalog }
            | args::Commands::Path { name, catalog }
            | args::Commands::Status { name, catalog } => (name, catalog),
            _ => panic!("wrong command"),
        };
        assert_eq!(name.as_deref(), Some("demo"));
        assert_eq!(catalog.as_deref(), Some("personal"));
    }
    let parsed = args::Cli::try_parse_from(&[
        "loadbot", "add", "demo", "local.git", "--revision", "main", "--catalog", "personal", "--commit", "--push",
    ])
    .unwrap();
    assert!(
        matches!(parsed.command, Some(args::Commands::Add { name: Some(name), git_url: Some(url), revision: Some(revision), catalog: Some(catalog), commit: true, push: true }) if name == "demo" && url == "local.git" && revision == "main" && catalog == "personal")
    );
    assert!(args::Cli::try_parse_from(&["loadbot", "add", "--push"]).is_err());
}

#[test]
fn args_parses_interactive_and_shortcut_run_forms() {
    let interactive = args::Cli::try_parse_from(&["loadbot", "run"]).unwrap();
    assert!(matches!(interactive.command.unwrap(), args::Commands::Run { shortcut: None }));

    let catalog = args::Cli::try_parse_from(&["loadbot", "catalog"]).unwrap();
    assert!(matches!(catalog.command.unwrap(), args::Commands::Catalog { command: None }));

    let direct = args::Cli::try_parse_from(&["loadbot", "run", "print-strings"]).unwrap();
    assert!(matches!(
        direct.command.unwrap(),
        args::Commands::Run { shortcut: Some(name) } if name == "print-strings"
    ));

    let add = args::Cli::try_parse_from(&["loadbot", "shortcut", "add"]).unwrap();
    assert_eq!(add.command, Some(args::Commands::Shortcut { command: Some(args::ShortcutCommands::Add) }));
}

#[test]
fn parses_gui_and_setup_modes_without_ambiguity() {
    assert_eq!(
        args::Cli::try_parse_from(&["loadbot", "gui"]).unwrap().command,
        Some(args::Commands::Gui { dev: false })
    );
    assert_eq!(
        args::Cli::try_parse_from(&["loadbot", "gui", "--dev"]).unwrap().command,
        Some(args::Commands::Gui { dev: true })
    );
    assert!(matches!(
        args::Cli::try_parse_from(&["loadbot", "setup"]).unwrap().command,
        Some(args::Commands::Setup(args::SetupArgs { cli: false, gui: false, all: false, repair: false }))
    ));
    assert!(matches!(
        args::Cli::try_parse_from(&["loadbot", "setup", "--gui"]).unwrap().command,
        Some(args::Commands::Setup(args::SetupArgs { gui: true, .. }))
    ));
    assert!(args::Cli::try_parse_from(&["loadbot", "setup", "--cli", "--gui"]).is_err());
    assert!(args::Cli::try_parse_from(&["loadbot", "gui", "--fixture"]).is_err());
}

#[test]
fn options_accept_inline_values_and_reject_repeats_and_missing_values() {
    let parsed = args::Cli::try_parse_from(&["loadbot", "pull", "--catalog=personal", "demo"]).unwrap();
    assert_eq!(
        parsed.command,
        Some(args::Commands::Pull { name: Some("demo".to_owned()), catalog: Some("personal".to_owned()) })
    );
    assert_eq!(
        args::Cli::try_parse_from(&["loadbot", "pull", "--catalog"]).unwrap_err(),
        ParseError::MissingValue("--catalog".to_owned())
    );
    assert_eq!(
        args::Cli::try_parse_from(&["loadbot", "pull", "--catalog", "--commit"]).unwrap_err(),
        ParseError::MissingValue("--catalog".to_owned())
    );
    assert_eq!(
        args::Cli::try_parse_from(&["loadbot", "pull", "--catalog", "a", "--catalog", "b"]).unwrap_err(),
        ParseError::RepeatedArgument("--catalog".to_owned())
    );
    assert_eq!(
        args::Cli::try_parse_from(&["loadbot", "pull", "a", "b"]).unwrap_err(),
        ParseError::UnexpectedArgument("b".to_owned())
    );
    assert_eq!(
        args::Cli::try_parse_from(&["loadbot", "frobnicate"]).unwrap_err(),
        ParseError::UnknownSubcommand("frobnicate".to_owned())
    );
    assert_eq!(
        args::Cli::try_parse_from(&["loadbot", "gui", "--dev=yes"]).unwrap_err(),
        ParseError::FlagWithValue("--dev".to_owned())
    );
}

#[test]
fn double_dash_makes_the_rest_positional_and_help_and_version_are_reported() {
    let parsed = args::Cli::try_parse_from(&["loadbot", "run", "--", "--weird-name"]).unwrap();
    assert_eq!(parsed.command, Some(args::Commands::Run { shortcut: Some("--weird-name".to_owned()) }));
    assert_eq!(args::Cli::try_parse_from(&["loadbot", "--help"]).unwrap_err(), ParseError::Help);
    assert_eq!(args::Cli::try_parse_from(&["loadbot", "pull", "-h"]).unwrap_err(), ParseError::Help);
    assert_eq!(args::Cli::try_parse_from(&["loadbot", "--version"]).unwrap_err(), ParseError::Version);
    assert_eq!(args::Cli::try_parse_from(&["loadbot", "-V"]).unwrap_err(), ParseError::Version);
}

#[test]
fn setup_conflict_names_the_first_two_components() {
    assert_eq!(
        args::Cli::try_parse_from(&["loadbot", "setup", "--repair", "--gui", "--all"]).unwrap_err(),
        ParseError::Conflict { first: "--gui".to_owned(), second: "--all".to_owned() }
    );
}

#[test]
fn catalog_subcommands_and_migration_require_their_arguments() {
    assert_eq!(
        Cli::try_parse_from(&["loadbot", "catalog", "add", "team", "team.git", "--writable"]).unwrap().command,
        Some(Commands::Catalog {
            command: Some(CatalogCommands::Add {
                name: Some("team".to_owned()),
                git_url: Some("team.git".to_owned()),
                writable: true
            })
        })
    );
    assert_eq!(
        Cli::try_parse_from(&["loadbot", "catalog", "migrate", "team", "team.git"]).unwrap().command,
        Some(Commands::Catalog {
            command: Some(CatalogCommands::Migrate { name: "team".to_owned(), git_url: "team.git".to_owned() })
        })
    );
    assert_eq!(
        Cli::try_parse_from(&["loadbot", "catalog", "migrate", "team"]).unwrap_err(),
        ParseError::MissingRequired("<GIT_URL>".to_owned())
    );
    assert_eq!(
        Cli::try_parse_from(&["loadbot", "catalog", "sync"]).unwrap().command,
        Some(Commands::Catalog { command: Some(CatalogCommands::Sync { name: None }) })
    );
}

#[test]
fn rot_completion_keeps_every_word_verbatim() {
    let parsed = args::Cli::try_parse_from(&["loadbot", "rot", "complete", "--", "-x", "run"]).unwrap();
    assert_eq!(
        parsed.command,
        Some(args::Commands::Rot {
            command: args::RotCommands::Complete { words: vec!["--".to_owned(), "-x".to_owned(), "run".to_owned()] }
        })
    );
}
