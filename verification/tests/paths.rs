use loadbot::paths::{join, validate_name, NameError, Paths};

#[test]
fn rejects_traversal_and_separators() {
    for name in ["", ".", "..", "../tool", "tool/name", "tool\\name", "/tmp/tool", "tool.", "CON", "nul.txt", "COM1"] {
        assert!(validate_name(name).is_err(), "accepted {name:?}");
    }
}

#[test]
fn accepts_conservative_names() {
    for name in ["re-toolbox", "tool_name", "tool.name", "Tool123"] {
        assert!(validate_name(name).is_ok(), "rejected {name:?}");
    }
}

#[test]
fn tool_paths_require_safe_catalog_and_tool_names() {
    let paths = Paths::with_root("/loadbot".to_owned());
    assert_eq!(paths.tool("personal", "re-toolkit").unwrap(), "/loadbot/tools/personal/re-toolkit");
    assert!(paths.tool("../outside", "re-toolkit").is_err());
    assert!(paths.tool("personal", "../outside").is_err());
}

#[test]
fn locations_sit_below_the_root() {
    let paths = Paths::with_root("/home/me/.loadbot/".to_owned());
    assert_eq!(paths.config(), "/home/me/.loadbot/config.toml");
    assert_eq!(paths.catalog_file("personal"), "/home/me/.loadbot/catalogs/personal/catalog.toml");
    assert_eq!(join("/a", "/b"), "/b");
    assert_eq!(join("", "b"), "b");
}

#[test]
fn rejected_names_carry_the_exact_message() {
    let error = validate_name("bad name").unwrap_err();
    assert_eq!(error, NameError { name: "bad name".to_owned() });
    assert_eq!(
        error.message(),
        "invalid tool name 'bad name': use only ASCII letters, numbers, '_', '-', and '.'"
    );
    assert!(validate_name("LPT9.log").is_err());
    assert!(validate_name("COM0").is_ok());
}
