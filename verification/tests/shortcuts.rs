use loadbot::recipe::{LegacyInvocation, StoredInvocation};
use loadbot::launcher::{broken_message, shortcut_listing};
use loadbot::shortcuts::{
    portable_path, relative_path, remove, save, shortcut_candidates, shortcut_names, PathComponent, Shortcut, ShortcutError, ShortcutFile,
    ShortcutPathError,
};

#[test]
fn relative_paths_must_stay_inside_the_tool() {
    assert_eq!(relative_path("scripts/run.sh").unwrap(), vec!["scripts", "run.sh"]);
    assert_eq!(relative_path("/abs").unwrap_err(), ShortcutPathError::NotPortable);
    assert_eq!(relative_path("a\\b").unwrap_err(), ShortcutPathError::NotPortable);
    assert_eq!(relative_path("a/../b").unwrap_err(), ShortcutPathError::Escapes);
    assert_eq!(relative_path("a//b").unwrap_err(), ShortcutPathError::Escapes);
    assert_eq!(
        ShortcutPathError::Escapes.message(),
        "shortcut path must not escape its tool repository"
    );
}

#[test]
fn native_paths_become_portable_slash_paths() {
    let components = vec![PathComponent::Normal("recipes".into()), PathComponent::Normal("print.py".into())];
    assert_eq!(portable_path(&components).unwrap(), "recipes/print.py");
    assert_eq!(
        portable_path(&vec![PathComponent::Normal("a:b".into())]).unwrap_err(),
        ShortcutPathError::UnportableComponent
    );
    assert_eq!(portable_path(&vec![PathComponent::ParentDir]).unwrap_err(), ShortcutPathError::NotRelative);
}

fn shortcut(path: &str) -> Shortcut {
    Shortcut::new("personal".to_owned(), "re-toolkit".to_owned(), path.to_owned()).unwrap()
}

#[test]
fn rejects_traversal_and_duplicate_names() {
    for path in ["", "../outside", "recipes/../../outside", "/tmp/file", "C:\\file", "recipes\\file.py"] {
        assert!(relative_path(path).is_err(), "accepted {path:?}");
    }
    assert!(matches!(
        Shortcut::new("personal".to_owned(), "re-toolkit".to_owned(), "../outside.py".to_owned()),
        Err(ShortcutError::Path(ShortcutPathError::Escapes))
    ));
    assert!(matches!(
        Shortcut::new("../x".to_owned(), "re-toolkit".to_owned(), "a.py".to_owned()),
        Err(ShortcutError::InvalidCatalog(_))
    ));
    let mut file = ShortcutFile::new();
    save(&mut file, "print-strings", shortcut("recipes/print_strings.py")).unwrap();
    assert!(matches!(
        save(&mut file, "print-strings", shortcut("triage.py")),
        Err(ShortcutError::AlreadyExists(ref n)) if n == "print-strings"
    ));
    assert!(matches!(save(&mut file, "../bad", shortcut("triage.py")), Err(ShortcutError::InvalidName(_))));
    assert_eq!(file.shortcuts.len(), 1);
}

#[test]
fn removal_takes_out_exactly_one_definition() {
    let mut file = ShortcutFile::new();
    save(&mut file, "bn-triage", shortcut("triage.py")).unwrap();
    save(&mut file, "print-strings", shortcut("recipes/print_strings.py")).unwrap();
    assert_eq!(shortcut_names(&file), vec!["bn-triage", "print-strings"]);
    remove(&mut file, "bn-triage").unwrap();
    assert_eq!(shortcut_names(&file), vec!["print-strings"]);
    assert!(matches!(remove(&mut file, "bn-triage"), Err(ShortcutError::Missing(ref n)) if n == "bn-triage"));
    assert_eq!(file.version, 1);
}

#[test]
fn legacy_runner_is_set_only_on_legacy_shortcuts() {
    let mut s = shortcut("run.sh");
    s.set_legacy_runner(Some(loadbot::catalog::Runner::Bash)).unwrap();
    assert_eq!(
        s.invocation,
        StoredInvocation::Legacy(LegacyInvocation { path: "run.sh".to_owned(), runner: Some(loadbot::catalog::Runner::Bash) })
    );
    assert!(s.legacy().is_some());
}

#[test]
fn saved_shortcuts_are_listed_alphabetically() {
    let mut file = ShortcutFile::new();
    save(&mut file, "print-strings", shortcut("recipes/print_strings.py")).unwrap();
    save(&mut file, "bn-triage", shortcut("triage.py")).unwrap();
    save(&mut file, "demo", shortcut("demo.py")).unwrap();
    assert_eq!(shortcut_names(&file), vec!["bn-triage", "demo", "print-strings"]);
}

fn fixture() -> ShortcutFile {
    let mut file = ShortcutFile::new();
    file.extra.push(("future".to_owned(), "value = \"top-level\"\n".to_owned()));
    let zebra = Shortcut::new("missing".to_owned(), "uninstalled".to_owned(), "missing.sh".to_owned()).unwrap();
    let mut alpha = Shortcut::new("personal".to_owned(), "demo".to_owned(), "alpha.sh".to_owned()).unwrap();
    alpha.description = Some("Alpha description".to_owned());
    alpha.set_legacy_runner(Some(loadbot::catalog::Runner::Bash)).unwrap();
    save(&mut file, "zebra", zebra).unwrap();
    save(&mut file, "alpha", alpha).unwrap();
    file
}

#[test]
fn listing_is_sorted_read_only_and_does_not_resolve_targets() {
    assert_eq!(shortcut_listing(&ShortcutFile::new()), "No shortcuts are saved.");
    let file = fixture();
    let text = shortcut_listing(&file);
    assert!(text.find("Name: alpha").unwrap() < text.find("Name: zebra").unwrap());
    assert!(text.contains("Catalog: personal\nTool: demo\nPath: alpha.sh\nDescription: Alpha description\nRunner: bash"));
    assert_eq!(file.shortcuts.len(), 2);
}

#[test]
fn candidates_are_only_matching_shortcut_names() {
    let mut file = ShortcutFile::new();
    save(&mut file, "print-strings", Shortcut::new("personal".to_owned(), "re-toolkit".to_owned(), "recipes/print_strings.py".to_owned()).unwrap()).unwrap();
    save(&mut file, "bn-triage", Shortcut::new("personal".to_owned(), "re-toolkit".to_owned(), "triage.py".to_owned()).unwrap()).unwrap();
    let all = shortcut_candidates(&file, "");
    assert_eq!(all, vec!["bn-triage", "print-strings"]);
    assert_eq!(shortcut_candidates(&file, "pri"), vec!["print-strings"]);
    assert!(!all.contains(&"re-toolkit".to_owned()));
    assert!(!all.contains(&"arbitrary-tool-file.py".to_owned()));
}

#[test]
fn broken_shortcuts_name_what_they_run() {
    let file = fixture();
    let zebra = &file.shortcuts[1].1;
    assert_eq!(
        broken_message("zebra", zebra),
        "shortcut 'zebra' is broken:\n\ncatalog: missing\ntool: uninstalled\npath: missing.sh"
    );
}

#[test]
fn portable_paths_and_their_components_convert_back_and_forth() {
    let components = vec![
        PathComponent::Normal("scripts".to_owned()),
        PathComponent::Normal("tools".to_owned()),
        PathComponent::Normal("run.sh".to_owned()),
    ];
    let portable = portable_path(&components).unwrap();
    assert_eq!(portable, "scripts/tools/run.sh");
    assert_eq!(relative_path(&portable).unwrap(), vec!["scripts", "tools", "run.sh"]);
    let parts = relative_path("a/b.c/d").unwrap();
    let native: Vec<PathComponent> = parts.into_iter().map(PathComponent::Normal).collect();
    assert_eq!(portable_path(&native).unwrap(), "a/b.c/d");
    assert_eq!(portable_path(&vec![PathComponent::RootDir]), Err(ShortcutPathError::NotRelative));
    assert_eq!(
        portable_path(&vec![PathComponent::Normal("a:b".to_owned())]),
        Err(ShortcutPathError::UnportableComponent)
    );
    assert_eq!(portable_path(&Vec::new()), Err(ShortcutPathError::NotPortable));
    assert_eq!(
        portable_path(&vec![PathComponent::Normal("a/b".to_owned())]),
        Err(ShortcutPathError::UnportableComponent)
    );
}

#[test]
fn shortcut_names_are_alphabetical() {
    let mut file = ShortcutFile::new();
    file.shortcuts.push(("print-strings".to_owned(), shortcut("print.py")));
    file.shortcuts.push(("bn-triage".to_owned(), shortcut("triage.py")));
    file.shortcuts.push(("bn-triage".to_owned(), shortcut("triage.py")));
    assert_eq!(shortcut_names(&file), vec!["bn-triage", "print-strings"]);
}
