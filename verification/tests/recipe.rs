use loadbot::catalog::{Platform, Runner};
use loadbot::recipe::{
    resolve_recipe, validate_recipe_for_project, InputKind, InvocationBehavior, PathFacts, ProjectSnapshot,
    RecipeArgument, RecipeDefinition, RecipeError, RecipeProgram, ResolvedProgram, RuntimeInput, RuntimeInputs,
    StoredInvocation, WorkingDirectory,
};

fn definition(
    behavior: InvocationBehavior,
    program: RecipeProgram,
    working_directory: WorkingDirectory,
    arguments: Vec<RecipeArgument>,
) -> RecipeDefinition {
    RecipeDefinition { version: 1, behavior, program, working_directory, arguments }
}

fn dir(path: &str) -> Option<PathFacts> {
    Some(PathFacts { canonical: path.to_owned(), is_file: false, is_dir: true })
}

fn file(path: &str) -> Option<PathFacts> {
    Some(PathFacts { canonical: path.to_owned(), is_file: true, is_dir: false })
}

fn project() -> ProjectSnapshot {
    ProjectSnapshot {
        root: Ok(PathFacts { canonical: "/project".to_owned(), is_file: false, is_dir: true }),
        entries: vec![
            ("scripts".to_owned(), dir("/project/scripts")),
            ("scripts/triage.py".to_owned(), file("/project/scripts/triage.py")),
            ("scripts/escape".to_owned(), file("/elsewhere/outside")),
        ],
        runtime: vec![("/samples/a.bin".to_owned(), file("/samples/a.bin"))],
        platform: Platform::Other,
    }
}

fn inputs(entries: Vec<(&str, RuntimeInput)>) -> RuntimeInputs {
    let mut map = RuntimeInputs::new();
    for (key, value) in entries {
        map.insert(key.to_owned(), value);
    }
    map
}

#[test]
fn parameter_definition_and_runtime_maps_are_strict() {
    let project = project();
    let input = |id: &str, kind| RecipeArgument::Input {
        id: id.into(),
        label: "Value".into(),
        kind,
        required: true,
        default: None,
        prefix: None,
    };
    let duplicate = definition(
        InvocationBehavior::Run,
        RecipeProgram::Executable { name: "tool".into() },
        WorkingDirectory::ProjectRoot,
        vec![
            input("same", InputKind::Text),
            RecipeArgument::Switch { id: "same".into(), label: "Same".into(), value: "--same".into(), default: false },
        ],
    );
    assert_eq!(duplicate.validate(), Err(RecipeError::DuplicateParameterId("same".into())));

    let recipe = definition(
        InvocationBehavior::Run,
        RecipeProgram::Executable { name: "tool".into() },
        WorkingDirectory::ProjectRoot,
        vec![input("value", InputKind::Text)],
    );
    assert_eq!(
        resolve_recipe(&project, &recipe, &RuntimeInputs::new()).unwrap_err(),
        RecipeError::MissingRequiredInput("value".into())
    );
    assert_eq!(
        resolve_recipe(&project, &recipe, &inputs(vec![("other", RuntimeInput::Text("x".into()))])).unwrap_err(),
        RecipeError::UnknownInput("other".into())
    );
    assert_eq!(
        resolve_recipe(&project, &recipe, &inputs(vec![("value", RuntimeInput::Switch(true))])).unwrap_err(),
        RecipeError::InputKindMismatch { id: "value".into(), expected: "text" }
    );
}

#[test]
fn versions_programs_and_invocation_variants_fail_closed() {
    let mut recipe = definition(
        InvocationBehavior::Run,
        RecipeProgram::Interpreter { runner: Runner::Direct },
        WorkingDirectory::ProjectRoot,
        vec![],
    );
    assert_eq!(recipe.validate(), Err(RecipeError::DirectIsNotInterpreter));
    recipe.program = RecipeProgram::Executable { name: "bash -c".into() };
    assert_eq!(recipe.validate(), Err(RecipeError::InvalidExecutable("bash -c".into())));
    recipe.program = RecipeProgram::Executable { name: "tool".into() };
    recipe.version = 2;
    assert_eq!(recipe.validate(), Err(RecipeError::UnsupportedVersion(2)));
    assert_eq!(StoredInvocation::from_parts(None, None, None), Err(RecipeError::MissingInvocation));
    assert_eq!(
        StoredInvocation::from_parts(Some("run.sh".into()), None, Some(recipe.clone())),
        Err(RecipeError::MixedInvocation)
    );
    assert_eq!(
        StoredInvocation::from_parts(None, Some(Runner::Bash), None),
        Err(RecipeError::RunnerWithoutLegacyPath)
    );
}

#[test]
fn project_program_target_parent_and_arguments_resolve_in_order() {
    let recipe = definition(
        InvocationBehavior::Launch,
        RecipeProgram::ProjectFile { path: "scripts/triage.py".into() },
        WorkingDirectory::TargetParent,
        vec![
            RecipeArgument::Literal { value: "--mode".into() },
            RecipeArgument::Input {
                id: "sample".into(),
                label: "Sample".into(),
                kind: InputKind::File,
                required: true,
                default: None,
                prefix: Some("--input=".into()),
            },
            RecipeArgument::Switch { id: "verbose".into(), label: "Verbose".into(), value: "-v".into(), default: true },
        ],
    );
    let resolved = resolve_recipe(
        &project(),
        &recipe,
        &inputs(vec![("sample", RuntimeInput::File("/samples/a.bin".into()))]),
    )
    .unwrap();
    assert_eq!(resolved.program, ResolvedProgram::ProjectFile("/project/scripts/triage.py".into()));
    assert_eq!(resolved.cwd, "/project/scripts");
    assert_eq!(resolved.behavior, InvocationBehavior::Launch);
    assert!(resolved.argv.first().is_some_and(|a| a == "--mode"));
    assert!(resolved.argv.iter().any(|a| a == "-v"));
}

#[test]
fn fixed_project_paths_reject_symlink_escape() {
    let recipe = definition(
        InvocationBehavior::Run,
        RecipeProgram::Executable { name: "tool".into() },
        WorkingDirectory::ProjectRoot,
        vec![RecipeArgument::ProjectPath { path: "scripts/escape".into() }],
    );
    assert!(matches!(
        resolve_recipe(&project(), &recipe, &RuntimeInputs::new()),
        Err(RecipeError::ProjectEntry { .. })
    ));
    assert!(matches!(validate_recipe_for_project(&project(), &recipe), Err(RecipeError::ProjectEntry { .. })));
}

#[test]
fn interpreters_search_their_platform_candidates() {
    let recipe = definition(
        InvocationBehavior::Run,
        RecipeProgram::Interpreter { runner: Runner::Python },
        WorkingDirectory::ProjectRoot,
        vec![],
    );
    let resolved = resolve_recipe(&project(), &recipe, &RuntimeInputs::new()).unwrap();
    assert_eq!(
        resolved.program,
        ResolvedProgram::Interpreter { runner: Runner::Python, candidates: vec!["python3".into(), "python".into()] }
    );
    assert_eq!(Runner::Powershell.executable_candidates(Platform::Windows), vec!["powershell", "pwsh"]);
    assert_eq!(Runner::Direct.executable_candidates(Platform::Other), Vec::<String>::new());
    assert_eq!(Runner::Bash.as_str(), "bash");
    assert_eq!(Runner::from_name("sh"), Some(Runner::Sh));
    assert_eq!(Runner::from_name("fish"), None);
}

#[test]
fn runtime_inputs_keep_one_value_per_key() {
    let mut map = RuntimeInputs::new();
    assert_eq!(map.insert("b".into(), RuntimeInput::Text("1".into())), None);
    assert_eq!(map.insert("a".into(), RuntimeInput::Switch(false)), None);
    assert_eq!(map.insert("b".into(), RuntimeInput::Text("2".into())), Some(RuntimeInput::Text("1".into())));
    assert_eq!(map.len(), 2);
    assert_eq!(map.get("b"), Some(&RuntimeInput::Text("2".into())));
    assert_eq!(map.get("a"), Some(&RuntimeInput::Switch(false)));
    assert_eq!(map.get("c"), None);
    assert_eq!(map.entry(0).0, "a");
}

#[test]
fn recipe_errors_read_as_sentences() {
    assert_eq!(RecipeError::UnsupportedVersion(2).message(), "unsupported recipe version 2");
    assert_eq!(
        RecipeError::InvalidProjectPath { field: "program", value: "/x".into() }.message(),
        "invalid program project path '/x'"
    );
    assert_eq!(
        RecipeError::RuntimePath { id: "sample".into(), expected: InputKind::File }.message(),
        "runtime input 'sample' does not resolve to an existing file"
    );
    assert_eq!(
        RecipeError::ProjectEntry { path: "a".into(), expected: "a directory" }.message(),
        "project path 'a' is missing, escapes the project, or is not a directory"
    );
}
