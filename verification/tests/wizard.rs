use std::collections::VecDeque;

use loadbot::interaction::OperationError;
use loadbot::interactive::{CatalogAddInput, CatalogInitializeInput, ToolAddInput};
use loadbot::wizard::{
    collect_catalog_add, collect_catalog_initialize, collect_tool_add, Question, Reply, Step, Wizard, WizardOutput,
};

#[derive(Default)]
struct Script {
    inputs: VecDeque<Option<String>>,
    confirmations: VecDeque<Option<bool>>,
    selections: VecDeque<Option<String>>,
    messages: Vec<String>,
    selection_requests: Vec<(String, Vec<String>)>,
}

fn drive(start: (Wizard, Step), script: &mut Script) -> Result<Option<WizardOutput>, OperationError> {
    let (mut wizard, mut step) = start;
    loop {
        let reply = match step {
            Step::Finish(result) => return result,
            Step::Ask(Question::Input { .. }) => Reply::Text(script.inputs.pop_front().flatten()),
            Step::Ask(Question::Confirm { .. }) => Reply::Decision(script.confirmations.pop_front().flatten()),
            Step::Ask(Question::Select { label, choices }) => {
                script.selection_requests.push((label, choices));
                Reply::Choice(script.selections.pop_front().flatten())
            }
            Step::Ask(Question::Message(message)) => {
                script.messages.push(message);
                Reply::Shown
            }
        };
        (wizard, step) = wizard.reply(reply);
    }
}

fn texts(values: &[&str]) -> VecDeque<Option<String>> {
    values.iter().map(|value| Some((*value).to_owned())).collect()
}

#[test]
fn catalog_flow_is_mockable_and_cancellable() {
    let mut script = Script {
        inputs: texts(&["personal", "local.git"]),
        confirmations: [Some(true)].into(),
        ..Script::default()
    };
    let input = drive(collect_catalog_add(None, None, true), &mut script).unwrap().unwrap();
    let WizardOutput::CatalogAdd(input) = input else { panic!("wrong output") };
    assert_eq!(input.name, "personal");
    assert!(input.writable);

    let mut cancelled = Script { inputs: [None].into(), ..Script::default() };
    assert!(drive(collect_catalog_add(None, None, false), &mut cancelled).unwrap().is_none());
}

#[test]
fn catalog_initialize_collects_separate_commit_and_push_choices() {
    let mut script = Script {
        inputs: texts(&["new", "new.git"]),
        confirmations: [Some(true), Some(true), Some(true), Some(false)].into(),
        ..Script::default()
    };
    let output = drive(collect_catalog_initialize(), &mut script).unwrap().unwrap();
    let WizardOutput::CatalogInitialize(input) = output else { panic!("wrong output") };
    assert!(input.catalog.writable);
    assert!(input.commit);
    assert!(!input.push);
    assert!(script
        .messages
        .iter()
        .any(|message| message.contains("will not commit or push unless you confirm each action")));
}

#[test]
fn catalog_initialize_cancellation_returns_before_any_operation() {
    let mut proceed_refused = Script {
        inputs: texts(&["new", "new.git"]),
        confirmations: [Some(true), Some(false)].into(),
        ..Script::default()
    };
    assert!(drive(collect_catalog_initialize(), &mut proceed_refused).unwrap().is_none());

    let mut commit_cancelled = Script {
        inputs: texts(&["new", "new.git"]),
        confirmations: [Some(true), Some(true), None].into(),
        ..Script::default()
    };
    assert!(drive(collect_catalog_initialize(), &mut commit_cancelled).unwrap().is_none());

    let mut push_cancelled = Script {
        inputs: texts(&["new", "new.git"]),
        confirmations: [Some(true), Some(true), Some(true), None].into(),
        ..Script::default()
    };
    assert!(drive(collect_catalog_initialize(), &mut push_cancelled).unwrap().is_none());
}

#[test]
fn tool_flow_collects_catalog_commit_and_push_choices() {
    let mut script = Script {
        inputs: [Some("demo".to_owned()), Some("demo.git".to_owned()), Some(String::new())].into(),
        confirmations: [Some(true), Some(true), Some(false)].into(),
        selections: [Some("personal".to_owned())].into(),
        ..Script::default()
    };
    let output = drive(
        collect_tool_add(None, None, None, None, vec!["personal".to_owned()], false, false),
        &mut script,
    )
    .unwrap()
    .unwrap();
    assert_eq!(
        output,
        WizardOutput::ToolAdd(ToolAddInput {
            name: "demo".to_owned(),
            url: "demo.git".to_owned(),
            revision: None,
            catalog: "personal".to_owned(),
            commit: true,
            push: false,
        })
    );
    assert_eq!(script.selection_requests[0].0, "Select a writable catalog:\n");
}

#[test]
fn invalid_names_and_empty_urls_are_asked_again() {
    let mut script = Script {
        inputs: texts(&["bad name", "team", "", "team.git"]),
        confirmations: [Some(false), Some(true)].into(),
        ..Script::default()
    };
    let output = drive(collect_catalog_add(None, None, false), &mut script).unwrap().unwrap();
    assert_eq!(
        output,
        WizardOutput::CatalogAdd(CatalogAddInput { name: "team".to_owned(), url: "team.git".to_owned(), writable: false })
    );
    assert_eq!(
        script.messages,
        vec![
            "invalid tool name 'bad name': use only ASCII letters, numbers, '_', '-', and '.'".to_owned(),
            "Git URL must not be empty.".to_owned(),
            "\nAdd this catalog?\n\n  Name:      team\n  URL:       team.git\n  Writable:  no\n".to_owned(),
        ]
    );
}

#[test]
fn supplied_values_are_checked_and_not_asked() {
    let error = drive(collect_catalog_add(Some("../x".to_owned()), None, true), &mut Script::default()).unwrap_err();
    assert!(error.text().starts_with("invalid tool name '../x'"));
    let error = drive(collect_catalog_add(Some("team".to_owned()), Some(String::new()), true), &mut Script::default())
        .unwrap_err();
    assert_eq!(error.text(), "Git URL must not be empty");
    let error = drive(
        collect_tool_add(Some("demo".to_owned()), Some("demo.git".to_owned()), Some("main".to_owned()), None, vec![], true, true),
        &mut Script::default(),
    )
    .unwrap_err();
    assert_eq!(error.text(), "No writable catalogs are configured.\nRun 'loadbot catalog add' to add one.");
    let error = drive(
        collect_tool_add(
            Some("demo".to_owned()),
            Some("demo.git".to_owned()),
            Some("main".to_owned()),
            Some("other".to_owned()),
            vec!["personal".to_owned()],
            true,
            true,
        ),
        &mut Script::default(),
    )
    .unwrap_err();
    assert_eq!(error.text(), "catalog 'other' is not configured as writable");
}

#[test]
fn tool_defaults_commit_and_push_without_asking() {
    let mut script = Script { confirmations: [Some(true)].into(), ..Script::default() };
    let output = drive(
        collect_tool_add(
            Some("demo".to_owned()),
            Some("demo.git".to_owned()),
            Some("main".to_owned()),
            Some("personal".to_owned()),
            vec!["personal".to_owned()],
            true,
            true,
        ),
        &mut script,
    )
    .unwrap()
    .unwrap();
    assert_eq!(
        output,
        WizardOutput::ToolAdd(ToolAddInput {
            name: "demo".to_owned(),
            url: "demo.git".to_owned(),
            revision: Some("main".to_owned()),
            catalog: "personal".to_owned(),
            commit: true,
            push: true,
        })
    );
    assert_eq!(
        script.messages,
        vec!["\nAdd this tool?\n\n  Name:      demo\n  URL:       demo.git\n  Revision:  main\n  Catalog:   personal\n".to_owned()]
    );
}

#[test]
fn initialized_catalogs_must_be_writable() {
    let mut script = Script {
        inputs: texts(&["new", "new.git"]),
        confirmations: [Some(false)].into(),
        ..Script::default()
    };
    let error = drive(collect_catalog_initialize(), &mut script).unwrap_err();
    assert_eq!(error.text(), "a catalog initialized by Loadbot must be writable");
    let mut ok = Script {
        inputs: texts(&["new", "new.git"]),
        confirmations: [Some(true), Some(true), Some(false)].into(),
        ..Script::default()
    };
    assert_eq!(
        drive(collect_catalog_initialize(), &mut ok).unwrap().unwrap(),
        WizardOutput::CatalogInitialize(CatalogInitializeInput {
            catalog: CatalogAddInput { name: "new".to_owned(), url: "new.git".to_owned(), writable: true },
            commit: false,
            push: false,
        })
    );
}
