use loadbot::catalog::{ResolvedTool, ToolConfig};
use loadbot::config::CatalogSource;
use loadbot::git::{RemoteRecoveryIncomplete, RepositoryStatus};
use loadbot::interaction::{begin_operation, finish_report, ErrorLayer, Notice, OperationError, OperationReport, OperationStatus};
use loadbot::launcher::ChildExit;
use loadbot::operations::{CatalogState, CatalogSummary, CatalogValidity, ToolSummary};
use loadbot::output::{catalog_row, repository_lines, Query, Renderer};
use loadbot::persistence::{Busy, DurabilityUncertain};
use loadbot::process::interactive::InteractiveExitStatus;
use loadbot::process::{Cancellation, Cancelled, CleanupIncomplete, TimedOut};

fn report(result: Result<(), OperationError>, notices: Vec<Notice>) -> OperationReport<()> {
    OperationReport { result, notices }
}

#[test]
fn status_prefers_incomplete_recovery_then_busy_then_cancelled() {
    assert_eq!(report(Ok(()), vec![]).status(), OperationStatus::Succeeded);
    let busy = OperationError::new(ErrorLayer::Busy(Busy { resource: "/cfg".to_owned() }));
    assert_eq!(report(Err(busy.clone()), vec![]).status(), OperationStatus::Busy);
    let cancelled = OperationError::new(ErrorLayer::Cancelled(Cancelled)).context("stopped".to_owned());
    assert_eq!(report(Err(cancelled), vec![]).status(), OperationStatus::Cancelled);
    let incomplete = busy.context("x".to_owned());
    let mut layers = incomplete.layers.clone();
    layers.push(ErrorLayer::RemoteRecoveryIncomplete(RemoteRecoveryIncomplete {
        path: "/repo".to_owned(),
        diagnostic: "d".to_owned(),
    }));
    assert_eq!(report(Err(OperationError { layers }), vec![]).status(), OperationStatus::Failed);
    assert_eq!(report(Err(OperationError::message("boom".to_owned())), vec![]).status(), OperationStatus::Failed);
}

#[test]
fn failures_after_completed_changes_are_partial() {
    let failure = OperationError::message("push failed".to_owned());
    assert!(!report(Ok(()), vec![Notice::CatalogCommitted { commit_hash: "abc".to_owned() }]).is_partial());
    assert!(report(Err(failure.clone()), vec![Notice::CatalogCommitted { commit_hash: "abc".to_owned() }]).is_partial());
    assert!(!report(Err(failure.clone()), vec![Notice::CatalogAlreadyCommitted]).is_partial());
    let uncertain = OperationError::new(ErrorLayer::DurabilityUncertain(DurabilityUncertain {
        path: "/cfg".to_owned(),
        diagnostic: "fsync".to_owned(),
    }));
    assert!(report(Err(uncertain), vec![]).is_partial());
    assert!(Notice::ToolUpdated { name: "a".into(), old_commit: "1".into(), new_commit: "2".into() }.completed_mutation());
    assert!(!Notice::ToolCurrent { name: "a".into(), new_commit: "2".into() }.completed_mutation());
}

#[test]
fn errors_print_every_layer_and_exit_with_the_program_status() {
    let exit = OperationError::new(ErrorLayer::ChildExit(ChildExit::new(-3, "/tools/run.sh".to_owned())))
        .context("launch failed".to_owned());
    assert_eq!(exit.text(), "launch failed: /tools/run.sh exited with status -3");
    assert_eq!(exit.exit_code(), -3);
    assert_eq!(OperationError::message("x".to_owned()).exit_code(), 1);
    let timed = OperationError::new(ErrorLayer::TimedOut(TimedOut(5)));
    assert_eq!(timed.text(), "process did not finish within 5 seconds");
    assert!(OperationError::new(ErrorLayer::CleanupIncomplete(CleanupIncomplete)).aborts_operation());
    assert!(!OperationError::new(ErrorLayer::CleanupIncomplete(CleanupIncomplete)).cleanup_is_safe());
    assert!(OperationError::message("x".to_owned()).cleanup_is_safe());
    assert_eq!(
        OperationError::new(ErrorLayer::Busy(Busy { resource: "/lb/config.toml".to_owned() })).text(),
        "/lb/config.toml is busy or changed while awaiting a decision; retry the operation"
    );
}

fn tool(installed: bool) -> ToolSummary {
    ToolSummary {
        tool: ResolvedTool {
            name: "demo".to_owned(),
            catalog: "personal".to_owned(),
            definition: ToolConfig::git("demo.git".to_owned(), None),
        },
        installed,
    }
}

#[test]
fn tools_are_listed_as_blocks_separated_by_blank_lines() {
    let mut renderer = Renderer::new(Query::General);
    let first = renderer.notice(&Notice::ToolInspected(tool(true)));
    assert_eq!(first.lines, vec!["demo", "  catalog  personal", "  type     git", "  state    installed"]);
    let second = renderer.notice(&Notice::ToolInspected(tool(false)));
    assert_eq!(second.lines, vec!["", "demo", "  catalog  personal", "  type     git", "  state    missing"]);
    assert!(!second.to_stderr);
}

#[test]
fn catalog_list_prints_one_header_and_tab_separated_rows() {
    let mut renderer = Renderer::new(Query::CatalogList);
    let source = CatalogSource::new("https://x/cat.git".to_owned(), true);
    let resolved = Notice::CatalogResolved { name: "personal".into(), path: "/lb/catalogs/personal".into(), source: source.clone() };
    assert_eq!(renderer.notice(&resolved).lines, vec!["NAME\tSTATE\tACCESS\tDEFAULT\tURL"]);
    assert!(renderer.notice(&resolved).lines.is_empty());
    let row = CatalogSummary { name: "personal".into(), source, state: CatalogState::Mismatch, default: true };
    assert_eq!(catalog_row(&row), "personal\tmismatch\twritable\tyes\thttps://x/cat.git");
    let mut general = Renderer::new(Query::General);
    assert_eq!(
        general.notice(&resolved).lines,
        vec!["Name: personal", "Path: /lb/catalogs/personal", "Catalog fetch URL: https://x/cat.git", "Writable: yes"]
    );
}

#[test]
fn progress_notices_read_as_single_lines() {
    let mut renderer = Renderer::new(Query::General);
    let synced = renderer.notice(&Notice::CatalogSynced {
        name: "personal".into(),
        old_commit: "abc".into(),
        new_commit: "def".into(),
    });
    assert_eq!(synced.lines, vec!["synchronized catalog 'personal' from abc to def"]);
    let skipped = renderer.notice(&Notice::SkippedCatalog { name: "team".into(), diagnostic: "missing".into() });
    assert_eq!(
        skipped.lines,
        vec!["warning: skipping catalog 'team': missing; run 'loadbot catalog status team' for details"]
    );
    assert!(skipped.to_stderr);
    let file = renderer.notice(&Notice::CatalogFileInspected(CatalogValidity::Invalid("bad".into())));
    assert_eq!(file.lines, vec!["Catalog file: invalid (bad)"]);
}

#[test]
fn repository_lines_fall_back_to_the_fetch_url_for_pushes() {
    let status = RepositoryStatus {
        branch: None,
        commit: Some("abc".into()),
        dirty: true,
        origin: Some("https://x/r.git".into()),
        push_url: None,
    };
    assert_eq!(
        repository_lines(&Some(status)),
        vec![
            "Current branch: (detached)",
            "Current commit: abc",
            "Working tree: dirty",
            "Fetch URL: https://x/r.git",
            "Push URL: https://x/r.git (uses fetch URL)",
        ]
    );
    assert_eq!(repository_lines(&None)[4], "Push URL: -");
}

#[test]
fn cancellation_is_shared_by_clones_and_exit_status_needs_code_zero() {
    let token = Cancellation::new();
    let clone = token.clone();
    assert!(token.check().is_ok());
    clone.cancel();
    assert!(token.is_cancelled());
    assert_eq!(token.check(), Err(Cancelled));
    assert!(InteractiveExitStatus { code: 0, signal: None }.success());
    assert!(!InteractiveExitStatus { code: 0, signal: Some("TERM".into()) }.success());
    assert!(!InteractiveExitStatus { code: 2, signal: None }.success());
}

#[test]
fn a_cancelled_operation_does_not_begin() {
    assert!(begin_operation(false).is_ok());
    let error = begin_operation(true).unwrap_err();
    assert_eq!(error.layers, vec![ErrorLayer::Cancelled(Cancelled)]);
    let report: OperationReport<()> = finish_report(Err(error), vec![], 0);
    assert_eq!(report.status(), OperationStatus::Cancelled);
    assert!(report.notices.is_empty());
}

#[test]
fn a_report_keeps_the_notices_since_its_start_also_on_failure() {
    let notices = vec![
        Notice::CatalogRegistered { name: "before".to_owned() },
        Notice::CatalogRegistered { name: "team".to_owned() },
        Notice::InitialCatalogUncommitted,
    ];
    let report: OperationReport<u32> = finish_report(Err(OperationError::message("boom".to_owned())), notices, 1);
    assert_eq!(report.notices.len(), 2);
    assert!(matches!(&report.notices[0], Notice::CatalogRegistered { name } if name == "team"));
    assert!(matches!(report.notices[1], Notice::InitialCatalogUncommitted));
    assert!(report.result.is_err());
    assert!(report.is_partial());

    let report: OperationReport<u32> = finish_report(Ok(7), vec![Notice::InitialCatalogNotPushed], 0);
    assert!(matches!(report.result, Ok(7)));
    assert_eq!(report.notices.len(), 1);
}
