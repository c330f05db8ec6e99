use tree_sitter_facade::{
    Error, Language, Node, ParseOutcome, Parser, Point, Range, Task,
};
use tree_sitter_facade::tasks;

fn span(start: u64, end: u64) -> Range {
    Range::new(Point::new(0, start), Point::new(0, end), start, end).unwrap()
}

fn leaf(kind: &str, start: u64, end: u64) -> Node {
    Node::new(String::from(kind), true, false, false, None, span(start, end), Vec::new())
}

fn configured_parser() -> Parser {
    let mut p = Parser::new(true).unwrap();
    p.set_language(&Language::new(1, 14)).unwrap();
    p
}

#[test]
fn parser_construction_requires_backend_readiness() {
    assert!(Parser::new(true).is_ok());
    assert!(matches!(Parser::new(false), Err(Error::BackendNotReady)));
}

#[test]
fn set_language_checks_the_abi_window() {
    let mut p = Parser::new(true).unwrap();
    assert!(matches!(p.set_language(&Language::new(1, 12)), Err(Error::LanguageMismatch)));
    assert!(p.language().is_none());
    assert!(p.set_language(&Language::new(1, 13)).is_ok());
    assert_eq!(p.language(), Some(Language::new(1, 13)));
}

#[test]
fn set_language_resets_included_ranges() {
    let mut p = configured_parser();
    p.set_included_ranges(&vec![span(0, 4), span(5, 9)]).unwrap();
    assert_eq!(p.included_ranges().len(), 2);
    p.set_language(&Language::new(2, 14)).unwrap();
    assert!(p.included_ranges().is_empty());
}

#[test]
fn included_ranges_must_be_ordered_and_disjoint() {
    let mut p = configured_parser();
    assert!(p.set_included_ranges(&Vec::new()).is_ok());
    assert!(p.set_included_ranges(&vec![span(0, 4), span(4, 9)]).is_ok());
    assert!(matches!(
        p.set_included_ranges(&vec![span(0, 5), span(4, 9)]),
        Err(Error::InvalidIncludedRanges)
    ));
    assert!(matches!(
        p.set_included_ranges(&vec![span(5, 9), span(0, 4)]),
        Err(Error::InvalidIncludedRanges)
    ));
    // a rejection leaves the previous configuration standing
    assert_eq!(p.included_ranges().len(), 2);
}

#[test]
fn parse_normalizes_engine_outcomes() {
    let mut p = configured_parser();
    let t = p.parse(ParseOutcome::Completed { root: leaf("program", 0, 3) }).unwrap();
    assert!(t.is_completed());
    assert_eq!(t.root_node().kind(), "program");

    p.set_timeout_micros(Some(1000));
    assert_eq!(p.timeout_micros(), Some(1000));
    let partial = p
        .parse(ParseOutcome::TimedOut { partial: Some(leaf("program", 0, 1)) })
        .unwrap();
    assert!(!partial.is_completed());
    assert!(matches!(
        p.parse(ParseOutcome::TimedOut { partial: None }),
        Err(Error::Timeout)
    ));

    p.set_cancellation_requested(true);
    assert!(matches!(p.parse(ParseOutcome::Cancelled), Err(Error::Cancelled)));
    assert!(matches!(p.parse(ParseOutcome::RejectedEdits), Err(Error::InvalidEdit)));
}

#[test]
fn cargo_is_the_wrapper_name() {
    assert_eq!(tasks::cargo(), "cargo");
}

#[test]
fn project_root_is_the_manifest_parent() {
    assert_eq!(tasks::project_root("repo/crates/xtask"), "repo/crates");
    assert_eq!(tasks::project_root("/xtask"), "");
    assert_eq!(tasks::project_root("xtask"), "");
}

#[test]
fn subcommand_names_map_to_tasks() {
    assert_eq!(tasks::task_for_name("build"), Some(Task::Build));
    assert_eq!(tasks::task_for_name("check"), Some(Task::Check));
    assert_eq!(tasks::task_for_name("clippy"), Some(Task::Clippy));
    assert_eq!(tasks::task_for_name("doc"), Some(Task::Doc));
    assert_eq!(tasks::task_for_name("format"), Some(Task::Format));
    assert_eq!(tasks::task_for_name("init"), Some(Task::Init));
    assert_eq!(tasks::task_for_name("install"), Some(Task::Install));
    assert_eq!(tasks::task_for_name("test"), Some(Task::Test));
    assert_eq!(tasks::task_for_name("udeps"), Some(Task::Udeps));
    assert_eq!(tasks::task_for_name("lint"), None);
}

#[test]
fn each_task_has_its_cargo_arguments() {
    assert_eq!(
        tasks::cargo_args(&Task::Build),
        vec!["build", "--package", "tree-sitter-facade"]
    );
    assert_eq!(
        tasks::cargo_args(&Task::Test),
        vec![
            "test",
            "--examples",
            "--lib",
            "--tests",
            "--package",
            "xtask",
            "--package",
            "tree-sitter-facade"
        ]
    );
    assert_eq!(tasks::cargo_args(&Task::Doc), vec!["+nightly", "doc"]);
    assert!(tasks::cargo_args(&Task::Init).is_empty());
    assert!(tasks::sets_deny_warnings(&Task::Check));
    assert!(tasks::sets_deny_warnings(&Task::Test));
    assert!(!tasks::sets_deny_warnings(&Task::Build));
    assert_eq!(tasks::trailing_args(&Task::Clippy), vec!["--", "-D", "warnings"]);
    assert!(tasks::trailing_args(&Task::Doc).is_empty());
}

#[test]
fn unused_arguments_are_reported_verbatim() {
    assert!(tasks::unused_args_message(&Vec::new()).is_none());
    let msg = tasks::unused_args_message(&vec![String::from("--foo"), String::from("bar")])
        .unwrap();
    assert_eq!(msg, "unrecognized arguments ' --foo bar'");
    assert_eq!(tasks::unknown_subcommand_message("zap"), "unknown subcommand: zap");
}
