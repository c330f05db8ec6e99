use tree_sitter_facade::{Error, Language, Node, Point, Query, Range};

fn span(start: u64, end: u64) -> Range {
    Range::new(Point::new(0, start), Point::new(0, end), start, end).unwrap()
}

fn leaf(kind: &str, start: u64, end: u64) -> Node {
    Node::new(String::from(kind), true, false, false, None, span(start, end), Vec::new())
}

fn sample_root() -> Node {
    let call = Node::new(String::from("call"), true, false, false, None, span(0, 6), vec![
        leaf("identifier", 0, 3),
        leaf("string", 4, 6),
    ]);
    Node::new(String::from("program"), true, false, false, None, span(0, 8), vec![
        call,
        leaf("identifier", 7, 8),
    ])
}

fn lang() -> Language {
    Language::new(1, 14)
}

#[test]
fn query_compiles_patterns_in_order() {
    let q = Query::new(&lang(), "(identifier) @id  (string) @s").unwrap();
    assert_eq!(q.pattern_count(), 2);
    let empty = Query::new(&lang(), "   ").unwrap();
    assert_eq!(empty.pattern_count(), 0);
}

#[test]
fn query_compile_errors_carry_offset_and_reason() {
    match Query::new(&lang(), "x").unwrap_err() {
        Error::QueryCompileError { offset, reason } => {
            assert_eq!(offset, 0);
            assert_eq!(reason, "expected '('");
        },
        _ => panic!("wrong error variant"),
    }
    match Query::new(&lang(), "() @x").unwrap_err() {
        Error::QueryCompileError { offset, reason } => {
            assert_eq!(offset, 1);
            assert_eq!(reason, "expected node kind");
        },
        _ => panic!("wrong error variant"),
    }
    match Query::new(&lang(), "(identifier").unwrap_err() {
        Error::QueryCompileError { offset, reason } => {
            assert_eq!(offset, 11);
            assert_eq!(reason, "expected ')'");
        },
        _ => panic!("wrong error variant"),
    }
    match Query::new(&lang(), "(a) x").unwrap_err() {
        Error::QueryCompileError { offset, reason } => {
            assert_eq!(offset, 4);
            assert_eq!(reason, "expected '@'");
        },
        _ => panic!("wrong error variant"),
    }
    match Query::new(&lang(), "(a) @").unwrap_err() {
        Error::QueryCompileError { offset, reason } => {
            assert_eq!(offset, 5);
            assert_eq!(reason, "expected capture name");
        },
        _ => panic!("wrong error variant"),
    }
}

#[test]
fn matches_run_in_preorder_with_declaration_order_ties() {
    let root = sample_root();
    let q = Query::new(&lang(), "(identifier) @id (call) @c").unwrap();
    let ms = q.matches(&root);
    // pre-order: program, call, identifier[0,3), string, identifier[7,8)
    assert_eq!(ms.len(), 3);
    assert_eq!(ms[0].pattern_index, 1);
    assert_eq!(ms[0].captures.len(), 1);
    assert_eq!(ms[0].captures[0].0, "c");
    assert_eq!(ms[0].captures[0].1.kind(), "call");
    assert_eq!(ms[1].pattern_index, 0);
    assert_eq!(ms[1].captures[0].0, "id");
    assert_eq!(ms[1].captures[0].1.range(), span(0, 3));
    assert_eq!(ms[2].pattern_index, 0);
    assert_eq!(ms[2].captures[0].1.range(), span(7, 8));
}

#[test]
fn equal_patterns_tie_break_by_lower_index_first() {
    let node = leaf("identifier", 0, 3);
    let q = Query::new(&lang(), "(identifier) @a (identifier) @b").unwrap();
    let ms = q.matches(&node);
    assert_eq!(ms.len(), 2);
    assert_eq!(ms[0].pattern_index, 0);
    assert_eq!(ms[0].captures[0].0, "a");
    assert_eq!(ms[1].pattern_index, 1);
    assert_eq!(ms[1].captures[0].0, "b");
}

#[test]
fn match_order_is_stable_across_runs() {
    let root = sample_root();
    let q = Query::new(&lang(), "(identifier) @id (call) @c").unwrap();
    let first = q.matches(&root);
    let second = q.matches(&root);
    assert_eq!(first.len(), second.len());
    for (a, b) in first.iter().zip(second.iter()) {
        assert_eq!(a.pattern_index, b.pattern_index);
        assert_eq!(a.captures.len(), b.captures.len());
        assert_eq!(a.captures[0].0, b.captures[0].0);
        assert_eq!(a.captures[0].1.kind(), b.captures[0].1.kind());
        assert_eq!(a.captures[0].1.range(), b.captures[0].1.range());
    }
}

#[test]
fn captures_flatten_one_row_per_capture() {
    let root = sample_root();
    let q = Query::new(&lang(), "(identifier) @id").unwrap();
    let rows = q.captures(&root);
    assert_eq!(rows.len(), 2);
    for (m, idx) in &rows {
        assert_eq!(*idx, 0);
        assert_eq!(m.captures[0].1.kind(), "identifier");
    }
}

#[test]
fn queries_do_not_match_missing_kinds() {
    let root = sample_root();
    let q = Query::new(&lang(), "(comment) @c").unwrap();
    assert!(q.matches(&root).is_empty());
}
