use tree_sitter_facade::{InputEdit, Node, Point, Range, Tree};

fn span(start: u64, end: u64) -> Range {
    Range::new(Point::new(0, start), Point::new(0, end), start, end).unwrap()
}

fn leaf(kind: &str, named: bool, start: u64, end: u64) -> Node {
    Node::new(String::from(kind), named, false, false, None, span(start, end), Vec::new())
}

fn field_leaf(kind: &str, field: &str, start: u64, end: u64) -> Node {
    Node::new(
        String::from(kind),
        true,
        false,
        false,
        Some(String::from(field)),
        span(start, end),
        Vec::new(),
    )
}

/// The tree for the source `"if (x) y"` under a grammar defining
/// `if (cond) then else` with an optional else clause.
fn if_statement_tree() -> Tree {
    let children = vec![
        leaf("if", false, 0, 2),
        leaf("(", false, 3, 4),
        field_leaf("identifier", "condition", 4, 5),
        leaf(")", false, 5, 6),
        field_leaf("expression", "then", 7, 8),
    ];
    let if_stmt = Node::new(
        String::from("if_statement"),
        true,
        false,
        false,
        None,
        span(0, 8),
        children,
    );
    let root = Node::new(String::from("program"), true, false, false, None, span(0, 8), vec![
        if_stmt,
    ]);
    Tree::new(root, true)
}

#[test]
fn if_without_else_parses_clean_and_lacks_the_field() {
    let tree = if_statement_tree();
    let root = tree.root_node();
    assert!(!root.has_error());
    assert_eq!(root.child_count(), 1);
    let if_stmt = root.child(0).unwrap();
    assert_eq!(if_stmt.kind(), "if_statement");
    assert!(!if_stmt.has_error());
    assert!(if_stmt.child_by_field_name("else").is_none());
    let cond = if_stmt.child_by_field_name("condition").unwrap();
    assert_eq!(cond.kind(), "identifier");
    let then = if_stmt.child_by_field_name("then").unwrap();
    assert_eq!(then.kind(), "expression");
}

#[test]
fn named_and_anonymous_children_index_separately() {
    let tree = if_statement_tree();
    let if_stmt = tree.root_node().child(0).unwrap();
    assert_eq!(if_stmt.child_count(), 5);
    assert_eq!(if_stmt.named_child_count(), 2);
    assert_eq!(if_stmt.named_child(0).unwrap().kind(), "identifier");
    assert_eq!(if_stmt.named_child(1).unwrap().kind(), "expression");
    assert!(if_stmt.named_child(2).is_none());
    assert!(if_stmt.child(5).is_none());
    // every child is anonymous or reachable through named-child indexing
    let mut named_seen = 0;
    for i in 0..if_stmt.child_count() {
        let c = if_stmt.child(i).unwrap();
        if c.is_named() {
            let via_named = if_stmt.named_child(named_seen).unwrap();
            assert_eq!(via_named.kind(), c.kind());
            assert_eq!(via_named.range(), c.range());
            named_seen += 1;
        }
    }
    assert_eq!(named_seen, 2);
}

#[test]
fn missing_and_error_flags_flow_up_but_stay_distinct() {
    let missing = Node::new(
        String::from("identifier"),
        true,
        true,
        false,
        None,
        span(5, 5),
        Vec::new(),
    );
    assert!(missing.is_missing());
    assert!(!missing.is_error());
    assert!(missing.has_error());
    let parent = Node::new(String::from("call"), true, false, false, None, span(0, 5), vec![
        missing,
    ]);
    assert!(!parent.is_error());
    assert!(parent.has_error());
    let clean = leaf("number", true, 0, 1);
    assert!(!clean.has_error());
    let marker = Node::new(String::from("ERROR"), true, false, true, None, span(0, 1), Vec::new());
    assert!(marker.is_error());
    assert!(marker.has_error());
}

#[test]
fn edit_before_a_node_leaves_it_alone() {
    // a one-character insertion at offset 3 of a ten-character source
    let lhs = leaf("lhs", true, 0, 3);
    let rhs = leaf("rhs", true, 4, 10);
    let root = Node::new(String::from("program"), true, false, false, None, span(0, 10), vec![
        lhs, rhs,
    ]);
    let mut tree = Tree::new(root, true);
    tree.edit(&InputEdit {
        start_offset: 3,
        old_end_offset: 3,
        new_end_offset: 4,
        start_point: Point::new(0, 3),
        old_end_point: Point::new(0, 3),
        new_end_point: Point::new(0, 4),
    });
    let root = tree.root_node();
    let lhs = root.child(0).unwrap();
    assert_eq!(lhs.range(), span(0, 3));
    let rhs = root.child(1).unwrap();
    assert_eq!(rhs.range(), span(5, 11));
    assert_eq!(root.range(), span(0, 11));
}

#[test]
fn changed_ranges_is_empty_iff_trees_agree() {
    let t1 = if_statement_tree();
    let t2 = if_statement_tree();
    assert_eq!(t1.changed_ranges(&t2), Vec::new());
    let mut t3 = if_statement_tree();
    t3.edit(&InputEdit {
        start_offset: 0,
        old_end_offset: 0,
        new_end_offset: 2,
        start_point: Point::new(0, 0),
        old_end_point: Point::new(0, 0),
        new_end_point: Point::new(0, 2),
    });
    let changed = t1.changed_ranges(&t3);
    assert_eq!(changed.len(), 1);
    // the hull covers every offset either tree spans
    assert_eq!(changed[0].start_offset, 0);
    assert_eq!(changed[0].end_offset, 10);
}

#[test]
fn trees_mark_completion() {
    let t = Tree::new(leaf("program", true, 0, 0), false);
    assert!(!t.is_completed());
    assert!(if_statement_tree().is_completed());
}

#[test]
fn cursor_walks_and_failed_moves_stay_put() {
    let tree = if_statement_tree();
    let root = tree.root_node();
    let mut cur = root.walk();
    assert_eq!(cur.node().kind(), "program");
    assert!(!cur.goto_parent());
    assert_eq!(cur.node().kind(), "program");
    assert!(cur.goto_first_child());
    assert_eq!(cur.node().kind(), "if_statement");
    assert!(!cur.goto_next_sibling());
    assert_eq!(cur.node().kind(), "if_statement");
    assert!(cur.goto_first_child());
    assert_eq!(cur.node().kind(), "if");
    assert!(cur.goto_next_sibling());
    assert_eq!(cur.node().kind(), "(");
    assert!(cur.goto_parent());
    assert_eq!(cur.node().kind(), "if_statement");
    assert!(cur.goto_parent());
    assert_eq!(cur.node().kind(), "program");
}

#[test]
fn cursor_descends_by_offset_and_point() {
    let tree = if_statement_tree();
    let root = tree.root_node();
    let if_stmt = root.child(0).unwrap();
    let mut cur = if_stmt.walk();
    assert!(cur.goto_first_child_for_offset(4));
    assert_eq!(cur.node().kind(), "identifier"); // the first child whose span holds offset 4
    let mut cur = if_stmt.walk();
    assert!(cur.goto_first_child_for_offset(7));
    assert_eq!(cur.node().kind(), "expression");
    let mut cur = if_stmt.walk();
    assert!(!cur.goto_first_child_for_offset(6)); // a gap: no child covers it
    assert_eq!(cur.node().kind(), "if_statement");
    let mut cur = if_stmt.walk();
    assert!(cur.goto_first_child_for_point(&Point::new(0, 4)));
    assert_eq!(cur.node().kind(), "identifier");
}
