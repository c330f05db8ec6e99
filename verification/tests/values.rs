use tree_sitter_facade::{Error, InputEdit, Language, LogKind, Logger, Point, Range};

#[test]
fn point_ordering_is_lexicographic() {
    let a = Point::new(1, 2);
    let b = Point::new(2, 0);
    let c = Point::new(1, 5);
    assert!(a.lt(&b));
    assert!(a.le(&b));
    assert!(a.lt(&c));
    assert!(!c.lt(&a));
    assert!(a.le(&Point::new(1, 2)));
    assert!(!a.lt(&Point::new(1, 2)));
    assert_eq!(a, Point::new(1, 2));
}

#[test]
fn range_construction_checks_ordering() {
    let r = Range::new(Point::new(0, 0), Point::new(0, 5), 0, 5).unwrap();
    assert_eq!(r.start_offset, 0);
    assert_eq!(r.end_offset, 5);
    assert!(Range::new(Point::new(0, 5), Point::new(0, 0), 5, 0).is_none());
    assert!(Range::new(Point::new(0, 0), Point::new(0, 5), 5, 0).is_none());
}

#[test]
fn range_containment_is_half_open() {
    let r = Range::new(Point::new(0, 2), Point::new(0, 6), 2, 6).unwrap();
    assert!(!r.contains_offset(1));
    assert!(r.contains_offset(2));
    assert!(r.contains_offset(5));
    assert!(!r.contains_offset(6));
    assert!(r.contains_point(&Point::new(0, 2)));
    assert!(!r.contains_point(&Point::new(0, 6)));
}

fn insertion_at_3() -> InputEdit {
    InputEdit {
        start_offset: 3,
        old_end_offset: 3,
        new_end_offset: 4,
        start_point: Point::new(0, 3),
        old_end_point: Point::new(0, 3),
        new_end_point: Point::new(0, 4),
    }
}

#[test]
fn insertion_moves_only_later_offsets() {
    let e = insertion_at_3();
    assert_eq!(e.adjust_offset(0), 0);
    assert_eq!(e.adjust_offset(2), 2);
    assert_eq!(e.adjust_offset(3), 3);
    assert_eq!(e.adjust_offset(4), 5);
    assert_eq!(e.adjust_offset(10), 11);
}

#[test]
fn insertion_moves_only_later_points() {
    let e = insertion_at_3();
    assert_eq!(e.adjust_point(&Point::new(0, 2)), Point::new(0, 2));
    assert_eq!(e.adjust_point(&Point::new(0, 3)), Point::new(0, 3));
    assert_eq!(e.adjust_point(&Point::new(0, 7)), Point::new(0, 8));
    assert_eq!(e.adjust_point(&Point::new(2, 1)), Point::new(2, 1));
}

#[test]
fn replacement_collapses_interior_positions() {
    let e = InputEdit {
        start_offset: 2,
        old_end_offset: 8,
        new_end_offset: 5,
        start_point: Point::new(0, 2),
        old_end_point: Point::new(0, 8),
        new_end_point: Point::new(0, 5),
    };
    assert_eq!(e.adjust_offset(4), 5);
    assert_eq!(e.adjust_offset(8), 5);
    assert_eq!(e.adjust_offset(9), 6);
    assert_eq!(e.adjust_offset(2), 2);
}

#[test]
fn impossible_edit_is_total_not_panicking() {
    let e = InputEdit {
        start_offset: 5,
        old_end_offset: 2,
        new_end_offset: u64::MAX,
        start_point: Point::new(0, 5),
        old_end_point: Point::new(0, 2),
        new_end_point: Point::new(0, 0),
    };
    assert_eq!(e.adjust_offset(7), u64::MAX);
}

#[test]
fn language_compatibility_tracks_abi_window() {
    assert!(Language::new(1, 13).is_compatible());
    assert!(Language::new(1, 14).is_compatible());
    assert!(!Language::new(1, 12).is_compatible());
    assert!(!Language::new(1, 15).is_compatible());
    let l = Language::new(7, 14);
    assert_eq!(l.grammar_id(), 7);
    assert_eq!(l.abi_version(), 14);
    assert_eq!(l, Language::new(7, 14));
    assert_ne!(l, Language::new(8, 14));
}

#[test]
fn logger_records_in_order() {
    let mut log = Logger::new();
    assert_eq!(log.len(), 0);
    log.record(LogKind::Parse, String::from("reduce"));
    log.record(LogKind::Lex, String::from("shift"));
    assert_eq!(log.len(), 2);
    assert_eq!(log.entry(0).kind, LogKind::Parse);
    assert_eq!(log.entry(0).message, "reduce");
    assert_eq!(log.entry(1).kind, LogKind::Lex);
}

#[test]
fn error_variants_are_distinguishable() {
    let e = Error::QueryCompileError { offset: 4, reason: String::from("expected '('") };
    assert!(matches!(e, Error::QueryCompileError { offset: 4, .. }));
    assert!(matches!(Error::Timeout, Error::Timeout));
    assert!(matches!(Error::Cancelled, Error::Cancelled));
}
