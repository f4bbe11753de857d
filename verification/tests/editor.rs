use edit::editor::{validate_goto_point, Point, SearchAction};

#[test]
fn a_line_alone_goes_to_its_start() {
    assert_eq!(validate_goto_point(b"5"), Some(Point { x: -1, y: 4 }));
    assert_eq!(validate_goto_point(b"1"), Some(Point { x: -1, y: 0 }));
}

#[test]
fn a_line_and_a_column_count_from_one() {
    assert_eq!(validate_goto_point(b"3:7"), Some(Point { x: 6, y: 2 }));
    assert_eq!(validate_goto_point(b"1:1"), Some(Point { x: 0, y: 0 }));
    assert_eq!(validate_goto_point(b"0:0"), Some(Point { x: -1, y: -1 }));
    assert_eq!(validate_goto_point(b"+12:+034"), Some(Point { x: 33, y: 11 }));
    assert_eq!(validate_goto_point(b"-2:-3"), Some(Point { x: -4, y: -3 }));
}

#[test]
fn numbers_at_the_limits_of_isize() {
    let top = format!("{}:{}", isize::MAX, isize::MIN);
    assert_eq!(
        validate_goto_point(top.as_bytes()),
        Some(Point { x: isize::MIN, y: isize::MAX - 1 })
    );
    let over = format!("{}0", isize::MAX);
    assert_eq!(validate_goto_point(over.as_bytes()), None);
    let under = format!("1:{}0", isize::MIN);
    assert_eq!(validate_goto_point(under.as_bytes()), None);
}

#[test]
fn texts_that_name_no_place() {
    assert_eq!(validate_goto_point(b""), None);
    assert_eq!(validate_goto_point(b":"), None);
    assert_eq!(validate_goto_point(b"1:"), None);
    assert_eq!(validate_goto_point(b":1"), None);
    assert_eq!(validate_goto_point(b"1:2:3"), None);
    assert_eq!(validate_goto_point(b"one"), None);
    assert_eq!(validate_goto_point(b" 1"), None);
    assert_eq!(validate_goto_point(b"1 "), None);
    assert_eq!(validate_goto_point(b"-"), None);
    assert_eq!(validate_goto_point(b"+:1"), None);
    assert_eq!(validate_goto_point(b"1.5"), None);
}

#[test]
fn search_actions_are_told_apart() {
    assert_ne!(SearchAction::Search, SearchAction::Replace);
    assert_ne!(SearchAction::Replace, SearchAction::ReplaceAll);
    assert_eq!(SearchAction::ReplaceAll, SearchAction::ReplaceAll);
}
