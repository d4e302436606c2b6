use tedit::backend::Backend;

fn line(b: &Backend, i: usize) -> String {
    b.get_row(i).expect("row in range").iter().collect()
}

#[test]
fn construct_splits_on_line_feed() {
    let b = Backend::new("abc\nde".to_string());
    assert_eq!(b.row_length(), 2);
    assert_eq!(line(&b, 0), "abc");
    assert_eq!(line(&b, 1), "de");
}

#[test]
fn construct_empty_input_yields_one_empty_line() {
    let b = Backend::new(String::new());
    assert_eq!(b.row_length(), 1);
    assert_eq!(line(&b, 0), "");
}

#[test]
fn construct_strips_one_trailing_carriage_return() {
    let b = Backend::new("a\r\nb\r".to_string());
    assert_eq!(b.row_length(), 2);
    assert_eq!(line(&b, 0), "a");
    assert_eq!(line(&b, 1), "b");
}

#[test]
fn construct_strips_at_most_one_carriage_return() {
    let b = Backend::new("x\r\r\ny".to_string());
    assert_eq!(b.row_length(), 2);
    assert_eq!(line(&b, 0), "x\r");
    assert_eq!(line(&b, 1), "y");
}

#[test]
fn construct_line_count_is_one_more_than_line_feeds() {
    assert_eq!(Backend::new("\n\n".to_string()).row_length(), 3);
    assert_eq!(Backend::new("one".to_string()).row_length(), 1);
    assert_eq!(Backend::new("a\nb\nc\n".to_string()).row_length(), 4);
}

#[test]
fn get_row_out_of_range_is_none() {
    let b = Backend::new("abc".to_string());
    assert!(b.get_row(1).is_none());
}

#[test]
fn insert_at_column_zero_prepends() {
    let mut b = Backend::new("bc".to_string());
    b.insert(0, 0, 'a');
    assert_eq!(line(&b, 0), "abc");
}

#[test]
fn insert_in_the_middle_splices() {
    let mut b = Backend::new("ad".to_string());
    b.insert(0, 1, 'x');
    assert_eq!(line(&b, 0), "axd");
}

#[test]
fn insert_at_length_and_past_length_both_append() {
    let mut at_end = Backend::new("ab".to_string());
    at_end.insert(0, 2, 'z');
    let mut past_end = Backend::new("ab".to_string());
    past_end.insert(0, 99, 'z');
    assert_eq!(line(&at_end, 0), "abz");
    assert_eq!(line(&past_end, 0), line(&at_end, 0));
}

#[test]
fn insert_into_empty_line_ignores_column() {
    let mut b = Backend::new(String::new());
    b.insert(0, 5, 'x');
    assert_eq!(line(&b, 0), "x");
}

#[test]
fn insert_out_of_range_row_leaves_buffer_unchanged() {
    let mut b = Backend::new("abc\nde".to_string());
    b.insert(2, 0, 'x');
    assert_eq!(b.row_length(), 2);
    assert_eq!(line(&b, 0), "abc");
    assert_eq!(line(&b, 1), "de");
}

#[test]
fn insert_changes_no_other_row() {
    let mut b = Backend::new("abc\nde\nfgh".to_string());
    b.insert(1, 1, 'x');
    assert_eq!(line(&b, 0), "abc");
    assert_eq!(line(&b, 1), "dxe");
    assert_eq!(line(&b, 2), "fgh");
}
