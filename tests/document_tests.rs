use tedit::{Document, Position};

fn lines(doc: &Document) -> Vec<String> {
    (0..doc.len())
        .map(|i| String::from_utf8(doc.row(i).unwrap().as_bytes().to_vec()).unwrap())
        .collect()
}

fn at(x: usize, y: usize) -> Position {
    Position { x, y }
}

#[test]
fn open_splits_lines() {
    let doc = Document::open("f.txt", "one\ntwo\r\nthree");
    assert_eq!(lines(&doc), vec!["one", "two", "three"]);
    assert!(!doc.is_dirty());
    assert_eq!(doc.file_name.as_deref(), Some("f.txt"));
}

#[test]
fn open_final_terminator_adds_no_line() {
    let doc = Document::open("f", "a\nb\n");
    assert_eq!(lines(&doc), vec!["a", "b"]);
}

#[test]
fn open_keeps_inner_empty_lines() {
    let doc = Document::open("f", "a\n\n\nb");
    assert_eq!(lines(&doc), vec!["a", "", "", "b"]);
}

#[test]
fn open_empty_text() {
    let doc = Document::open("f", "");
    assert!(doc.is_empty());
    assert_eq!(doc.len(), 0);
    let doc = Document::open("f", "\n");
    assert_eq!(lines(&doc), vec![""]);
}

#[test]
fn open_keeps_lone_carriage_return_at_end() {
    let doc = Document::open("f", "a\r");
    assert_eq!(lines(&doc), vec!["a\r"]);
}

#[test]
fn insert_into_line() {
    let mut doc = Document::open("f", "ac");
    doc.insert(&at(1, 0), 'b');
    assert_eq!(lines(&doc), vec!["abc"]);
    assert!(doc.is_dirty());
}

#[test]
fn insert_on_line_past_end_appends_line() {
    let mut doc = Document::default();
    doc.insert(&at(0, 0), 'x');
    assert_eq!(lines(&doc), vec!["x"]);
    assert!(doc.is_dirty());
}

#[test]
fn insert_beyond_line_past_end_is_noop() {
    let mut doc = Document::open("f", "a");
    doc.insert(&at(0, 2), 'x');
    assert_eq!(lines(&doc), vec!["a"]);
    assert!(!doc.is_dirty());
}

#[test]
fn newline_at_end_of_line_adds_empty_line() {
    let mut doc = Document::open("f", "ab\ncd");
    doc.insert(&at(2, 0), '\n');
    assert_eq!(lines(&doc), vec!["ab", "", "cd"]);
    assert!(doc.is_dirty());
}

#[test]
fn newline_in_middle_splits_line() {
    let mut doc = Document::open("f", "abcd\nz");
    doc.insert(&at(1, 0), '\n');
    assert_eq!(lines(&doc), vec!["a", "bcd", "z"]);
}

#[test]
fn newline_on_line_past_end_is_noop() {
    let mut doc = Document::open("f", "ab");
    doc.insert(&at(0, 1), '\n');
    assert_eq!(lines(&doc), vec!["ab"]);
    assert!(!doc.is_dirty());
}

#[test]
fn insert_newline_direct() {
    let mut doc = Document::open("f", "xy");
    doc.insert_newline(&at(1, 0));
    assert_eq!(lines(&doc), vec!["x", "y"]);
    doc.insert_newline(&at(0, 5));
    assert_eq!(lines(&doc), vec!["x", "y"]);
}

#[test]
fn delete_at_end_of_only_line_is_noop() {
    let mut doc = Document::open("f", "hello");
    doc.delete(&at(5, 0));
    assert_eq!(lines(&doc), vec!["hello"]);
    assert!(!doc.is_dirty());
}

#[test]
fn delete_at_end_of_line_merges_next() {
    let mut doc = Document::open("f", "foo\nbar");
    doc.delete(&at(3, 0));
    assert_eq!(lines(&doc), vec!["foobar"]);
    assert_eq!(doc.len(), 1);
    assert!(doc.is_dirty());
}

#[test]
fn delete_inside_line() {
    let mut doc = Document::open("f", "abc\nd");
    doc.delete(&at(1, 0));
    assert_eq!(lines(&doc), vec!["ac", "d"]);
}

#[test]
fn delete_past_last_line_is_noop() {
    let mut doc = Document::open("f", "abc");
    doc.delete(&at(0, 1));
    doc.delete(&at(0, 9));
    assert_eq!(lines(&doc), vec!["abc"]);
    assert!(!doc.is_dirty());
}

#[test]
fn newline_then_merge_restores() {
    let mut doc = Document::open("f", "hello\nworld");
    doc.insert(&at(2, 0), '\n');
    assert_eq!(doc.len(), 3);
    let end = doc.row(0).unwrap().len();
    doc.delete(&at(end, 0));
    assert_eq!(lines(&doc), vec!["hello", "world"]);
}

#[test]
fn save_without_file_writes_nothing() {
    let doc = Document::default();
    assert!(doc.save_contents().is_none());
    assert!(!doc.is_dirty());
}

#[test]
fn save_contents_end_each_line() {
    let mut doc = Document::open("f", "a\r\nb");
    doc.insert(&at(1, 1), 'c');
    assert_eq!(doc.contents(), "a\nbc\n");
    assert_eq!(doc.save_contents(), Some("a\nbc\n".to_string()));
    doc.mark_saved();
    assert!(!doc.is_dirty());
}

#[test]
fn set_file_name_binds_file() {
    let mut doc = Document::default();
    doc.set_file_name("new.txt".to_string());
    assert_eq!(doc.save_contents(), Some(String::new()));
}

#[test]
fn row_out_of_range_is_none() {
    let doc = Document::open("f", "a");
    assert!(doc.row(0).is_some());
    assert!(doc.row(1).is_none());
}
