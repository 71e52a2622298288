use tedit::Row;

fn text(row: &Row) -> String {
    String::from_utf8(row.as_bytes().to_vec()).unwrap()
}

#[test]
fn from_counts_clusters() {
    let row = Row::from("hello");
    assert_eq!(row.len(), 5);
    assert!(!row.is_empty());
    assert_eq!(text(&row), "hello");
}

#[test]
fn combining_marks_form_one_cluster() {
    let row = Row::from("a\u{310}e\u{301}o");
    assert_eq!(row.len(), 3);
    assert_eq!(row.render(1, 2), "e\u{301}");
}

#[test]
fn crlf_is_one_cluster() {
    let row = Row::from("a\r\nb");
    assert_eq!(row.len(), 3);
}

#[test]
fn empty_row() {
    let row = Row::default();
    assert_eq!(row.len(), 0);
    assert!(row.is_empty());
    assert_eq!(row.render(0, 10), "");
}

#[test]
fn render_expands_tabs() {
    let row = Row::from("a\tb");
    assert_eq!(row.render(0, 10), "a  b");
}

#[test]
fn render_clamps_window() {
    let row = Row::from("abcdef");
    assert_eq!(row.render(2, 4), "cd");
    assert_eq!(row.render(4, 100), "ef");
    assert_eq!(row.render(5, 3), "");
    assert_eq!(row.render(6, 10), "");
    assert_eq!(row.render(100, 200), "");
}

#[test]
fn insert_in_middle() {
    let mut row = Row::from("ac");
    row.insert(1, 'b');
    assert_eq!(text(&row), "abc");
    assert_eq!(row.len(), 3);
}

#[test]
fn insert_past_end_appends() {
    let mut row = Row::from("ab");
    row.insert(10, 'c');
    assert_eq!(text(&row), "abc");
    row.insert(0, 'x');
    assert_eq!(text(&row), "xabc");
}

#[test]
fn insert_after_multibyte_cluster() {
    let mut row = Row::from("e\u{301}x");
    row.insert(1, 'y');
    assert_eq!(text(&row), "e\u{301}yx");
    assert_eq!(row.len(), 3);
}

#[test]
fn delete_cluster() {
    let mut row = Row::from("a\u{310}bc");
    row.delete(0);
    assert_eq!(text(&row), "bc");
    row.delete(1);
    assert_eq!(text(&row), "b");
    assert_eq!(row.len(), 1);
}

#[test]
fn delete_past_end_is_noop() {
    let mut row = Row::from("abc");
    row.delete(3);
    row.delete(50);
    assert_eq!(text(&row), "abc");
}

#[test]
fn insert_then_delete_restores() {
    for i in 0..=4 {
        let mut row = Row::from("t\u{e9}st");
        row.insert(i, 'Z');
        row.delete(i);
        assert_eq!(text(&row), "t\u{e9}st");
    }
}

#[test]
fn split_then_append_restores() {
    for at in 0..=5 {
        let mut row = Row::from("he\u{301}llo");
        let tail = row.split(at);
        assert_eq!(row.len() + tail.len(), 5);
        row.append(&tail);
        assert_eq!(text(&row), "he\u{301}llo");
    }
}

#[test]
fn split_in_middle() {
    let mut row = Row::from("abcd");
    let tail = row.split(1);
    assert_eq!(text(&row), "a");
    assert_eq!(text(&tail), "bcd");
    assert_eq!(tail.len(), 3);
}

#[test]
fn split_past_end_leaves_empty_tail() {
    let mut row = Row::from("ab");
    let tail = row.split(7);
    assert_eq!(text(&row), "ab");
    assert!(tail.is_empty());
}

#[test]
fn append_joins_text() {
    let mut row = Row::from("foo");
    row.append(&Row::from("bar"));
    assert_eq!(text(&row), "foobar");
    assert_eq!(row.len(), 6);
}

#[test]
fn update_len_keeps_count() {
    let mut row = Row::from("xyz");
    row.update_len();
    assert_eq!(row.len(), 3);
}

#[test]
fn as_bytes_is_utf8() {
    let row = Row::from("\u{e9}");
    assert_eq!(row.as_bytes(), &[0xc3, 0xa9]);
}

#[test]
fn delete_inside_line_shortens_text() {
    let mut row = Row::from("x\u{e9}\u{301}y");
    let before = row.as_bytes().len();
    row.delete(1);
    assert!(row.as_bytes().len() < before);
    assert_eq!(text(&row), "xy");
}
