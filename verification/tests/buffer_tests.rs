use nu::buffer::Buffer;

fn chars(s: &str) -> Vec<char> {
    s.chars().collect()
}

#[test]
fn empty_buffer_has_one_line_and_renders_empty() {
    let b = Buffer::new("[buffer]", false, "");
    assert_eq!(b.line_count(), 1);
    assert_eq!(b.render(), "");
}

#[test]
fn round_trip_simple() {
    for s in ["", "a", "ab\ncd", "\n", "\n\n", "line1\nline2\n", "a\n\nb"] {
        let b = Buffer::new("f", true, s);
        assert_eq!(b.render(), s);
    }
}

#[test]
fn new_splits_on_newlines() {
    let b = Buffer::new("f", true, "ab\ncd");
    assert_eq!(b.pre.len(), 1);
    assert_eq!(b.post.len(), 1);
    assert!(b.active_line().pre.is_empty());
    assert_eq!(b.active_line().post, chars("ab"));
    assert!(b.post[0].pre.is_empty());
    assert_eq!(b.post[0].post, chars("cd"));
    assert!(!b.modified);
    assert_eq!(b.vscroll, 0);
    assert_eq!(b.hscroll, 0);
}

#[test]
fn move_right_walks_active_line_then_wraps() {
    let mut b = Buffer::new("f", true, "ab\ncd");
    b.move_right();
    b.move_right();
    assert_eq!(b.active_line().pre, chars("ab"));
    assert!(b.active_line().post.is_empty());
    b.move_right();
    assert_eq!(b.pre.len(), 2);
    assert!(b.active_line().pre.is_empty());
    assert_eq!(b.active_line().post, chars("cd"));
    assert_eq!(b.pre[0].pre, chars("ab"));
    assert!(b.pre[0].post.is_empty());
}

#[test]
fn move_right_at_document_end_is_a_no_op() {
    let mut b = Buffer::new("f", true, "x");
    b.move_right();
    b.move_right();
    assert_eq!(b.active_line().pre, chars("x"));
    assert!(b.active_line().post.is_empty());
    assert_eq!(b.line_count(), 1);
    assert_eq!(b.render(), "x");
}

#[test]
fn move_left_at_document_start_is_a_no_op() {
    let mut b = Buffer::new("f", true, "ab");
    b.move_left();
    assert!(b.active_line().pre.is_empty());
    assert_eq!(b.active_line().post, chars("ab"));
    assert_eq!(b.render(), "ab");
}

#[test]
fn move_left_wraps_to_stale_split_of_previous_line() {
    let mut b = Buffer::new("f", true, "ab\ncd");
    // Walk into the middle of the first line, then down and back left:
    // the wrap lands on the first line's recorded split, not its end.
    b.move_right();
    b.move_down();
    b.move_left();
    assert_eq!(b.pre.len(), 1);
    assert_eq!(b.active_line().pre, chars("a"));
    assert_eq!(b.active_line().post, chars("b"));
}

#[test]
fn motion_symmetry_down_then_up() {
    let mut b = Buffer::new("f", true, "a\nbb\nccc\ndddd");
    b.move_down();
    let start_row = b.pre.len();
    b.move_down();
    b.move_down();
    b.move_up();
    b.move_up();
    assert_eq!(b.pre.len(), start_row);
    assert_eq!(b.render(), "a\nbb\nccc\ndddd");
}

#[test]
fn move_up_at_first_line_is_a_no_op() {
    let mut b = Buffer::new("f", true, "a\nb");
    b.move_up();
    assert_eq!(b.pre.len(), 1);
    assert_eq!(b.active_line().post, chars("a"));
}

#[test]
fn insert_then_backspace_restores_split_and_text() {
    let mut b = Buffer::new("f", true, "ab\ncd");
    b.move_right();
    b.char('x');
    b.char('y');
    b.char('z');
    assert_eq!(b.active_line().pre, chars("axyz"));
    b.backspace();
    b.backspace();
    b.backspace();
    assert_eq!(b.active_line().pre, chars("a"));
    assert_eq!(b.active_line().post, chars("b"));
    assert_eq!(b.render(), "ab\ncd");
}

#[test]
fn insert_marks_modified_and_renders() {
    let mut b = Buffer::new("f", true, "ab");
    b.move_right();
    b.char('x');
    assert!(b.modified);
    assert_eq!(b.render(), "axb");
}

#[test]
fn backspace_merges_lines_at_column_zero() {
    let mut b = Buffer::new("f", true, "ab\ncd");
    b.move_down();
    b.backspace();
    assert_eq!(b.line_count(), 1);
    assert_eq!(b.render(), "abcd");
    assert!(b.modified);
}

#[test]
fn backspace_at_document_start_only_marks_modified() {
    let mut b = Buffer::new("f", true, "ab");
    b.backspace();
    assert_eq!(b.render(), "ab");
    assert!(b.modified);
}

#[test]
fn enter_splits_active_line_at_cursor() {
    let mut b = Buffer::new("f", true, "abcd");
    b.move_right();
    b.move_right();
    // Active line is now pre="ab" post="cd".
    b.enter();
    assert_eq!(b.pre.len(), 2);
    assert_eq!(b.pre[0].pre, chars("ab"));
    assert!(b.pre[0].post.is_empty());
    assert!(b.active_line().pre.is_empty());
    assert_eq!(b.active_line().post, chars("cd"));
    assert_eq!(b.render(), "ab\ncd");
    assert!(b.modified);
}

#[test]
fn enter_at_line_start_pushes_empty_line_above() {
    let mut b = Buffer::new("f", true, "ab");
    b.enter();
    assert_eq!(b.render(), "\nab");
    assert_eq!(b.pre.len(), 2);
}

#[test]
fn line_count_spans_both_sides_of_the_cursor() {
    let mut b = Buffer::new("f", true, "a\nb\nc");
    assert_eq!(b.line_count(), 3);
    b.move_down();
    assert_eq!(b.line_count(), 3);
}
