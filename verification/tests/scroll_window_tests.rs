use nu::buffer::Buffer;

#[test]
fn vertical_scroll_follows_cursor_past_bottom_edge() {
    let mut b = Buffer::new("f", true, "0\n1\n2\n3\n4\n5\n6\n7\n8\n9");
    for _ in 0..9 {
        b.move_down();
    }
    b.update_scrolls(5, 4);
    // Active line is row 9 (one-based 10); 10 - 0 > 4, so vscroll = 10 - 4.
    assert_eq!(b.vscroll, 6);
}

#[test]
fn vertical_scroll_follows_cursor_past_top_edge() {
    let mut b = Buffer::new("f", true, "0\n1\n2\n3\n4\n5\n6\n7\n8\n9");
    for _ in 0..9 {
        b.move_down();
    }
    b.update_scrolls(5, 4);
    assert_eq!(b.vscroll, 6);
    for _ in 0..9 {
        b.move_up();
    }
    b.update_scrolls(5, 4);
    // Active row is 0 (one-based 1); 1 - 6 <= 0, so vscroll = 1 - 1.
    assert_eq!(b.vscroll, 0);
}

#[test]
fn vertical_scroll_untouched_while_cursor_visible() {
    let mut b = Buffer::new("f", true, "0\n1\n2\n3\n4\n5\n6\n7\n8\n9");
    for _ in 0..9 {
        b.move_down();
    }
    b.update_scrolls(5, 4);
    assert_eq!(b.vscroll, 6);
    b.move_up();
    b.update_scrolls(5, 4);
    // One-based row 9; 9 - 6 = 3 is within (0, 4], so no change.
    assert_eq!(b.vscroll, 6);
}

#[test]
fn horizontal_scroll_follows_cursor_both_ways() {
    let mut b = Buffer::new("f", true, "abcdefghij");
    for _ in 0..10 {
        b.move_right();
    }
    b.update_scrolls(4, 5);
    // Column 10; 10 - 0 > 3, so hscroll = 10 - 4 + 1.
    assert_eq!(b.hscroll, 7);
    for _ in 0..7 {
        b.move_left();
    }
    b.update_scrolls(4, 5);
    // Column 3; 3 - 7 <= 0, so hscroll = 3.
    assert_eq!(b.hscroll, 3);
    b.move_right();
    b.update_scrolls(4, 5);
    // Column 4; 4 - 3 = 1 is within (0, 3], so no change.
    assert_eq!(b.hscroll, 3);
}

#[test]
fn clean_axes_are_not_recomputed() {
    let mut b = Buffer::new("f", true, "ab\ncd");
    b.move_down();
    b.move_right();
    b.update_scrolls(10, 10);
    // Both flags are now clear; stale offsets must survive the next frame.
    b.vscroll = 42;
    b.hscroll = 99;
    b.update_scrolls(10, 10);
    assert_eq!(b.vscroll, 42);
    assert_eq!(b.hscroll, 99);
}

#[test]
fn cursor_pos_maps_document_position_to_screen() {
    let mut b = Buffer::new("f", true, "ab\ncd");
    b.move_down();
    b.move_right();
    // Row 1, column 1, no scrolling.
    assert_eq!(b.cursor_pos(2, 3), (3, 4));
}

#[test]
fn cursor_pos_subtracts_scroll_offsets() {
    let mut b = Buffer::new("f", true, "abcdefghij\nk");
    for _ in 0..10 {
        b.move_right();
    }
    b.update_scrolls(4, 5);
    assert_eq!(b.hscroll, 7);
    // Column 10, row 0, hscroll 7.
    assert_eq!(b.cursor_pos(1, 1), (1 + 10 - 7, 1));
}

#[test]
fn window_yields_at_most_height_rows() {
    let b = Buffer::new("f", true, "a\nb\nc\nd\ne");
    let mut w = b.window(10, 3);
    let mut rows = 0;
    while let Some(_) = w.next() {
        rows += 1;
    }
    assert_eq!(rows, 3);
    assert!(w.next().is_none());
}

#[test]
fn window_stops_early_when_lines_run_out() {
    let b = Buffer::new("f", true, "a\nb");
    let mut w = b.window(10, 5);
    assert_eq!(w.next().unwrap(), vec![String::from("a")]);
    assert_eq!(w.next().unwrap(), vec![String::from("b")]);
    assert!(w.next().is_none());
    assert!(w.next().is_none());
}

#[test]
fn window_starts_at_vscroll() {
    let mut b = Buffer::new("f", true, "a\nb\nc");
    b.vscroll = 1;
    let mut w = b.window(10, 5);
    assert_eq!(w.next().unwrap(), vec![String::from("b")]);
    assert_eq!(w.next().unwrap(), vec![String::from("c")]);
    assert!(w.next().is_none());
}

#[test]
fn window_splits_active_line_into_two_fragments() {
    let mut b = Buffer::new("f", true, "abcd");
    b.move_right();
    b.move_right();
    let mut w = b.window(10, 1);
    assert_eq!(
        w.next().unwrap(),
        vec![String::from("ab"), String::from("cd")]
    );
}

#[test]
fn window_keeps_empty_fragment_strictly_inside() {
    let mut b = Buffer::new("f", true, "ab");
    b.move_right();
    b.move_right();
    // Active line is pre="ab", post="": the empty segment sits strictly
    // inside the window and is kept as an empty fragment.
    let mut w = b.window(10, 1);
    assert_eq!(
        w.next().unwrap(),
        vec![String::from("ab"), String::from("")]
    );
}

#[test]
fn window_clips_segment_straddling_left_edge() {
    let mut b = Buffer::new("f", true, "abcd");
    b.hscroll = 1;
    let mut w = b.window(2, 1);
    assert_eq!(w.next().unwrap(), vec![String::from("bc")]);
}

#[test]
fn window_clips_segment_straddling_right_edge() {
    let mut b = Buffer::new("f", true, "abcdef");
    b.move_right();
    b.move_right();
    b.hscroll = 2;
    // Window covers columns [2, 5): pre="ab" is wholly left and dropped,
    // post="cdef" is truncated at the right edge.
    let mut w = b.window(3, 1);
    assert_eq!(w.next().unwrap(), vec![String::from("cde")]);
}

#[test]
fn window_passes_segment_ending_at_window_end() {
    let mut b = Buffer::new("f", true, "abcd");
    b.move_right();
    // Window [0, 4): post="bcd" covers columns [1, 4) and fits exactly.
    let mut w = b.window(4, 1);
    assert_eq!(
        w.next().unwrap(),
        vec![String::from("a"), String::from("bcd")]
    );
}

#[test]
fn window_rows_never_exceed_width() {
    let mut b = Buffer::new("f", true, "abcdefghij\nklm\n\nnop");
    b.move_right();
    b.move_right();
    b.move_right();
    for width in 1..6usize {
        for hscroll in 0..5usize {
            b.hscroll = hscroll;
            let mut w = b.window(width, 4);
            let mut rows = 0;
            while let Some(row) = w.next() {
                rows += 1;
                let total: usize = row.iter().map(|f| f.chars().count()).sum();
                assert!(total <= width);
            }
            assert!(rows <= 4);
        }
    }
}
