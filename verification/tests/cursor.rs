use sysmon::cursor::Cursor;

fn at(selected: usize, scroll_offset: usize) -> Cursor {
    Cursor { selected, scroll_offset }
}

#[test]
fn five_steps_down_then_one_up() {
    let mut cursor = Cursor::new();
    assert_eq!(cursor, at(0, 0));
    let expected = [at(1, 0), at(2, 0), at(3, 0), at(4, 0), at(5, 1)];
    for step in expected {
        cursor = cursor.move_down(10, 5);
        assert_eq!(cursor, step);
    }
    assert_eq!(cursor.selected, 5);
    assert_eq!(cursor.scroll_offset, 1);
    cursor = cursor.move_up();
    assert_eq!(cursor.selected, 4);
    assert_eq!(cursor.scroll_offset, 1);
}

#[test]
fn resize_to_a_shorter_list_clamps_both() {
    let cursor = at(5, 1).resize(3, 5);
    assert_eq!(cursor.selected, 2);
    assert_eq!(cursor.scroll_offset, 0);
}

#[test]
fn resize_twice_is_resize_once() {
    let lengths = [0usize, 1, 2, 3, 5, 10, 11, 100];
    let heights = [1usize, 2, 5, 10, 50];
    let positions = [0usize, 1, 2, 4, 5, 9, 10, 99, 1000];
    for &length in &lengths {
        for &height in &heights {
            for &selected in &positions {
                for &scroll_offset in &positions {
                    let once = at(selected, scroll_offset).resize(length, height);
                    let twice = once.resize(length, height);
                    assert_eq!(once, twice);
                }
            }
        }
    }
}

#[test]
fn resize_yields_a_valid_cursor_from_any_cursor() {
    let positions = [0usize, 1, 4, 5, 9, 10, 99, usize::MAX];
    for length in [0usize, 1, 3, 10] {
        for height in [1usize, 3, 5, 20] {
            for &selected in &positions {
                for &scroll_offset in &positions {
                    let cursor = at(selected, scroll_offset).resize(length, height);
                    if length == 0 {
                        assert_eq!(cursor.selected, 0);
                    } else {
                        assert!(cursor.selected < length);
                    }
                    assert!(cursor.scroll_offset <= cursor.selected);
                    assert!(cursor.selected - cursor.scroll_offset < height);
                }
            }
        }
    }
}

#[test]
fn move_down_stops_at_the_last_entry() {
    let mut cursor = at(8, 5);
    cursor = cursor.move_down(10, 5);
    assert_eq!(cursor, at(9, 5));
    cursor = cursor.move_down(10, 5);
    assert_eq!(cursor, at(9, 5));
}

#[test]
fn move_up_stops_at_the_first_entry() {
    let mut cursor = at(1, 0);
    cursor = cursor.move_up();
    assert_eq!(cursor, at(0, 0));
    cursor = cursor.move_up();
    assert_eq!(cursor, at(0, 0));
}

#[test]
fn move_up_scrolls_with_the_selection() {
    let cursor = at(3, 3).move_up();
    assert_eq!(cursor, at(2, 2));
}

#[test]
fn moves_on_an_empty_list_stay_at_zero() {
    let cursor = Cursor::new().move_down(0, 5);
    assert_eq!(cursor, at(0, 0));
    let cursor = cursor.move_up();
    assert_eq!(cursor, at(0, 0));
    let cursor = at(7, 2).resize(0, 5);
    assert_eq!(cursor, at(0, 0));
}

#[test]
fn move_down_on_a_single_entry_stays() {
    assert_eq!(Cursor::new().move_down(1, 5), at(0, 0));
}

#[test]
fn move_down_clamps_a_stale_selection() {
    // The list shrank underneath the cursor: the selection falls back to the
    // last entry.
    assert_eq!(at(20, 0).move_down(10, 5), at(9, 5));
    assert_eq!(at(usize::MAX, 0).move_down(10, 5), at(9, 5));
}

#[test]
fn resize_caps_the_scroll_offset_at_the_last_full_window() {
    // 10 entries in 8 rows: at most 2 entries are scrolled away.
    assert_eq!(at(9, 5).resize(10, 8), at(9, 2));
    // The list fits the window: nothing is scrolled away.
    assert_eq!(at(3, 3).resize(5, 8), at(3, 0));
}

#[test]
fn resize_to_a_smaller_window_follows_the_selection() {
    // Selection 9 was visible in rows 2..10; with 3 rows the window moves to
    // 7..10.
    assert_eq!(at(9, 2).resize(10, 3), at(9, 7));
    // A selection above the window pulls the window up.
    assert_eq!(at(1, 4).resize(10, 3), at(1, 1));
}

#[test]
fn resize_keeps_a_valid_cursor() {
    assert_eq!(at(4, 2).resize(10, 5), at(4, 2));
}

#[test]
fn window_without_rows() {
    // With no rows nothing is visible; the offset ends just below the
    // selection and the selection stays in the list.
    assert_eq!(Cursor::new().move_down(10, 0), at(1, 2));
    assert_eq!(at(2, 5).resize(10, 0), at(2, 2));
    assert_eq!(at(2, 2).resize(10, 0), at(2, 3));
    assert_eq!(at(12, 0).resize(10, 0), at(9, 10));
}

#[test]
fn window_of_one_row_shows_the_selection() {
    let mut cursor = Cursor::new();
    for expected in 1..=4usize {
        cursor = cursor.move_down(5, 1);
        assert_eq!(cursor, at(expected, expected));
    }
    cursor = cursor.move_down(5, 1);
    assert_eq!(cursor, at(4, 4));
    cursor = cursor.move_up();
    assert_eq!(cursor, at(3, 3));
}

#[test]
fn window_without_rows_leaves_no_trace() {
    for selected in [0usize, 2, 9, 12] {
        for scroll_offset in [0usize, 2, 5, 10, 20] {
            let once = at(selected, scroll_offset).resize(10, 0);
            let twice = once.resize(10, 0);
            for height in [1usize, 3, 10, 20] {
                assert_eq!(once.resize(10, height), twice.resize(10, height));
            }
        }
    }
}
