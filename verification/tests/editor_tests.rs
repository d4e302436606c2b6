use tedit::editor::Coord;
use tedit::editor::Editor;
use tedit::editor::EditorEvent;

fn screen(cols: usize, rows: usize) -> Coord {
    Coord { col: cols, row: rows }
}

fn row_text(e: &Editor, i: usize) -> String {
    e.buffer().get_row(i).expect("row in range").iter().collect()
}

fn many_lines(n: usize) -> String {
    let mut s = String::new();
    for i in 0..n {
        if i > 0 {
            s.push('\n');
        }
        s.push('l');
    }
    s
}

#[test]
fn down_to_shorter_line_clamps_visible_column_only() {
    let mut e = Editor::new("abc\nde".to_string(), screen(80, 24));
    e.action_right(3);
    assert_eq!(e.cursor_col(), 3);
    e.action_down(1);
    e.normalize_visible_cursor();
    assert_eq!(e.visible_col(), 2);
    assert_eq!(e.cursor_col(), 3);
}

#[test]
fn insert_on_empty_line_advances_cursor() {
    let mut e = Editor::new(String::new(), screen(80, 24));
    e.insert_character('x');
    assert_eq!(row_text(&e, 0), "x");
    assert_eq!(e.cursor_col(), 1);
    e.normalize_visible_cursor();
    assert_eq!(e.visible_col(), 1);
}

#[test]
fn down_within_tall_screen_does_not_scroll() {
    let mut e = Editor::new(many_lines(5), screen(80, 10));
    e.action_down(3);
    assert_eq!(e.offset_row(), 0);
    assert_eq!(e.visible_row(), 3);
    assert_eq!(e.current_row(), 3);
}

#[test]
fn down_past_last_screen_row_scrolls_by_one() {
    let mut e = Editor::new(many_lines(100), screen(80, 5));
    e.action_down(4);
    assert_eq!(e.offset_row(), 0);
    assert_eq!(e.visible_row(), 4);
    e.action_down(1);
    assert_eq!(e.offset_row(), 1);
    assert_eq!(e.visible_row(), 4);
    assert_eq!(e.current_row(), 5);
}

#[test]
fn sticky_column_restored_on_longer_line() {
    let mut e = Editor::new("abcdef\nab\nabcdef".to_string(), screen(80, 24));
    e.action_right(6);
    e.action_down(1);
    e.normalize_visible_cursor();
    assert_eq!(e.visible_col(), 2);
    e.action_down(1);
    e.normalize_visible_cursor();
    assert_eq!(e.visible_col(), 6);
    assert_eq!(e.cursor_col(), 6);
}

#[test]
fn down_clamps_at_last_line() {
    let mut e = Editor::new(many_lines(3), screen(80, 24));
    e.action_down(50);
    assert_eq!(e.current_row(), 2);
    e.action_down(1);
    assert_eq!(e.current_row(), 2);
}

#[test]
fn up_clamps_at_first_line() {
    let mut e = Editor::new(many_lines(3), screen(80, 24));
    e.action_up(10);
    assert_eq!(e.current_row(), 0);
    assert_eq!(e.offset_row(), 0);
    assert_eq!(e.visible_row(), 0);
}

#[test]
fn up_scrolls_window_by_the_shortfall() {
    let mut e = Editor::new(many_lines(100), screen(80, 5));
    e.action_down(10);
    assert_eq!(e.offset_row(), 6);
    assert_eq!(e.visible_row(), 4);
    e.action_up(5);
    assert_eq!(e.current_row(), 5);
    assert_eq!(e.offset_row(), 5);
    assert_eq!(e.visible_row(), 0);
}

#[test]
fn empty_input_buffer_moves_are_no_ops() {
    let mut e = Editor::new(String::new(), screen(80, 24));
    e.action_down(1);
    assert_eq!(e.current_row(), 0);
    e.action_up(1);
    assert_eq!(e.current_row(), 0);
}

#[test]
fn left_restarts_from_the_rendered_column() {
    let mut e = Editor::new("abc".to_string(), screen(80, 24));
    e.action_right(2);
    e.action_left(1);
    assert_eq!(e.cursor_col(), 0);
    e.action_right(2);
    e.normalize_visible_cursor();
    e.action_left(1);
    assert_eq!(e.cursor_col(), 1);
}

#[test]
fn right_clamps_to_line_length() {
    let mut e = Editor::new("ab".to_string(), screen(80, 24));
    e.action_right(10);
    assert_eq!(e.cursor_col(), 2);
}

#[test]
fn left_saturates_at_zero() {
    let mut e = Editor::new("ab".to_string(), screen(80, 24));
    e.action_left(5);
    assert_eq!(e.cursor_col(), 0);
}

#[test]
fn typing_through_events_builds_a_line() {
    // The driver renders (and so normalizes) before it reads each event.
    let mut e = Editor::new(String::new(), screen(80, 24));
    e.normalize_visible_cursor();
    e.handle_event(EditorEvent::Character('h'));
    e.normalize_visible_cursor();
    e.handle_event(EditorEvent::Character('i'));
    assert_eq!(row_text(&e, 0), "hi");
    assert_eq!(e.cursor_col(), 2);
}

#[test]
fn typing_in_the_middle_splices() {
    let mut e = Editor::new("ad".to_string(), screen(80, 24));
    e.handle_event(EditorEvent::MoveRight);
    e.normalize_visible_cursor();
    e.handle_event(EditorEvent::Character('x'));
    assert_eq!(row_text(&e, 0), "axd");
    assert_eq!(e.cursor_col(), 2);
}

#[test]
fn resize_is_recorded_lazily() {
    let mut e = Editor::new(many_lines(100), screen(80, 5));
    e.action_down(10);
    let offset_before = e.offset_row();
    e.handle_event(EditorEvent::Resize(40, 50));
    assert_eq!(e.offset_row(), offset_before);
    assert_eq!(e.visible_row(), 4);
}

#[test]
fn render_plan_emits_one_entry_per_screen_row() {
    let mut e = Editor::new("a\nb".to_string(), screen(5, 4));
    let p = e.render_plan();
    assert_eq!(p.rows.len(), 4);
    let first: String = p.rows[0].as_ref().expect("line present").iter().collect();
    let second: String = p.rows[1].as_ref().expect("line present").iter().collect();
    assert_eq!(first, "a");
    assert_eq!(second, "b");
    assert!(p.rows[2].is_none());
    assert!(p.rows[3].is_none());
    assert_eq!(p.cursor_col, 0);
    assert_eq!(p.cursor_row, 0);
}

#[test]
fn render_plan_starts_at_the_scroll_offset() {
    let mut e = Editor::new(many_lines(100), screen(5, 5));
    e.action_down(6);
    let p = e.render_plan();
    assert_eq!(e.offset_row(), 2);
    assert_eq!(p.rows.len(), 5);
    assert!(p.rows.iter().all(|r| r.is_some()));
    assert_eq!(p.cursor_row, 4);
}

#[test]
fn render_plan_normalizes_the_visible_column() {
    let mut e = Editor::new("abc\nde".to_string(), screen(80, 24));
    e.action_right(3);
    e.action_down(1);
    let p = e.render_plan();
    assert_eq!(p.cursor_col, 2);
    assert_eq!(p.cursor_row, 1);
    assert_eq!(e.cursor_col(), 3);
}

#[test]
fn shrinking_resize_is_reclamped_by_the_next_move_down() {
    let mut e = Editor::new(many_lines(100), screen(80, 5));
    e.action_down(10);
    assert_eq!(e.offset_row(), 6);
    assert_eq!(e.visible_row(), 4);
    e.resize(80, 3);
    // Lazy: the rendered cursor row still sits below the new screen bottom.
    assert_eq!(e.visible_row(), 4);
    e.action_down(1);
    assert_eq!(e.current_row(), 11);
    assert_eq!(e.visible_row(), 2);
    assert_eq!(e.offset_row(), 9);
}

#[test]
fn vertical_events_move_the_cursor_row() {
    let mut e = Editor::new(many_lines(4), screen(80, 24));
    e.handle_event(EditorEvent::MoveDown);
    e.handle_event(EditorEvent::MoveDown);
    assert_eq!(e.current_row(), 2);
    e.handle_event(EditorEvent::MoveUp);
    assert_eq!(e.current_row(), 1);
    e.handle_event(EditorEvent::MoveLeft);
    assert_eq!(e.cursor_col(), 0);
}

#[test]
fn moves_keep_cursor_and_window_inside_the_buffer() {
    let mut e = Editor::new(many_lines(30), screen(80, 10));
    let moves: [(bool, usize); 8] = [
        (true, 3),
        (false, 17),
        (true, 2),
        (false, 40),
        (true, 100),
        (false, 9),
        (true, 1),
        (false, 29),
    ];
    for (up, n) in moves {
        if up {
            e.action_up(n);
        } else {
            e.action_down(n);
        }
        assert!(e.current_row() < 30);
        assert!(e.offset_row() + 10 <= 30);
    }
}
