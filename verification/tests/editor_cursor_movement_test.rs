use dmacs::editor::input::Input;
use dmacs::editor::Editor;

#[test]
fn editor_cursor_movement_test_test_editor_move_cursor() {
    let mut editor = Editor::new(None, None, None);
    editor.document.lines = vec!["one".to_string(), "two".to_string()];
    editor.process_input(Input::KeyDown, false).unwrap();
    assert_eq!(editor.cursor_pos(), (0, 1));
    editor.process_input(Input::KeyRight, false).unwrap();
    assert_eq!(editor.cursor_pos(), (1, 1));
    editor.process_input(Input::KeyUp, false).unwrap();
    assert_eq!(editor.cursor_pos(), (1, 0));
    editor.process_input(Input::KeyLeft, false).unwrap();
    assert_eq!(editor.cursor_pos(), (0, 0));
}

#[test]
fn test_editor_go_to_line_boundaries() {
    let mut editor = Editor::new(None, None, None);
    editor.document.lines[0] = "hello".to_string();
    editor.process_input(Input::KeyRight, false).unwrap();
    editor.process_input(Input::KeyRight, false).unwrap();
    assert_eq!(editor.cursor_pos(), (2, 0));
    editor.process_input(Input::Character('\x01'), false).unwrap(); // Ctrl-A
    assert_eq!(editor.cursor_pos(), (0, 0));
    editor.process_input(Input::Character('\x05'), false).unwrap(); // Ctrl-E
    assert_eq!(editor.cursor_pos(), (5, 0));
}

#[test]
fn editor_cursor_movement_test_test_editor_move_cursor_up_at_top_line() {
    let mut editor = Editor::new(None, None, None);
    editor.document.lines = vec!["line1".to_string(), "line2".to_string()];
    editor.set_cursor_pos(3, 0); // Set cursor to (3, 0)
    editor.process_input(Input::KeyUp, false).unwrap();
    assert_eq!(editor.cursor_pos(), (0, 0)); // Should move to (0, 0)
}

#[test]
fn editor_cursor_movement_test_test_editor_move_cursor_down_at_bottom_line() {
    let mut editor = Editor::new(None, None, None);
    editor.document.lines = vec!["line1".to_string(), "line2".to_string()];
    editor.set_cursor_pos(0, 1); // Set cursor to (0, 1)
    editor.process_input(Input::KeyDown, false).unwrap();
    assert_eq!(editor.cursor_pos(), (5, 1)); // Should move to (end of line, 1)
}

#[test]
fn editor_cursor_movement_test_test_editor_move_cursor_left_across_lines() {
    let mut editor = Editor::new(None, None, None);
    editor.document.lines = vec!["line1".to_string(), "line2".to_string()];
    editor.set_cursor_pos(0, 1); // Start at beginning of line2
    editor.process_input(Input::KeyLeft, false).unwrap();
    assert_eq!(editor.cursor_pos(), (5, 0)); // Should move to end of line1
}

#[test]
fn editor_cursor_movement_test_test_editor_move_cursor_right_across_lines() {
    let mut editor = Editor::new(None, None, None);
    editor.document.lines = vec!["line1".to_string(), "line2".to_string()];
    editor.set_cursor_pos(5, 0); // Start at end of line1
    editor.process_input(Input::KeyRight, false).unwrap();
    assert_eq!(editor.cursor_pos(), (0, 1)); // Should move to beginning of line2
}

#[test]
fn editor_cursor_movement_test_test_editor_move_cursor_word_left() {
    let mut editor = Editor::new(None, None, None);
    editor.document.lines = vec!["word1 word2 word3".to_string()];
    editor.set_cursor_pos(17, 0); // End of "word3"

    editor.process_input(Input::Character('\x02'), false).unwrap(); // Ctrl-B
    assert_eq!(editor.cursor_pos(), (12, 0)); // Should move to "word2 "

    editor.process_input(Input::Character('\x02'), false).unwrap(); // Ctrl-B
    assert_eq!(editor.cursor_pos(), (6, 0)); // Should move to "word1 "

    editor.process_input(Input::Character('\x02'), false).unwrap(); // Ctrl-B
    assert_eq!(editor.cursor_pos(), (0, 0)); // Should move to beginning of line

    // Test with leading/trailing spaces
    editor.document.lines = vec!["  word1  word2  ".to_string()];
    editor.set_cursor_pos(16, 0); // End of line

    editor.process_input(Input::Character('\x02'), false).unwrap(); // Ctrl-B
    assert_eq!(editor.cursor_pos(), (9, 0)); // Should move to "word2"

    editor.process_input(Input::Character('\x02'), false).unwrap(); // Ctrl-B
    assert_eq!(editor.cursor_pos(), (2, 0)); // Should move to "word1"
}

