use dmacs::editor::input::Input;
use dmacs::editor::Editor;

#[test]
fn editor_misc_test_test_editor_initial_state_no_file() {
    let editor = Editor::new(None, None, None);
    assert!(!editor.should_quit);
    assert_eq!(editor.document.lines.len(), 1);
    assert_eq!(editor.document.lines[0], "");
}

#[test]
fn editor_misc_test_test_editor_with_wide_chars() {
    let mut editor = Editor::new(None, None, None);
    editor.process_input(Input::Character('あ'), false).unwrap();
    editor.process_input(Input::Character('い'), false).unwrap();
    assert_eq!(editor.document.lines[0], "あい");
    assert_eq!(editor.cursor_pos(), (6, 0)); // "あ" and "い" are 3 bytes each
    editor.process_input(Input::KeyLeft, false).unwrap();
    assert_eq!(editor.cursor_pos(), (3, 0));
    editor.process_input(Input::KeyBackspace, false).unwrap();
    assert_eq!(editor.document.lines[0], "い");
    assert_eq!(editor.cursor_pos(), (0, 0));
}

