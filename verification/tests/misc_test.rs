use dmacs::editor::input::Input;
use dmacs::config::Keymap;
use dmacs::editor::actions::Action;
use dmacs::editor::Editor;

#[test]
fn misc_test_test_editor_initial_state_no_file() {
    let editor = Editor::new(None, None, None);
    assert!(!editor.should_quit);
    assert_eq!(editor.document.lines.len(), 1);
    assert_eq!(editor.document.lines[0], "");
}

#[test]
fn misc_test_test_editor_with_wide_chars() {
    let mut editor = Editor::new(None, None, None);
    editor.process_input(Input::Character('あ'), false).unwrap();
    editor.process_input(Input::Character('い'), false).unwrap();
    assert_eq!(editor.document.lines[0], "あい");
    assert_eq!(editor.cursor_pos(), (6, 0)); // "あ" and "い" are 3 bytes each
    editor.process_input(Input::KeyLeft, false).unwrap();
    assert_eq!(editor.cursor_pos(), (3, 0));
    editor.process_input(Input::KeyBackspace, false).unwrap();
    assert_eq!(editor.document.lines[0], "い");
    assert_eq!(editor.cursor_pos(), (0, 0));
}

#[test]
fn test_is_separator_line() {
    // Test exact match
    assert!(Editor::is_separator_line("---"));

    // Test with leading/trailing whitespace (should be false)
    assert!(!Editor::is_separator_line(" ---"));
    assert!(!Editor::is_separator_line("--- "));
    assert!(!Editor::is_separator_line(" ---"));

    // Test with other characters
    assert!(!Editor::is_separator_line("-----"));
    assert!(!Editor::is_separator_line("--"));
    assert!(!Editor::is_separator_line("abc---"));
    assert!(!Editor::is_separator_line("---abc"));
    assert!(!Editor::is_separator_line(""));
    assert!(!Editor::is_separator_line("hello"));
}

#[test]
fn test_is_unchecked_checkbox() {
    assert!(Editor::is_unchecked_checkbox("- [ ] task"));
    assert!(Editor::is_unchecked_checkbox("  - [ ] task"));
    assert!(!Editor::is_unchecked_checkbox("- [] task"));
    assert!(!Editor::is_unchecked_checkbox("- [x] task"));
    assert!(!Editor::is_unchecked_checkbox("task - [ ]"));
}

#[test]
fn test_is_checked_checkbox() {
    assert!(Editor::is_checked_checkbox("- [x] task"));
    assert!(Editor::is_checked_checkbox("  - [x] task"));
    assert!(!Editor::is_checked_checkbox("- [] task"));
    assert!(!Editor::is_checked_checkbox("- [ ] task"));
    assert!(!Editor::is_checked_checkbox("task - [x]"));
}

#[test]
fn test_custom_keymap_overrides_default() {
    let mut editor = Editor::new(None, None, None);
    // The user configuration `up = "Quit"`, built by calls.
    let mut keymap = Keymap::new();
    keymap.insert("up".to_string(), Action::Quit);

    // The user config loader will extend the default map, so we simulate that.
    editor.keymap.bindings.extend(keymap.bindings);

    // Process the 'up' arrow key, which is now mapped to Quit; the save it
    // asks for is carried out (the document has no file).
    if let Some(request) = editor.process_input(Input::KeyUp, false).unwrap() {
        editor.finish_save(&request, Ok(())).unwrap();
    }

    // Assert that the editor should quit
    assert!(editor.should_quit);

    // Let's also test that a default binding still works in a fresh editor
    let mut editor2 = Editor::new(None, None, None);
    // Process the 'down' arrow key, which should just move the cursor
    editor2.process_input(Input::KeyDown, false).unwrap();
    assert_eq!(editor2.cursor_pos(), (0, 0)); // Stays at 0,0 on a single line doc
    assert!(!editor2.should_quit);
}
