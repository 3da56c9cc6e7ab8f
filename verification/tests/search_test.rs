use dmacs::editor::input::Input;
use dmacs::editor::Editor;

fn typed(editor: &mut Editor, text: &str) {
    for c in text.chars() {
        editor.process_input(Input::Character(c), false).unwrap();
    }
}

#[test]
fn search_moves_through_matches_and_wraps() {
    let mut editor = Editor::new(None, None, None);
    editor.document.lines = vec![
        "apple banana apple".to_string(),
        "orange apple grape".to_string(),
    ];
    editor.process_input(Input::Character('\x13'), false).unwrap();
    assert!(editor.search.mode);
    assert_eq!(editor.status_message, "Search: ");
    typed(&mut editor, "apple");
    assert_eq!(editor.cursor_pos(), (0, 0));
    assert_eq!(editor.status_message, "Search: apple");
    editor.process_input(Input::Character('\x13'), false).unwrap();
    assert_eq!(editor.cursor_pos(), (13, 0));
    editor.process_input(Input::Character('\x13'), false).unwrap();
    assert_eq!(editor.cursor_pos(), (7, 1));
    editor.process_input(Input::Character('\x13'), false).unwrap();
    assert_eq!(editor.cursor_pos(), (0, 0));
    editor.process_input(Input::Character('\x12'), false).unwrap();
    assert_eq!(editor.cursor_pos(), (7, 1));
    editor.process_input(Input::Character('\x12'), false).unwrap();
    assert_eq!(editor.cursor_pos(), (13, 0));
    editor.process_input(Input::Character('\n'), false).unwrap();
    assert!(!editor.search.mode);
    assert_eq!(editor.status_message, "");
    assert_eq!(editor.search.query, "");
}

#[test]
fn search_without_match_says_so() {
    let mut editor = Editor::new(None, None, None);
    editor.document.lines = vec!["line one".to_string(), "line two".to_string()];
    editor.process_input(Input::Character('\x13'), false).unwrap();
    typed(&mut editor, "xyz");
    assert_eq!(editor.search.query, "xyz");
    assert_eq!(editor.status_message, "Search: xyz (No match)");
    assert!(editor.search.results.is_empty());
    assert_eq!(editor.search.current_match_index, None);
    editor.process_input(Input::Character('\x1b'), false).unwrap();
    assert!(!editor.search.mode);
}

#[test]
fn search_query_can_be_emptied() {
    let mut editor = Editor::new(None, None, None);
    editor.document.lines = vec!["some text".to_string()];
    editor.process_input(Input::Character('\x13'), false).unwrap();
    typed(&mut editor, "e");
    assert_eq!(editor.status_message, "Search: e");
    editor.process_input(Input::Character('\x7f'), false).unwrap();
    assert_eq!(editor.search.query, "");
    assert_eq!(editor.status_message, "Search: ");
    assert!(editor.search.results.is_empty());
    assert_eq!(editor.search.current_match_index, None);
}

#[test]
fn search_starts_at_the_cursor() {
    let mut editor = Editor::new(None, None, None);
    editor.document.lines = vec!["ab ab ab".to_string()];
    editor.set_cursor_pos(4, 0);
    editor.process_input(Input::Character('\x13'), false).unwrap();
    typed(&mut editor, "ab");
    assert_eq!(editor.cursor_pos(), (6, 0));
    assert_eq!(editor.search.results, vec![(0, 0), (0, 3), (0, 6)]);
}
