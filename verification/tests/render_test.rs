use dmacs::editor::input::Input;
use dmacs::editor::render::{Cell, Frame, Glyph};
use dmacs::editor::Editor;

fn text_at(frame: &Frame, row: usize, col: usize) -> Option<String> {
    let mut found = None;
    for cell in &frame.cells {
        if cell.row == row && cell.col == col {
            if let Glyph::Text(t) = &cell.glyph {
                found = Some(t.clone());
            }
        }
    }
    found
}

fn cell_at(frame: &Frame, row: usize, col: usize) -> Option<&Cell> {
    frame.cells.iter().filter(|c| c.row == row && c.col == col).last()
}

#[test]
fn frame_of_a_short_line() {
    let mut editor = Editor::new(None, None, None);
    editor.insert_text("hello").unwrap();
    editor.update_screen_size(5, 20);
    let frame = editor.render(5, 20);
    assert_eq!(frame.cells.len(), 27);
    assert_eq!(text_at(&frame, 0, 0), Some("[No Name]*".to_string()));
    assert!(cell_at(&frame, 0, 0).unwrap().look.bold);
    assert_eq!(text_at(&frame, 0, 10), Some(" - 1 lines".to_string()));
    for (i, ch) in "hello".chars().enumerate() {
        assert_eq!(text_at(&frame, 2, i), Some(ch.to_string()));
    }
    let rule = cell_at(&frame, 1, 19).unwrap();
    assert!(matches!(rule.glyph, Glyph::HLine));
    assert!(rule.look.dim);
    assert_eq!(frame.cursor, (2, 5));
}

#[test]
fn status_message_is_right_aligned() {
    let mut editor = Editor::new(None, None, None);
    editor.update_screen_size(5, 30);
    editor.set_message("Saved");
    let frame = editor.render(5, 30);
    assert_eq!(text_at(&frame, 0, 25), Some("Saved".to_string()));
}

#[test]
fn wide_characters_scroll_behind_an_ellipsis() {
    let mut editor = Editor::new(None, None, None);
    editor.insert_text("あいうえおかきくけこさしすせそ").unwrap();
    editor.update_screen_size(5, 20);
    let frame = editor.render(5, 20);
    assert_eq!(editor.scroll.col_offset, 21);
    assert_eq!(text_at(&frame, 2, 0), Some("\u{2026} ".to_string()));
    assert_eq!(text_at(&frame, 2, 2), Some("し".to_string()));
    assert_eq!(text_at(&frame, 2, 8), Some("そ".to_string()));
    assert_eq!(text_at(&frame, 2, 10), None);
    assert_eq!(frame.cursor, (2, 10));
}

#[test]
fn tasks_and_separators_are_styled() {
    let mut editor = Editor::new(None, None, None);
    editor.document.lines = vec![
        "- [ ] open".to_string(),
        "- [x] done".to_string(),
        "# note".to_string(),
        "---".to_string(),
    ];
    editor.update_screen_size(10, 8);
    let frame = editor.render(10, 8);
    assert!(cell_at(&frame, 2, 0).unwrap().look.bold);
    assert!(cell_at(&frame, 3, 0).unwrap().look.dim);
    assert!(cell_at(&frame, 4, 0).unwrap().look.dim);
    let first = cell_at(&frame, 5, 0).unwrap();
    assert!(matches!(first.glyph, Glyph::HLine) && !first.look.dim);
    let later = cell_at(&frame, 5, 5).unwrap();
    assert!(matches!(later.glyph, Glyph::HLine) && later.look.dim);
    // the line is cut at the right edge
    assert_eq!(text_at(&frame, 2, 7), Some("p".to_string()));
    assert_eq!(text_at(&frame, 2, 8), None);
}

#[test]
fn tabs_are_drawn_as_spaces() {
    let mut editor = Editor::new(None, None, None);
    editor.document.lines = vec!["a\tb".to_string()];
    editor.update_screen_size(5, 20);
    let frame = editor.render(5, 20);
    assert_eq!(text_at(&frame, 2, 0), Some("a".to_string()));
    assert_eq!(text_at(&frame, 2, 1), Some("   ".to_string()));
    assert_eq!(text_at(&frame, 2, 4), Some("b".to_string()));
}

#[test]
fn selection_and_matches_are_reversed() {
    let mut editor = Editor::new(None, None, None);
    editor.document.lines = vec!["abcdef".to_string()];
    editor.set_cursor_pos(1, 0);
    editor.set_marker_action();
    editor.set_cursor_pos(3, 0);
    editor.update_screen_size(5, 20);
    let frame = editor.render(5, 20);
    assert!(!cell_at(&frame, 2, 0).unwrap().look.reverse);
    assert!(cell_at(&frame, 2, 1).unwrap().look.reverse);
    assert!(cell_at(&frame, 2, 2).unwrap().look.reverse);
    assert!(!cell_at(&frame, 2, 3).unwrap().look.reverse);

    let mut editor = Editor::new(None, None, None);
    editor.document.lines = vec!["xx ab xx".to_string()];
    editor.process_input(Input::Character('\x13'), false).unwrap();
    editor.process_input(Input::Character('a'), false).unwrap();
    editor.process_input(Input::Character('b'), false).unwrap();
    editor.update_screen_size(5, 20);
    let frame = editor.render(5, 20);
    assert!(!cell_at(&frame, 2, 2).unwrap().look.reverse);
    assert!(cell_at(&frame, 2, 3).unwrap().look.reverse);
    assert!(cell_at(&frame, 2, 4).unwrap().look.reverse);
    assert!(!cell_at(&frame, 2, 5).unwrap().look.reverse);
}

#[test]
fn fuzzy_search_screen() {
    let mut editor = Editor::new(None, None, None);
    editor.document.lines = vec!["alpha".to_string(), "beta".to_string(), "gamma".to_string()];
    editor.process_input(Input::Character('\x06'), false).unwrap();
    editor.process_input(Input::Character('a'), false).unwrap();
    let frame = editor.render(3, 40);
    assert!(text_at(&frame, 0, 0).unwrap().contains(": "));
    assert!(cell_at(&frame, 0, 0).unwrap().look.reverse);
    assert_eq!(text_at(&frame, 2, 0), Some("FUZZY SEARCH: a".to_string()));
    assert_eq!(frame.cursor, (2, 15));
    assert_eq!(frame.cells.len(), 3);
}

#[test]
fn task_list_is_drawn_below_the_text() {
    let mut editor = Editor::new(None, None, None);
    editor.document.lines = vec![
        "/task".to_string(),
        "- [ ] one".to_string(),
        "- [ ] two".to_string(),
    ];
    editor.set_cursor_pos(5, 0);
    editor.update_screen_size(10, 20);
    editor.insert_newline().unwrap();
    let frame = editor.render(10, 20);
    // four rows of tasks at the bottom, a rule above them
    assert_eq!(text_at(&frame, 6, 0), Some("- [ ] one".to_string()));
    assert!(cell_at(&frame, 6, 0).unwrap().look.reverse);
    assert_eq!(text_at(&frame, 7, 0), Some("- [ ] two".to_string()));
    assert!(!cell_at(&frame, 7, 0).unwrap().look.reverse);
    assert!(matches!(cell_at(&frame, 5, 0).unwrap().glyph, Glyph::HLine));
    assert!(editor.drawable());
}
