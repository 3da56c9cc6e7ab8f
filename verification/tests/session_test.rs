use dmacs::document::{join_with_newline, split_lines, Document};
use dmacs::editor::actions::Action;
use dmacs::editor::input::{after_escape, after_escape_bracket, key_to_string, EscapeStep, Input};
use dmacs::editor::session::TweetOutcome;
use dmacs::editor::{Editor, Request};
use dmacs::error::DmacsError;

fn editor_with(lines: &[&str]) -> Editor {
    let content = lines.join("\n") + "\n";
    let doc = Document::from_file_content("notes.md".to_string(), content);
    Editor::new(Some(doc), None, None)
}

#[test]
fn saved_content_reads_back() {
    let lines: Vec<String> = vec!["alpha".to_string(), "".to_string(), "  - [ ] beta".to_string()];
    let content = join_with_newline(&lines);
    assert_eq!(content, "alpha\n\n  - [ ] beta\n");
    assert_eq!(split_lines(&content), lines);
}

#[test]
fn saved_document_is_clean() {
    let mut editor = editor_with(&["one", "two"]);
    assert!(!editor.document.is_dirty());
    editor.process_input(Input::Character('x'), false).unwrap();
    assert!(editor.document.is_dirty());
    let request = editor.process_input(Input::Character('s'), true).unwrap();
    assert!(matches!(request, Some(Request::Save)));
    editor.finish_save(&request.unwrap(), Ok(())).unwrap();
    assert_eq!(editor.status_message, "File saved!");
    assert!(!editor.document.is_dirty());
    assert_eq!(editor.document.original_content.as_deref(), Some("xone\ntwo\n"));
}

#[test]
fn failed_save_is_reported() {
    let mut editor = editor_with(&["one"]);
    let before = editor.document.original_content.clone();
    let r = editor.finish_save(&Request::Save, Err(DmacsError::Io("disk full".to_string())));
    assert_eq!(r, Err(DmacsError::Io("disk full".to_string())));
    assert_eq!(editor.document.original_content, before);
    assert_eq!(editor.status_message, "");
}

#[test]
fn quit_asks_for_save_and_quits() {
    let mut editor = editor_with(&["one"]);
    let request = editor.process_input(Input::Character('\x18'), false).unwrap();
    assert!(matches!(request, Some(Request::SaveAndQuit)));
    assert!(!editor.should_quit);
    editor.finish_save(&request.unwrap(), Ok(())).unwrap();
    assert!(editor.should_quit);
}

#[test]
fn quit_with_no_exit_on_save_stays() {
    let mut editor = editor_with(&["one"]);
    editor.set_no_exit_on_save(true);
    let request = editor.process_input(Input::Character('\x18'), false).unwrap();
    assert!(matches!(request, Some(Request::SaveAndStay)));
    editor.finish_save(&request.unwrap(), Ok(())).unwrap();
    assert!(!editor.should_quit);
    assert_eq!(editor.status_message, "File saved. Editor will not exit.");
}

#[test]
fn save_document_and_quit_report_errors() {
    let mut editor = editor_with(&["one"]);
    editor.clipboard.last_action_was_kill = true;
    let r = editor.save_document(Err(DmacsError::Document("locked".to_string())));
    assert_eq!(r, Err(DmacsError::Document("locked".to_string())));
    assert!(!editor.clipboard.last_action_was_kill);
    let r = editor.quit(Err(DmacsError::Unknown));
    assert_eq!(r, Err(DmacsError::Unknown));
    assert!(!editor.should_quit);
    editor.save_document(Ok(())).unwrap();
    assert_eq!(editor.status_message, "File saved successfully.");
    editor.quit(Ok(())).unwrap();
    assert!(editor.should_quit);
}

#[test]
fn tweet_line_asks_to_post() {
    let mut editor = Editor::new(None, None, None);
    editor.insert_text("/tweet hello world ").unwrap();
    let r = editor.insert_newline().unwrap();
    match r {
        Some(Request::Tweet(payload)) => assert_eq!(payload, "{\"text\":\"hello world\"}"),
        _ => panic!("expected a tweet request"),
    }
    assert_eq!(editor.document.lines, vec!["/tweet hello world ".to_string()]);
    editor.finish_tweet(TweetOutcome::Posted);
    assert_eq!(editor.document.lines, vec!["# /tweet hello world ".to_string(), "".to_string()]);
    assert_eq!(editor.status_message, "/tweet");
    assert_eq!(editor.cursor_pos(), (0, 1));
}

#[test]
fn failed_tweet_is_reported() {
    let mut editor = Editor::new(None, None, None);
    editor.insert_text("/tweet hi").unwrap();
    editor.finish_tweet(TweetOutcome::Failed("bad token".to_string(), "{}".to_string()));
    assert_eq!(editor.status_message, "Tweet failed: bad token {}");
    assert_eq!(editor.document.lines, vec!["/tweet hi".to_string()]);
    editor.finish_tweet(TweetOutcome::NotRun("not found".to_string()));
    assert_eq!(editor.status_message, "Failed to execute xurl: not found");
}

#[test]
fn new_editor_goes_to_line_and_column() {
    let doc = Document::from_file_content("f".to_string(), "abc\ndéf\n".to_string());
    let editor = Editor::new(Some(doc), Some(2), Some(3));
    // the third character of "déf" starts after the two bytes of 'é'
    assert_eq!(editor.cursor_pos(), (3, 1));
    assert_eq!(editor.desired_cursor_x, 2);
    let doc = Document::from_file_content("f".to_string(), "abc\ndéf\n".to_string());
    let editor = Editor::new(Some(doc), Some(2), Some(40));
    assert_eq!(editor.cursor_pos(), (4, 1));
    let doc = Document::from_file_content("f".to_string(), "abc\ndéf\n".to_string());
    let editor = Editor::new(Some(doc), Some(9), None);
    assert_eq!(editor.cursor_pos(), (4, 1));
}

#[test]
fn new_editor_restores_position() {
    let doc = Document::from_file_content("f".to_string(), "abc\ndef\n".to_string());
    let editor = Editor::new_with_restored(Some(doc), Some((2, 1, 1, 0)), None, None);
    assert_eq!(editor.cursor_pos(), (2, 1));
    assert_eq!(editor.desired_cursor_x, 2);
    assert_eq!(editor.scroll.row_offset, 1);
    assert_eq!(editor.scroll.col_offset, 0);
}

#[test]
fn command_off_the_text_is_refused() {
    let mut editor = Editor::new(None, None, None);
    editor.insert_text("あ").unwrap();
    editor.cursor_x = 1;
    let r = editor.execute_action(Action::MoveLeft);
    assert!(matches!(r, Err(DmacsError::Editor(_))));
    assert_eq!(editor.cursor_x, 1);
}

#[test]
fn status_is_cleared_by_commands() {
    let mut editor = Editor::new(None, None, None);
    editor.set_message("old news");
    editor.execute_action(Action::NoOp).unwrap();
    assert_eq!(editor.status_message, "");
}

#[test]
fn undo_and_redo_of_typing() {
    let mut editor = Editor::new(None, None, None);
    for c in "abc".chars() {
        editor.process_input(Input::Character(c), false).unwrap();
    }
    assert_eq!(editor.document.lines[0], "abc");
    editor.process_input(Input::Character('\x1f'), false).unwrap();
    assert_eq!(editor.document.lines[0], "");
    assert_eq!(editor.status_message, "Undo successful.");
    editor.process_input(Input::Character('_'), true).unwrap();
    assert_eq!(editor.document.lines[0], "abc");
    assert_eq!(editor.status_message, "Redo successful.");
    editor.process_input(Input::Character('_'), true).unwrap();
    assert_eq!(editor.status_message, "Nothing to redo.");
}

#[test]
fn outdent_undoes_indent() {
    let mut editor = editor_with(&["item"]);
    editor.set_cursor_pos(2, 0);
    editor.indent_line().unwrap();
    assert_eq!(editor.document.lines[0], "  item");
    editor.outdent_line().unwrap();
    assert_eq!(editor.document.lines[0], "item");
    assert_eq!(editor.cursor_pos(), (2, 0));
}

#[test]
fn comment_toggled_twice_is_unchanged() {
    let mut editor = editor_with(&["  let x = 1;"]);
    editor.toggle_comment().unwrap();
    assert_eq!(editor.document.lines[0], "  # let x = 1;");
    editor.toggle_comment().unwrap();
    assert_eq!(editor.document.lines[0], "  let x = 1;");
}

#[test]
fn moving_a_line_up_and_down_is_unchanged() {
    let mut editor = editor_with(&["a", "b", "c"]);
    editor.set_cursor_pos(0, 2);
    editor.move_line_up();
    assert_eq!(editor.document.lines, vec!["a", "c", "b"]);
    editor.move_line_down();
    assert_eq!(editor.document.lines, vec!["a", "b", "c"]);
    assert_eq!(editor.cursor_pos(), (0, 2));
}

#[test]
fn yank_gives_back_a_kill() {
    let mut editor = editor_with(&["hello world"]);
    editor._set_clipboard_enabled_for_test(false);
    editor.set_cursor_pos(5, 0);
    editor.kill_line().unwrap();
    assert_eq!(editor.document.lines[0], "hello");
    editor.yank().unwrap();
    assert_eq!(editor.document.lines[0], "hello world");
}

#[test]
fn later_binding_wins() {
    let mut editor = Editor::new(None, None, None);
    editor.keymap.insert("down".to_string(), Action::NoOp);
    assert_eq!(editor.keymap.get("down"), Some(Action::NoOp));
    editor.insert_text("a").unwrap();
    editor.insert_newline().unwrap();
    editor.set_cursor_pos(0, 0);
    editor.process_input(Input::KeyDown, false).unwrap();
    assert_eq!(editor.cursor_pos(), (0, 0));
}

#[test]
fn key_names() {
    assert_eq!(key_to_string(Input::Character('\x01'), false), "ctrl-a");
    assert_eq!(key_to_string(Input::Character('\x01'), true), "ctrl-a");
    assert_eq!(key_to_string(Input::Character('w'), true), "alt-w");
    assert_eq!(key_to_string(Input::KeyNPage, false), "pagedown");
    assert_eq!(key_to_string(Input::KeyBTab, true), "shift-tab");
    assert_eq!(key_to_string(Input::Unknown, false), "unknown");
    assert_eq!(key_to_string(Input::Unknown, true), "alt-");
}

#[test]
fn display_width_counts_wide_characters() {
    let editor = Editor::new(None, None, None);
    assert_eq!(editor.scroll.get_display_width("あいう", 6), 4);
    assert_eq!(editor.scroll.get_display_width("abc", 2), 2);
}

#[test]
fn escape_sequences_decode_to_alt_keys() {
    assert_eq!(after_escape(Some(Input::Character('f'))), EscapeStep::Key(Input::Character('f'), true));
    assert_eq!(after_escape(Some(Input::Character('\x7f'))), EscapeStep::Key(Input::KeyBackspace, true));
    assert_eq!(after_escape(Some(Input::KeyLeft)), EscapeStep::Key(Input::KeyLeft, true));
    assert_eq!(after_escape(Some(Input::Character('['))), EscapeStep::ReadThird);
    assert_eq!(after_escape(None), EscapeStep::Key(Input::Character('\x1b'), false));
    assert_eq!(after_escape(Some(Input::KeyHome)), EscapeStep::Key(Input::Character('\x1b'), false));
    assert_eq!(after_escape_bracket(Some(Input::Character('A'))), (Input::KeyUp, true));
    assert_eq!(after_escape_bracket(Some(Input::Character('B'))), (Input::KeyDown, true));
    assert_eq!(after_escape_bracket(Some(Input::Character('C'))), (Input::Character('\x1b'), false));
}

#[test]
fn second_interrupt_quits() {
    let mut editor = Editor::new(None, None, None);
    assert!(!editor.handle_interrupt(0));
    assert!(editor.handle_interrupt(1));
    assert_eq!(editor.status_message, "Press Ctrl+C again to quit.");
    assert!(!editor.should_quit);
    assert!(!editor.handle_interrupt(2));
    assert!(editor.should_quit);
}
