use dmacs::backup::{backup_needed, backup_times, cutoff_second, expired_backups};
use dmacs::config::Keymap;
use dmacs::document::Document;
use dmacs::editor::actions::Action;
use dmacs::editor::command::{execute_command, CommandResult};
use dmacs::editor::input::Input;
use dmacs::editor::selection::Selection;
use dmacs::editor::{Editor, EditorMode};

fn editor_with(lines: &[&str]) -> Editor {
    let mut editor = Editor::new(None, None, None);
    editor._set_clipboard_enabled_for_test(false);
    editor.document.lines = lines.iter().map(|s| s.to_string()).collect();
    editor
}

#[test]
fn end_of_file_after_a_wide_character() {
    let mut editor = editor_with(&["abc", "あ"]);
    editor.go_to_end_of_file();
    assert_eq!(editor.cursor_pos(), (3, 1));
    assert_eq!(editor.desired_cursor_x, 2);
}

#[test]
fn end_of_file_after_a_control_character() {
    let mut editor = editor_with(&["abc", "\u{1}"]);
    editor.go_to_end_of_file();
    assert_eq!(editor.cursor_pos(), (1, 1));
}

#[test]
fn default_keymap_binds_word_moves() {
    let keymap = Keymap::default();
    assert_eq!(keymap.get("alt-right"), Some(Action::MoveWordRight));
    assert_eq!(keymap.get("alt-left"), Some(Action::MoveWordLeft));
    assert_eq!(keymap.get("ctrl-s"), Some(Action::EnterSearchMode));
    assert_eq!(keymap.get("ctrl-r"), None);
}

#[test]
fn ctrl_r_in_a_search_goes_to_the_previous_match() {
    let mut editor = editor_with(&["two one two", "two"]);
    editor.process_input(Input::Character('\x13'), false).unwrap();
    for c in "two".chars() {
        editor.process_input(Input::Character(c), false).unwrap();
    }
    assert_eq!(editor.cursor_pos(), (0, 0));
    editor.process_input(Input::Character('\x13'), false).unwrap();
    assert_eq!(editor.cursor_pos(), (8, 0));
    editor.process_input(Input::Character('\x12'), false).unwrap();
    assert_eq!(editor.cursor_pos(), (0, 0));
    assert!(editor.search.mode);
}

#[test]
fn cut_selection_removes_the_text() {
    let mut document = Document::new_empty();
    document.lines = vec!["hello".to_string(), "world".to_string(), "!".to_string()];
    let mut selection = Selection::new();
    selection.set_marker((2, 0));
    let cut = selection.cut_selection(&mut document, (3, 1)).unwrap();
    assert_eq!(cut, "llo\nwor");
    assert_eq!(document.lines, vec!["held".to_string(), "!".to_string()]);
    assert_eq!(selection.marker_pos, None);
}

#[test]
fn cut_selection_without_marker_leaves_the_text() {
    let mut document = Document::new_empty();
    document.lines = vec!["hello".to_string()];
    let mut selection = Selection::new();
    let cut = selection.cut_selection(&mut document, (3, 0)).unwrap();
    assert_eq!(cut, "");
    assert_eq!(document.lines, vec!["hello".to_string()]);
}

#[test]
fn toggle_comment_skips_lines_past_the_end() {
    let mut editor = editor_with(&["a", "b"]);
    editor.set_cursor_pos(0, 0);
    editor.selection.marker_pos = Some((0, 5));
    editor.toggle_comment().unwrap();
    assert_eq!(editor.document.lines, vec!["# a".to_string(), "# b".to_string()]);
    assert_eq!(editor.status_message, "Toggled comment on selection.");
    assert_eq!(editor.cursor_pos(), (0, 0));
}

#[test]
fn toggle_checkbox_skips_lines_past_the_end() {
    let mut editor = editor_with(&["a", "b"]);
    editor.set_cursor_pos(0, 0);
    editor.selection.marker_pos = Some((0, 5));
    editor.toggle_checkbox().unwrap();
    assert_eq!(editor.document.lines, vec!["- a".to_string(), "- b".to_string()]);
    assert_eq!(editor.status_message, "Toggled selection to ListItem.");
}

#[test]
fn undo_and_redo_put_the_cursor_back() {
    let mut editor = editor_with(&["xy"]);
    editor.set_cursor_pos(1, 0);
    editor.insert_text("a").unwrap();
    editor.insert_text("b").unwrap();
    assert_eq!(editor.document.lines, vec!["xaby".to_string()]);
    editor.set_cursor_pos(0, 0);
    editor.undo();
    assert_eq!(editor.document.lines, vec!["xy".to_string()]);
    assert_eq!(editor.cursor_pos(), (1, 0));
    editor.set_cursor_pos(2, 0);
    editor.redo();
    assert_eq!(editor.document.lines, vec!["xaby".to_string()]);
    assert_eq!(editor.cursor_pos(), (3, 0));
}

#[test]
fn task_command_selects_the_first_task() {
    let mut editor = editor_with(&["/task", "- [ ] A", "- [ ] B"]);
    editor.set_cursor_pos(5, 0);
    editor.insert_newline().unwrap();
    assert_eq!(editor.mode, EditorMode::TaskSelection);
    assert_eq!(editor.task.selected_task_index, Some(0));
    assert_eq!(editor.task.task_display_offset, 0);
    assert_eq!(
        editor.status_message,
        "Found 2 unchecked tasks. Use Up/Down to select, SPACE to move, ESC/ENTER to exit."
    );
}

#[test]
fn old_backups_are_picked_by_time() {
    let names = vec![
        "f-1234abcd.20200101000000.bak".to_string(),
        "f-1234abcd.29990101000000.bak".to_string(),
        "nodots".to_string(),
        "x.bad.bak".to_string(),
    ];
    let stamps = vec![Some(100), Some(10_000), Some(5), Some(50)];
    assert_eq!(expired_backups(&names, &stamps, 1000), vec![0, 3]);
    assert_eq!(expired_backups(&names, &stamps, 50), vec![]);
}

#[test]
fn backup_times_read_the_timestamps() {
    let names = vec![
        "f-1234abcd.20200101000000.bak".to_string(),
        "junk.bak".to_string(),
        "f.2020.bak".to_string(),
    ];
    let times = backup_times(&names);
    assert_eq!(times.len(), 3);
    let t = times[0].expect("a timestamp that parses");
    assert!((t - 1_577_836_800).abs() < 86_400);
    assert_eq!(times[1], None);
    assert_eq!(times[2], None);
}

#[test]
fn backups_are_written_only_for_new_content() {
    assert!(!backup_needed("", None));
    assert!(!backup_needed("a", Some("a")));
    assert!(backup_needed("a", Some("b")));
    assert!(backup_needed("a", None));
}

#[test]
fn today_and_now_write_dates() {
    match execute_command("/today") {
        CommandResult::Success { new_line_content: Some(date), status_message } => {
            assert_eq!(status_message, "/today");
            let c: Vec<char> = date.chars().collect();
            assert_eq!(c.len(), 10);
            assert_eq!((c[4], c[7]), ('-', '-'));
            assert!(c.iter().enumerate().all(|(i, ch)| i == 4 || i == 7 || ch.is_ascii_digit()));
        }
        _ => panic!("/today gives a date"),
    }
    match execute_command("/now") {
        CommandResult::Success { new_line_content: Some(moment), status_message } => {
            assert_eq!(status_message, "/now");
            let c: Vec<char> = moment.chars().collect();
            assert_eq!(c.len(), 16);
            assert_eq!((c[4], c[7], c[10], c[13]), ('-', '-', ' ', ':'));
        }
        _ => panic!("/now gives a date and time"),
    }
}

#[test]
fn undo_after_redo_puts_the_cursor_at_the_same_place() {
    let mut editor = editor_with(&["xy"]);
    editor.set_cursor_pos(2, 0);
    editor.insert_text("z").unwrap();
    editor.undo();
    let first = (editor.document.lines.clone(), editor.cursor_pos());
    editor.redo();
    assert_eq!(editor.document.lines, vec!["xyz".to_string()]);
    assert_eq!(editor.cursor_pos(), (3, 0));
    editor.undo();
    assert_eq!((editor.document.lines.clone(), editor.cursor_pos()), first);
    assert_eq!(first, (vec!["xy".to_string()], (2, 0)));
}

#[test]
fn cutoff_rounds_up_to_the_next_whole_second() {
    assert_eq!(cutoff_second(1000, 0), 1000);
    assert_eq!(cutoff_second(1000, 1), 1001);
    assert_eq!(cutoff_second(-5, 500), -4);
}

#[test]
fn typing_joins_a_group_only_within_the_delay() {
    let mut editor = editor_with(&[""]);
    editor.set_undo_debounce_threshold(60_000);
    editor.insert_text("a").unwrap();
    editor.insert_text("b").unwrap();
    assert_eq!(editor.undo_redo.undo_stack.len(), 1);
    assert_eq!(editor.undo_redo.undo_stack[0].len(), 2);
    editor.set_undo_debounce_threshold(0);
    editor.insert_text("c").unwrap();
    assert_eq!(editor.undo_redo.undo_stack.len(), 2);
    assert_eq!(editor.undo_redo.redo_stack.len(), 0);
    editor.undo();
    assert_eq!(editor.document.lines, vec!["ab".to_string()]);
    assert_eq!(editor.cursor_pos(), (2, 0));
}

#[test]
fn kill_line_undo_and_redo_cursors() {
    let mut editor = editor_with(&["hello world"]);
    editor.set_cursor_pos(5, 0);
    editor.kill_line().unwrap();
    assert_eq!(editor.document.lines, vec!["hello".to_string()]);
    editor.undo();
    assert_eq!(editor.document.lines, vec!["hello world".to_string()]);
    assert_eq!(editor.cursor_pos(), (11, 0));
    editor.redo();
    assert_eq!(editor.document.lines, vec!["hello".to_string()]);
    assert_eq!(editor.cursor_pos(), (5, 0));
}
