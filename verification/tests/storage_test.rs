use dmacs::backup::{backup_file_name, expiry_timestamp_of, latest_backup, timestamp_of, BackupManager};
use dmacs::persistence::{
    cursor_file_name, get_cursor_position, hex_string, is_expired_record, CursorPosition, FileTime,
};

fn record(secs: u64, nanos: u32) -> CursorPosition {
    CursorPosition {
        file_path: "/tmp/notes.md".to_string(),
        last_modified: FileTime { secs, nanos },
        cursor_x: 4,
        cursor_y: 2,
        scroll_row_offset: 1,
        scroll_col_offset: 0,
    }
}

#[test]
fn cursor_position_is_restored_for_an_unchanged_file() {
    let t = FileTime { secs: 1_700_000_000, nanos: 5 };
    assert_eq!(get_cursor_position(Some(record(1_700_000_000, 5)), t), Some((4, 2, 1, 0)));
    assert_eq!(get_cursor_position(Some(record(1_700_000_000, 6)), t), None);
    assert_eq!(get_cursor_position(None, t), None);
}

#[test]
fn cursor_record_file_is_named_by_hash() {
    assert_eq!(
        cursor_file_name("abc"),
        "ba7816bf8f01cfea414140de5dae2223b00361a396177a9cb410ff61f20015ad.json"
    );
}

#[test]
fn hex_digits() {
    assert_eq!(hex_string(&vec![0x0f, 0xa0, 0x00, 0xff]), "0fa000ff");
    assert_eq!(hex_string(&vec![]), "");
}

#[test]
fn records_expire_after_three_days() {
    let now = FileTime { secs: 1_000_000, nanos: 10 };
    assert!(is_expired_record(FileTime { secs: 1_000_000 - 259_200, nanos: 9 }, now));
    assert!(!is_expired_record(FileTime { secs: 1_000_000 - 259_200, nanos: 10 }, now));
    assert!(!is_expired_record(FileTime { secs: 999_999, nanos: 0 }, now));
    assert!(!is_expired_record(FileTime { secs: 0, nanos: 0 }, FileTime { secs: 100, nanos: 0 }));
}

#[test]
fn backup_directory_is_under_the_base() {
    assert_eq!(BackupManager::new_with_base_dir("/home/u").backup_dir(), "/home/u/.dmacs/backup");
    assert_eq!(BackupManager::new_with_base_dir("/home/u/").backup_dir(), "/home/u/.dmacs/backup");
    let m = BackupManager::new_with_base_dir("");
    assert_eq!(m.backup_dir(), ".dmacs/backup");
    assert_eq!(m.backup_path("a.bak"), ".dmacs/backup/a.bak");
}

#[test]
fn backup_names() {
    let m = BackupManager::new_with_base_dir("/b");
    assert_eq!(m.get_backup_file_prefix("notes.md", "abc"), "notes.md-ba7816bf");
    assert_eq!(backup_file_name("notes.md-ba7816bf", "20240102030405"), "notes.md-ba7816bf.20240102030405.bak");
}

#[test]
fn backup_timestamps_are_read_from_names() {
    assert_eq!(timestamp_of("p-1.20240102030405.bak", "p-1"), Some("20240102030405".to_string()));
    assert_eq!(timestamp_of("p-1..20240102030405.bak.bak", "p-1"), Some("20240102030405".to_string()));
    assert_eq!(timestamp_of("q-1.20240102030405.bak", "p-1"), None);
    assert_eq!(timestamp_of("p-1.20240102030405.txt", "p-1"), None);
    assert_eq!(expiry_timestamp_of("notes.md-ab.20240102030405.bak"), Some("20240102030405".to_string()));
    assert_eq!(expiry_timestamp_of("x.bak"), None);
    assert_eq!(expiry_timestamp_of("a.b.txt"), None);
}

#[test]
fn latest_backup_is_found() {
    let names = vec![
        "p.20240102030405.bak".to_string(),
        "p.20240302030405.bak".to_string(),
        "p.not-a-date.bak".to_string(),
        "q.20250102030405.bak".to_string(),
        "p.20240302030405.bak".to_string(),
    ];
    assert_eq!(latest_backup(&names, "p"), Some(1));
    assert_eq!(latest_backup(&names, "r"), None);
    assert_eq!(latest_backup(&vec!["p.20241399000000.bak".to_string()], "p"), None);
}
