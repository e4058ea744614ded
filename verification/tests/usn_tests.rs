//! Change-journal tests: classification, deduplication, the monitor state
//! machine, change application, and the adaptive throttle.

use ffi::db;
use ffi::usn::{
    apply_changes_batch, deduplicate_changes, AdaptiveThrottle, ChangeType, JournalMeta, UsnChange,
    UsnError, UsnMonitor, UsnRecord,
};

fn change(file_ref: i64, name: &str, change_type: ChangeType) -> UsnChange {
    UsnChange { file_ref, parent_ref: 5, name: name.to_string(), change_type, is_dir: false }
}

fn record(usn: i64, reason: u32, file_ref: i64, name: &str) -> UsnRecord {
    UsnRecord { usn, reason, file_ref, parent_ref: 5, name: name.to_string(), is_dir: false }
}

#[test]
fn test_deduplicate_removes_create_delete() {
    let changes = vec![
        change(100, "test.txt", ChangeType::Create),
        change(100, "test.txt", ChangeType::Delete),
    ];
    let deduped = deduplicate_changes(changes);
    assert!(deduped.is_empty(), "Create+Delete should result in no change");
}

#[test]
fn test_deduplicate_keeps_final_state() {
    let changes = vec![
        change(100, "old.txt", ChangeType::Create),
        change(100, "new.txt", ChangeType::Rename),
    ];
    let deduped = deduplicate_changes(changes);
    assert_eq!(deduped.len(), 1);
    assert_eq!(deduped[0].name, "new.txt");
    assert_eq!(deduped[0].change_type, ChangeType::Rename);
}

#[test]
fn test_deduplicate_multiple_files() {
    let changes = vec![
        change(100, "file1.txt", ChangeType::Create),
        change(200, "file2.txt", ChangeType::Create),
        change(100, "file1.txt", ChangeType::Modify),
    ];
    let deduped = deduplicate_changes(changes);
    assert_eq!(deduped.len(), 2);
}

#[test]
fn test_deduplicate_rename_chain() {
    // Create then two renames collapse to the last rename alone.
    let changes = vec![
        change(100, "a.txt", ChangeType::Create),
        change(100, "b.txt", ChangeType::Rename),
        change(100, "c.txt", ChangeType::Rename),
    ];
    let deduped = deduplicate_changes(changes);
    assert_eq!(deduped.len(), 1);
    assert_eq!(deduped[0].name, "c.txt");
    assert_eq!(deduped[0].change_type, ChangeType::Rename);
}

#[test]
fn test_reason_classification() {
    assert_eq!(UsnMonitor::reason_to_change_type(0x00000100), ChangeType::Create);
    assert_eq!(UsnMonitor::reason_to_change_type(0x00000200), ChangeType::Delete);
    assert_eq!(UsnMonitor::reason_to_change_type(0x00001000), ChangeType::Rename);
    assert_eq!(UsnMonitor::reason_to_change_type(0x00002000), ChangeType::Rename);
    assert_eq!(UsnMonitor::reason_to_change_type(0x00000001), ChangeType::Modify);
    // Priority: a record both created and deleted classifies as a delete.
    assert_eq!(UsnMonitor::reason_to_change_type(0x00000300), ChangeType::Delete);
    // Priority: create beats rename.
    assert_eq!(UsnMonitor::reason_to_change_type(0x00002100), ChangeType::Create);
}

#[test]
fn test_monitor_new_adopts_journal() {
    let meta = JournalMeta { journal_id: 9, first_usn: 40, next_usn: 90, lowest_valid_usn: 40 };
    let monitor = UsnMonitor::new('C', &meta);
    assert_eq!(monitor.volume(), 'C');
    assert_eq!(monitor.last_usn(), 40);
    assert_eq!(monitor.journal_id(), 9);
}

#[test]
fn test_monitor_resume_ok() {
    let meta = JournalMeta { journal_id: 7, first_usn: 0, next_usn: 900, lowest_valid_usn: 50 };
    let monitor = UsnMonitor::resume('C', 100, 7, &meta).unwrap();
    assert_eq!(monitor.last_usn(), 100);
    assert_eq!(monitor.journal_id(), 7);
}

#[test]
fn test_monitor_resume_journal_wrapped() {
    // Saved cursor 100 under journal 7; the journal now retains nothing
    // before 500: changes were missed and a full rescan is due.
    let meta = JournalMeta { journal_id: 7, first_usn: 0, next_usn: 900, lowest_valid_usn: 500 };
    let result = UsnMonitor::resume('C', 100, 7, &meta);
    assert!(matches!(
        result,
        Err(UsnError::JournalWrapped { last_processed: 100, lowest_valid: 500 })
    ));
}

#[test]
fn test_monitor_resume_journal_recreated() {
    let meta = JournalMeta { journal_id: 8, first_usn: 0, next_usn: 900, lowest_valid_usn: 0 };
    let result = UsnMonitor::resume('C', 100, 7, &meta);
    assert!(matches!(result, Err(UsnError::JournalRecreated { old_id: 7, new_id: 8 })));
}

#[test]
fn test_poll_wrap_detected_between_polls() {
    let meta = JournalMeta { journal_id: 7, first_usn: 0, next_usn: 900, lowest_valid_usn: 0 };
    let mut monitor = UsnMonitor::resume('C', 100, 7, &meta).unwrap();
    // The kernel shrank the journal since the last poll.
    let shrunk = JournalMeta { journal_id: 7, first_usn: 0, next_usn: 900, lowest_valid_usn: 500 };
    let result = monitor.poll_changes(&shrunk, Vec::new());
    assert!(matches!(
        result,
        Err(UsnError::JournalWrapped { last_processed: 100, lowest_valid: 500 })
    ));
    // The cursor did not move.
    assert_eq!(monitor.last_usn(), 100);
}

#[test]
fn test_poll_advances_cursor_monotonically() {
    let meta = JournalMeta { journal_id: 7, first_usn: 0, next_usn: 900, lowest_valid_usn: 0 };
    let mut monitor = UsnMonitor::resume('C', 10, 7, &meta).unwrap();
    let records = vec![
        record(5, 0x100, 1, "stale.txt"),
        record(11, 0x100, 2, "new.txt"),
        record(12, 0x200, 3, "gone.txt"),
    ];
    let before = monitor.last_usn();
    let changes = monitor.poll_changes(&meta, records).unwrap();
    // Records at or before the cursor are skipped; later ones collected.
    assert_eq!(changes.len(), 2);
    assert_eq!(changes[0].name, "new.txt");
    assert_eq!(changes[1].name, "gone.txt");
    assert!(monitor.last_usn() >= before);
    assert_eq!(monitor.last_usn(), 12);
    assert_eq!(monitor.journal_id(), 7);
}

#[test]
fn test_usn_create_delete_cycle() {
    // A file created and deleted inside one poll window never reaches the
    // catalog, and the cursor lands on the last record seen.
    let mut conn = rusqlite::Connection::open_in_memory().unwrap();
    db::init(&mut conn).unwrap();
    let volume_id = db::insert_volume(&mut conn, "C:", "12345678", "NTFS").unwrap();
    db::update_volume_usn(&mut conn, volume_id, 10, 7).unwrap();

    let meta = JournalMeta { journal_id: 7, first_usn: 0, next_usn: 900, lowest_valid_usn: 0 };
    let (saved_usn, saved_journal) = db::get_volume_usn(&conn, volume_id).unwrap().unwrap();
    let mut monitor = UsnMonitor::resume('C', saved_usn, saved_journal as u64, &meta).unwrap();

    let records = vec![record(11, 0x00000100, 100, "blip.txt"), record(12, 0x00000200, 100, "blip.txt")];
    let changes = monitor.poll_changes(&meta, records).unwrap();
    assert_eq!(changes.len(), 2);
    let deduped = deduplicate_changes(changes);
    assert!(deduped.is_empty());
    apply_changes_batch(&mut conn, volume_id, &deduped).unwrap();
    db::update_volume_usn(&mut conn, volume_id, monitor.last_usn(), monitor.journal_id() as i64)
        .unwrap();

    assert_eq!(db::get_file_count(&conn, Some(volume_id)).unwrap(), 0);
    assert_eq!(monitor.last_usn(), 12);
    assert_eq!(db::get_volume_usn(&conn, volume_id).unwrap(), Some((12, 7)));
}

#[test]
fn test_apply_changes_batch() {
    let mut conn = rusqlite::Connection::open_in_memory().unwrap();
    db::init(&mut conn).unwrap();
    let volume_id = db::insert_volume(&mut conn, "C:", "12345678", "NTFS").unwrap();
    let changes = vec![
        change(1, "alpha.txt", ChangeType::Create),
        change(2, "beta.txt", ChangeType::Create),
        change(1, "renamed.txt", ChangeType::Rename),
        change(2, "beta.txt", ChangeType::Delete),
    ];
    let applied = apply_changes_batch(&mut conn, volume_id, &changes).unwrap();
    assert_eq!(applied, 4);
    assert_eq!(db::get_file_count(&conn, Some(volume_id)).unwrap(), 1);
    let hits = db::search_files(&conn, "renamed", 10).unwrap();
    assert_eq!(hits.len(), 1);
    assert_eq!(hits[0].file_ref, Some(1));
}

#[test]
fn test_apply_empty_batch() {
    // A batch emptied by deduplication succeeds without touching the store.
    let mut conn = rusqlite::Connection::open_in_memory().unwrap();
    db::init(&mut conn).unwrap();
    let volume_id = db::insert_volume(&mut conn, "C:", "12345678", "NTFS").unwrap();
    assert_eq!(apply_changes_batch(&mut conn, volume_id, &[]).unwrap(), 0);
    assert_eq!(db::get_file_count(&conn, None).unwrap(), 0);
}

#[test]
fn test_throttle_interval() {
    let throttle = AdaptiveThrottle::new(30);
    assert_eq!(throttle.interval_secs(10), 30);
    assert_eq!(throttle.interval_secs(80), 30);
    assert_eq!(throttle.interval_secs(81), 120);
    assert_eq!(throttle.interval_secs(100), 120);
}

#[test]
fn fat_test_batch_size() {
    assert_eq!(db::BATCH_SIZE, 100_000);
}

#[test]
fn mft_test_batch_size() {
    assert_eq!(db::BATCH_SIZE, 100_000);
}
