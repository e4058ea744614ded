//! Catalog store tests: schema, volume and file operations, counting,
//! search, path reconstruction, batching and retention.

use ffi::db;
use ffi::db::FileEntry;
use ffi::VolumeState;

fn setup_test_db() -> rusqlite::Connection {
    let mut conn = rusqlite::Connection::open_in_memory().unwrap();
    db::init(&mut conn).unwrap();
    conn
}

fn entry(
    volume_id: i64,
    file_ref: i64,
    parent_ref: Option<i64>,
    name: &str,
    size: i64,
    modified: Option<i64>,
    is_dir: bool,
) -> FileEntry {
    FileEntry {
        volume_id,
        file_ref: Some(file_ref),
        parent_ref,
        name: name.to_string(),
        size,
        modified,
        is_dir,
    }
}

#[test]
fn test_schema_init_creates_tables() {
    let conn = setup_test_db();
    let count: i32 = conn
        .query_row(
            "SELECT COUNT(*) FROM sqlite_master WHERE type='table' AND name='volumes'",
            [],
            |row| row.get(0),
        )
        .unwrap();
    assert_eq!(count, 1);
    let count: i32 = conn
        .query_row(
            "SELECT COUNT(*) FROM sqlite_master WHERE type='table' AND name='files'",
            [],
            |row| row.get(0),
        )
        .unwrap();
    assert_eq!(count, 1);
}

#[test]
fn test_schema_init_creates_indexes() {
    let conn = setup_test_db();
    let indexes: Vec<String> = conn
        .prepare("SELECT name FROM sqlite_master WHERE type='index' AND name LIKE 'idx_files_%'")
        .unwrap()
        .query_map([], |row| row.get(0))
        .unwrap()
        .filter_map(|r| r.ok())
        .collect();
    assert!(indexes.contains(&"idx_files_name".to_string()));
    assert!(indexes.contains(&"idx_files_parent".to_string()));
    assert!(indexes.contains(&"idx_files_volume".to_string()));
}

#[test]
fn test_schema_init_idempotent() {
    let mut conn = rusqlite::Connection::open_in_memory().unwrap();
    db::init(&mut conn).unwrap();
    db::init(&mut conn).unwrap();
}

#[test]
fn test_open_database_in_memory() {
    let conn = db::open_database(":memory:").unwrap();
    assert_eq!(db::get_file_count(&conn, None).unwrap(), 0);
}

#[test]
fn test_insert_volume() {
    let mut conn = setup_test_db();
    let id = db::insert_volume(&mut conn, "C:", "1234-ABCD", "NTFS").unwrap();
    assert!(id > 0);
}

#[test]
fn test_get_volume() {
    let mut conn = setup_test_db();
    db::insert_volume(&mut conn, "C:", "1234-ABCD", "NTFS").unwrap();
    let volume = db::get_volume(&conn, "C:").unwrap();
    assert!(volume.is_some());
    let volume = volume.unwrap();
    assert_eq!(volume.drive_letter, "C:");
    assert_eq!(volume.volume_serial, "1234-ABCD");
    assert_eq!(volume.fs_type, "NTFS");
}

#[test]
fn test_get_volume_not_found() {
    let conn = setup_test_db();
    let volume = db::get_volume(&conn, "Z:").unwrap();
    assert!(volume.is_none());
}

#[test]
fn test_batch_insert_files() {
    let mut conn = setup_test_db();
    let volume_id = db::insert_volume(&mut conn, "C:", "1234-ABCD", "NTFS").unwrap();
    let files: Vec<FileEntry> = (0..1000)
        .map(|i| entry(volume_id, i, Some(0), &format!("file_{}.txt", i), 1024, Some(1700000000), false))
        .collect();
    let inserted = db::batch_insert_files(&mut conn, &files).unwrap();
    assert_eq!(inserted, 1000);
    let count = db::get_file_count(&conn, Some(volume_id)).unwrap();
    assert_eq!(count, 1000);
}

#[test]
fn test_search_files() {
    let mut conn = setup_test_db();
    let volume_id = db::insert_volume(&mut conn, "C:", "1234-ABCD", "NTFS").unwrap();
    let files = vec![
        entry(volume_id, 1, Some(0), "document.txt", 1024, Some(1700000000), false),
        entry(volume_id, 2, Some(0), "Document.pdf", 2048, Some(1700000000), false),
        entry(volume_id, 3, Some(0), "image.png", 4096, Some(1700000000), false),
    ];
    db::batch_insert_files(&mut conn, &files).unwrap();
    // Case-insensitive search finds both document files.
    let results = db::search_files(&conn, "document", 100).unwrap();
    assert_eq!(results.len(), 2);
}

#[test]
fn test_search_files_respects_limit() {
    let mut conn = setup_test_db();
    let volume_id = db::insert_volume(&mut conn, "C:", "1234-ABCD", "NTFS").unwrap();
    let files: Vec<FileEntry> = (0..10)
        .map(|i| entry(volume_id, i, Some(0), &format!("note_{}.txt", i), 1, None, false))
        .collect();
    db::batch_insert_files(&mut conn, &files).unwrap();
    let results = db::search_files(&conn, "note", 3).unwrap();
    assert_eq!(results.len(), 3);
}

#[test]
fn test_delete_volume_files() {
    let mut conn = setup_test_db();
    let volume_id = db::insert_volume(&mut conn, "C:", "1234-ABCD", "NTFS").unwrap();
    let files: Vec<FileEntry> = (0..100)
        .map(|i| entry(volume_id, i, Some(0), &format!("file_{}.txt", i), 1024, Some(1700000000), false))
        .collect();
    db::batch_insert_files(&mut conn, &files).unwrap();
    let deleted = db::delete_volume_files(&mut conn, volume_id).unwrap();
    assert_eq!(deleted, 100);
    let count = db::get_file_count(&conn, Some(volume_id)).unwrap();
    assert_eq!(count, 0);
}

#[test]
fn test_duplicate_file_ref_rejected() {
    let mut conn = setup_test_db();
    let volume_id = db::insert_volume(&mut conn, "C:", "1234-ABCD", "NTFS").unwrap();
    let files = vec![entry(volume_id, 7, Some(0), "a.txt", 1, None, false)];
    db::batch_insert_files(&mut conn, &files).unwrap();
    let clash = vec![entry(volume_id, 7, Some(0), "b.txt", 1, None, false)];
    let result = db::batch_insert_files(&mut conn, &clash);
    assert!(result.is_err());
    assert!(matches!(result, Err(ffi::FFIError::Database(_))));
}

#[test]
fn test_reconstruct_path() {
    let mut conn = setup_test_db();
    let volume_id = db::insert_volume(&mut conn, "C:", "1234-ABCD", "NTFS").unwrap();
    // Hierarchy: root -> Users -> John -> Documents -> file.txt
    let files = vec![
        entry(volume_id, 5, None, "", 0, None, true),
        entry(volume_id, 100, Some(5), "Users", 0, None, true),
        entry(volume_id, 200, Some(100), "John", 0, None, true),
        entry(volume_id, 300, Some(200), "Documents", 0, None, true),
        entry(volume_id, 400, Some(300), "file.txt", 1024, Some(1700000000), false),
    ];
    db::batch_insert_files(&mut conn, &files).unwrap();
    let path = db::reconstruct_path(&conn, volume_id, 400).unwrap();
    assert_eq!(path, "Users/John/Documents/file.txt");
}

#[test]
fn test_reconstruct_path_broken_chain() {
    let mut conn = setup_test_db();
    let volume_id = db::insert_volume(&mut conn, "C:", "1234-ABCD", "NTFS").unwrap();
    // The parent reference 999 is dangling: the walk stops there.
    let files = vec![
        entry(volume_id, 10, Some(999), "orphans", 0, None, true),
        entry(volume_id, 11, Some(10), "lost.txt", 5, None, false),
    ];
    db::batch_insert_files(&mut conn, &files).unwrap();
    let path = db::reconstruct_path(&conn, volume_id, 11).unwrap();
    assert_eq!(path, "orphans/lost.txt");
}

#[test]
fn test_reconstruct_path_cycle_terminates() {
    let mut conn = setup_test_db();
    let volume_id = db::insert_volume(&mut conn, "C:", "1234-ABCD", "NTFS").unwrap();
    // A cyclic parent chain is pathological; the walk must still return.
    let files = vec![
        entry(volume_id, 1, Some(2), "a", 0, None, true),
        entry(volume_id, 2, Some(1), "b", 0, None, true),
    ];
    db::batch_insert_files(&mut conn, &files).unwrap();
    let path = db::reconstruct_path(&conn, volume_id, 1);
    assert!(path.is_ok());
}

#[test]
fn test_batch_exactly_at_boundary() {
    // One batch of exactly the batch size commits in a single transaction.
    let mut conn = setup_test_db();
    let volume_id = db::insert_volume(&mut conn, "C:", "1234-ABCD", "NTFS").unwrap();
    let files: Vec<FileEntry> = (0..db::BATCH_SIZE as i64)
        .map(|i| entry(volume_id, i, Some(0), "f", 1, None, false))
        .collect();
    let inserted = db::batch_insert_files(&mut conn, &files).unwrap();
    assert_eq!(inserted, db::BATCH_SIZE);
    assert_eq!(db::get_file_count(&conn, Some(volume_id)).unwrap(), db::BATCH_SIZE as i64);
}

#[test]
fn test_batch_one_past_boundary() {
    // One more record than the batch size commits in two transactions.
    let mut conn = setup_test_db();
    let volume_id = db::insert_volume(&mut conn, "C:", "1234-ABCD", "NTFS").unwrap();
    let n = db::BATCH_SIZE as i64 + 1;
    let files: Vec<FileEntry> = (0..n)
        .map(|i| entry(volume_id, i, Some(0), "f", 1, None, false))
        .collect();
    let inserted = db::batch_insert_files(&mut conn, &files).unwrap();
    assert_eq!(inserted, n as usize);
    assert_eq!(db::get_file_count(&conn, Some(volume_id)).unwrap(), n);
}

#[test]
fn test_fresh_ntfs_ingest() {
    // Fresh catalog, one NTFS volume, bulk ingest; the count matches the
    // number of master-file-table entries fed in.
    let mut conn = setup_test_db();
    let volume_id = db::insert_volume(&mut conn, "C:", "00C0FFEE", "NTFS").unwrap();
    let files: Vec<FileEntry> = (0..10_000)
        .map(|i| entry(volume_id, i, Some(5), &format!("entry_{}", i), 100, None, false))
        .collect();
    let inserted = db::batch_insert_files(&mut conn, &files).unwrap();
    assert_eq!(inserted, 10_000);
    assert_eq!(db::get_file_count(&conn, Some(volume_id)).unwrap(), 10_000);
    let vol = db::get_volume(&conn, "C:").unwrap().unwrap();
    assert_eq!(vol.fs_type, "NTFS");
}

#[test]
fn test_usn_position_roundtrip() {
    let mut conn = setup_test_db();
    let volume_id = db::insert_volume(&mut conn, "C:", "1234-ABCD", "NTFS").unwrap();
    assert_eq!(db::get_volume_usn(&conn, volume_id).unwrap(), None);
    db::update_volume_usn(&mut conn, volume_id, 4242, 7).unwrap();
    assert_eq!(db::get_volume_usn(&conn, volume_id).unwrap(), Some((4242, 7)));
}

#[test]
fn test_volume_state_roundtrip() {
    let mut conn = setup_test_db();
    let volume_id = db::insert_volume(&mut conn, "C:", "1234-ABCD", "NTFS").unwrap();
    assert_eq!(db::get_volume_state(&conn, volume_id).unwrap(), Some(VolumeState::Online));
    db::update_volume_state(&mut conn, volume_id, VolumeState::Offline { since: 123 }).unwrap();
    assert_eq!(
        db::get_volume_state(&conn, volume_id).unwrap(),
        Some(VolumeState::Offline { since: 123 })
    );
    db::update_volume_state(&mut conn, volume_id, VolumeState::Rescanning).unwrap();
    assert_eq!(db::get_volume_state(&conn, volume_id).unwrap(), Some(VolumeState::Rescanning));
}

#[test]
fn test_offline_retention_evicts() {
    // A volume offline for eight days falls to a seven-day retention sweep.
    let mut conn = setup_test_db();
    let now: i64 = 1_700_000_000;
    let old_id = db::insert_volume(&mut conn, "E:", "AAAA0000", "FAT32").unwrap();
    let live_id = db::insert_volume(&mut conn, "C:", "BBBB0000", "NTFS").unwrap();
    let old_files: Vec<FileEntry> = (0..10)
        .map(|i| entry(old_id, i, Some(0), "old", 1, None, false))
        .collect();
    let live_files: Vec<FileEntry> = (0..5)
        .map(|i| entry(live_id, i, Some(0), "live", 1, None, false))
        .collect();
    db::batch_insert_files(&mut conn, &old_files).unwrap();
    db::batch_insert_files(&mut conn, &live_files).unwrap();
    db::update_volume_state(&mut conn, old_id, VolumeState::Offline { since: now - 8 * 86400 })
        .unwrap();
    let evicted = db::cleanup_expired_at(&mut conn, 7, now).unwrap();
    assert_eq!(evicted, 1);
    assert_eq!(db::get_file_count(&conn, Some(old_id)).unwrap(), 0);
    assert_eq!(db::get_file_count(&conn, Some(live_id)).unwrap(), 5);
}

#[test]
fn test_offline_retention_keeps_recent() {
    // Three days offline is inside a seven-day retention window.
    let mut conn = setup_test_db();
    let now: i64 = 1_700_000_000;
    let vol_id = db::insert_volume(&mut conn, "E:", "AAAA0000", "FAT32").unwrap();
    let files: Vec<FileEntry> = (0..10)
        .map(|i| entry(vol_id, i, Some(0), "kept", 1, None, false))
        .collect();
    db::batch_insert_files(&mut conn, &files).unwrap();
    db::update_volume_state(&mut conn, vol_id, VolumeState::Offline { since: now - 3 * 86400 })
        .unwrap();
    let evicted = db::cleanup_expired_at(&mut conn, 7, now).unwrap();
    assert_eq!(evicted, 0);
    assert_eq!(db::get_file_count(&conn, Some(vol_id)).unwrap(), 10);
}

#[test]
fn test_serial_unique_across_letters() {
    // The same physical volume remounted at a new letter retires the old
    // record: reported serials stay unique in the catalog.
    let mut conn = setup_test_db();
    let old_id = db::insert_volume(&mut conn, "C:", "AAAA1111", "NTFS").unwrap();
    let new_id = db::insert_volume(&mut conn, "D:", "AAAA1111", "NTFS").unwrap();
    assert!(db::get_volume(&conn, "C:").unwrap().is_none());
    let vol = db::get_volume(&conn, "D:").unwrap().unwrap();
    assert_eq!(vol.volume_serial, "AAAA1111");
    assert_eq!(vol.id, new_id);
    let _ = old_id;
}

#[test]
fn test_empty_serials_do_not_collide() {
    // Ingest records volumes before the probe supplies their serials; the
    // empty placeholder claims no identity.
    let mut conn = setup_test_db();
    db::insert_volume(&mut conn, "E:", "", "FAT").unwrap();
    db::insert_volume(&mut conn, "F:", "", "FAT").unwrap();
    assert!(db::get_volume(&conn, "E:").unwrap().is_some());
    assert!(db::get_volume(&conn, "F:").unwrap().is_some());
}

#[test]
fn test_batch_insert_empty() {
    let mut conn = setup_test_db();
    let inserted = db::batch_insert_files(&mut conn, &[]).unwrap();
    assert_eq!(inserted, 0);
}
