//! Volume lifecycle tests: mount, unmount, volume swap, and the
//! reconciliation scheduler.

use ffi::config::{Config, VolumeConfig};
use ffi::db;
use ffi::db::FileEntry;
use ffi::lifecycle::{handle_volume_mount, handle_volume_unmount, MountDebouncer,
    MOUNT_DEBOUNCE_WINDOW_MS};
use ffi::reconciler::{FatReconciler, CLEANUP_INTERVAL_SECS, LOOP_INTERVAL_SECS};
use ffi::volume::{VolumeInfo, VolumeType};
use ffi::VolumeState;

fn setup_test_db() -> rusqlite::Connection {
    let mut conn = rusqlite::Connection::open_in_memory().unwrap();
    db::init(&mut conn).unwrap();
    conn
}

fn enabled_config(letter: char) -> Config {
    let mut config = Config::default();
    config.set_volume(letter, VolumeConfig { enabled: true, reconcile_interval_mins: 30 });
    config
}

fn file(volume_id: i64, file_ref: i64, name: &str) -> FileEntry {
    FileEntry {
        volume_id,
        file_ref: Some(file_ref),
        parent_ref: Some(0),
        name: name.to_string(),
        size: 1,
        modified: None,
        is_dir: false,
    }
}

#[test]
fn test_volume_swap_at_letter() {
    // A different serial appears at a known letter: the old record goes
    // offline, its rows remain, and a fresh upsert creates the new record.
    let mut conn = setup_test_db();
    let now: i64 = 1_700_000_000;
    let old_id = db::insert_volume(&mut conn, "D:", "AAAA", "NTFS").unwrap();
    db::batch_insert_files(&mut conn, &[file(old_id, 1, "keep.txt"), file(old_id, 2, "me.txt")])
        .unwrap();
    let config = enabled_config('D');

    handle_volume_mount('D', &config, &mut conn, "BBBB", now).unwrap();

    assert_eq!(
        db::get_volume_state(&conn, old_id).unwrap(),
        Some(VolumeState::Offline { since: now })
    );
    // The swapped-out volume's rows await retention.
    assert_eq!(db::get_file_count(&conn, Some(old_id)).unwrap(), 2);

    // The next orchestration pass records the new volume at the letter.
    let new_id = db::insert_volume(&mut conn, "D:", "BBBB", "NTFS").unwrap();
    let vol = db::get_volume(&conn, "D:").unwrap().unwrap();
    assert_eq!(vol.volume_serial, "BBBB");
    assert_eq!(vol.id, new_id);
    assert_eq!(db::get_file_count(&conn, Some(old_id)).unwrap(), 2);
}

#[test]
fn test_mount_same_serial_goes_online() {
    let mut conn = setup_test_db();
    let id = db::insert_volume(&mut conn, "D:", "AAAA", "FAT32").unwrap();
    db::update_volume_state(&mut conn, id, VolumeState::Offline { since: 100 }).unwrap();
    let config = enabled_config('D');
    handle_volume_mount('D', &config, &mut conn, "AAAA", 200).unwrap();
    assert_eq!(db::get_volume_state(&conn, id).unwrap(), Some(VolumeState::Online));
}

#[test]
fn test_mount_disabled_volume_ignored() {
    let mut conn = setup_test_db();
    let id = db::insert_volume(&mut conn, "D:", "AAAA", "FAT32").unwrap();
    db::update_volume_state(&mut conn, id, VolumeState::Offline { since: 100 }).unwrap();
    let config = Config::default();
    handle_volume_mount('D', &config, &mut conn, "BBBB", 200).unwrap();
    // Not configured for indexing: nothing changed.
    assert_eq!(
        db::get_volume_state(&conn, id).unwrap(),
        Some(VolumeState::Offline { since: 100 })
    );
}

#[test]
fn test_unmount_goes_offline() {
    let mut conn = setup_test_db();
    let now: i64 = 1_700_000_000;
    let id = db::insert_volume(&mut conn, "D:", "AAAA", "FAT32").unwrap();
    db::batch_insert_files(&mut conn, &[file(id, 1, "still_here.txt")]).unwrap();
    handle_volume_unmount(&mut conn, 'D', now).unwrap();
    assert_eq!(
        db::get_volume_state(&conn, id).unwrap(),
        Some(VolumeState::Offline { since: now })
    );
    // Data is preserved for quick reconnection.
    assert_eq!(db::get_file_count(&conn, Some(id)).unwrap(), 1);
}

#[test]
fn test_unmount_unknown_drive_is_ok() {
    let mut conn = setup_test_db();
    handle_volume_unmount(&mut conn, 'Q', 1).unwrap();
}

#[test]
fn test_loop_interval() {
    assert_eq!(LOOP_INTERVAL_SECS, 60);
}

#[test]
fn test_cleanup_interval() {
    assert_eq!(CLEANUP_INTERVAL_SECS, 86400);
}

fn detected(letter: char, fs_type: VolumeType) -> VolumeInfo {
    VolumeInfo {
        drive_letter: letter,
        volume_serial: "12345678".to_string(),
        fs_type,
        total_size: 1_000_000,
        free_space: 500_000,
    }
}

#[test]
fn test_reconciler_keeps_enabled_fat_volumes() {
    let mut config = Config::default();
    config.set_volume('D', VolumeConfig { enabled: true, reconcile_interval_mins: 1 });
    config.set_volume('E', VolumeConfig { enabled: true, reconcile_interval_mins: 2 });
    let vols = vec![
        detected('C', VolumeType::NTFS),
        detected('D', VolumeType::FAT32),
        detected('E', VolumeType::ExFAT),
        detected('F', VolumeType::FAT32),
    ];
    let mut reconciler = FatReconciler::new(&config, &vols, 1000);
    assert!(reconciler.has_volumes());
    assert_eq!(reconciler.offline_retention_days(), 7);
    // The NTFS volume and the unconfigured FAT volume are not scheduled;
    // neither scheduled volume is due before its first interval elapses.
    assert_eq!(reconciler.check_and_reconcile(1000), Vec::<char>::new());
    // Both scheduled volumes come due after their intervals.
    assert_eq!(reconciler.check_and_reconcile(1000 + 120), vec!['D', 'E']);
}

#[test]
fn test_reconciler_due_volumes() {
    let mut config = Config::default();
    config.set_volume('D', VolumeConfig { enabled: true, reconcile_interval_mins: 1 });
    let vols = vec![detected('D', VolumeType::FAT32)];
    let mut reconciler = FatReconciler::new(&config, &vols, 1000);
    // Not due one second before the interval elapses.
    assert_eq!(reconciler.check_and_reconcile(1059), Vec::<char>::new());
    // Due exactly at the interval; the scan time is then recorded.
    assert_eq!(reconciler.check_and_reconcile(1060), vec!['D']);
    assert_eq!(reconciler.check_and_reconcile(1061), Vec::<char>::new());
    assert_eq!(reconciler.check_and_reconcile(1120), vec!['D']);
}

#[test]
fn test_mount_debounce_window() {
    assert_eq!(MOUNT_DEBOUNCE_WINDOW_MS, 100);
    let mut debouncer = MountDebouncer::new(MOUNT_DEBOUNCE_WINDOW_MS);
    debouncer.record_mount('D', 1000);
    // Not ready inside the window.
    assert_eq!(debouncer.ready(1099), Vec::<char>::new());
    // A flood of repeat arrivals re-arms the window.
    debouncer.record_mount('D', 1090);
    assert_eq!(debouncer.ready(1100), Vec::<char>::new());
    // Ready once the latest arrival is a full window old, and handled once.
    assert_eq!(debouncer.ready(1190), vec!['D']);
    assert_eq!(debouncer.ready(2000), Vec::<char>::new());
}

#[test]
fn test_unmount_cancels_pending_mount() {
    let mut debouncer = MountDebouncer::new(MOUNT_DEBOUNCE_WINDOW_MS);
    debouncer.record_mount('D', 1000);
    debouncer.record_mount('E', 1000);
    debouncer.record_unmount('D');
    assert_eq!(debouncer.ready(5000), vec!['E']);
}

#[test]
fn test_reconciler_add_remove() {
    let config = Config::default();
    let mut reconciler = FatReconciler::new(&config, &Vec::new(), 0);
    assert!(!reconciler.has_volumes());
    reconciler.add_volume('G', 60, 0);
    assert!(reconciler.has_volumes());
    assert_eq!(reconciler.check_and_reconcile(60), vec!['G']);
    reconciler.remove_volume('G');
    assert!(!reconciler.has_volumes());
    assert_eq!(reconciler.check_and_reconcile(10_000), Vec::<char>::new());
}
