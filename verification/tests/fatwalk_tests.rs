//! Directory-walk ingest tests: synthetic references and parent
//! resolution.

use ffi::fatwalk::WalkIndexer;

#[test]
fn test_walk_refs_are_sequential() {
    let mut walk = WalkIndexer::new(3, "D:\\".to_string());
    assert_eq!(walk.entries_recorded(), 1);
    let docs = walk.add_entry("D:\\docs".to_string(), "D:\\", "docs".to_string(), 0, None, true);
    let file = walk.add_entry(
        "D:\\docs\\a.txt".to_string(),
        "D:\\docs",
        "a.txt".to_string(),
        42,
        Some(1_700_000_000),
        false,
    );
    assert_eq!(docs.volume_id, 3);
    assert_eq!(docs.file_ref, Some(1));
    assert_eq!(docs.parent_ref, Some(0));
    assert!(docs.is_dir);
    // Directories record size zero.
    assert_eq!(docs.size, 0);
    assert_eq!(file.file_ref, Some(2));
    assert_eq!(file.parent_ref, Some(1));
    assert_eq!(file.size, 42);
    assert_eq!(file.modified, Some(1_700_000_000));
    assert_eq!(walk.entries_recorded(), 3);
}

#[test]
fn test_walk_unknown_parent_dangles() {
    let mut walk = WalkIndexer::new(1, "D:\\".to_string());
    let stray = walk.add_entry(
        "D:\\lost\\b.txt".to_string(),
        "D:\\lost",
        "b.txt".to_string(),
        7,
        None,
        false,
    );
    // The parent directory was never walked: the reference dangles and
    // path reconstruction will stop there.
    assert_eq!(stray.parent_ref, None);
    assert_eq!(stray.file_ref, Some(1));
}

#[test]
fn test_walk_paths_reconstruct() {
    // Entries fed through the walker reconstruct to their walked paths.
    let mut conn = rusqlite::Connection::open_in_memory().unwrap();
    ffi::db::init(&mut conn).unwrap();
    let volume_id = ffi::db::insert_volume(&mut conn, "D:", "0BADCAFE", "FAT").unwrap();
    let mut walk = WalkIndexer::new(volume_id, "D:\\".to_string());
    let mut entries = vec![ffi::db::FileEntry {
        volume_id,
        file_ref: Some(0),
        parent_ref: None,
        name: "".to_string(),
        size: 0,
        modified: None,
        is_dir: true,
    }];
    entries.push(walk.add_entry("D:\\music".to_string(), "D:\\", "music".to_string(), 0, None, true));
    entries.push(walk.add_entry(
        "D:\\music\\song.mp3".to_string(),
        "D:\\music",
        "song.mp3".to_string(),
        9000,
        None,
        false,
    ));
    ffi::db::batch_insert_files(&mut conn, &entries).unwrap();
    let path = ffi::db::reconstruct_path(&conn, volume_id, 2).unwrap();
    assert_eq!(path, "music/song.mp3");
}
