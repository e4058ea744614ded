//! Volume classification, state strings, lifecycle events and the
//! drive-letter bitmask.

use ffi::volume::{drive_letters_from_mask, format_volume_serial, is_ntfs,
    volume_type_from_fs_name, VolumeEvent, VolumeInfo, VolumeType};
use ffi::{FFIError, VolumeState};

#[test]
fn test_is_ntfs() {
    let ntfs_volume = VolumeInfo {
        drive_letter: 'C',
        volume_serial: "12345678".to_string(),
        fs_type: VolumeType::NTFS,
        total_size: 1_000_000_000,
        free_space: 500_000_000,
    };
    assert!(is_ntfs(&ntfs_volume));

    let fat32_volume = VolumeInfo {
        drive_letter: 'D',
        volume_serial: "ABCDEF01".to_string(),
        fs_type: VolumeType::FAT32,
        total_size: 100_000_000,
        free_space: 50_000_000,
    };
    assert!(!is_ntfs(&fat32_volume));
}

#[test]
fn test_volume_type_equality() {
    assert_eq!(VolumeType::NTFS, VolumeType::NTFS);
    assert_ne!(VolumeType::NTFS, VolumeType::FAT32);
    assert_ne!(VolumeType::FAT32, VolumeType::ExFAT);
}

#[test]
fn test_volume_type_from_fs_name() {
    assert_eq!(volume_type_from_fs_name("NTFS"), VolumeType::NTFS);
    assert_eq!(volume_type_from_fs_name("FAT32"), VolumeType::FAT32);
    assert_eq!(volume_type_from_fs_name("EXFAT"), VolumeType::ExFAT);
    assert_eq!(volume_type_from_fs_name("REFS"), VolumeType::Unknown);
}

#[test]
fn test_volume_event() {
    let mounted = VolumeEvent::Mounted('C');
    let unmounted = VolumeEvent::Unmounted('D');
    assert_eq!(mounted, VolumeEvent::Mounted('C'));
    assert_ne!(mounted, unmounted);
}

#[test]
fn test_drive_letters_from_mask() {
    assert_eq!(drive_letters_from_mask(0), Vec::<char>::new());
    assert_eq!(drive_letters_from_mask(0b101), vec!['A', 'C']);
    assert_eq!(drive_letters_from_mask(1 << 25), vec!['Z']);
    assert_eq!(drive_letters_from_mask(0b1100), vec!['C', 'D']);
}

#[test]
fn test_volume_state_db_strings() {
    assert_eq!(VolumeState::Online.to_db_str(), "online");
    assert_eq!(VolumeState::Offline { since: 5 }.to_db_str(), "offline");
    assert_eq!(VolumeState::Indexing.to_db_str(), "indexing");
    assert_eq!(VolumeState::Rescanning.to_db_str(), "rescanning");
    assert_eq!(VolumeState::Disabled.to_db_str(), "disabled");
}

#[test]
fn test_volume_state_from_db() {
    assert_eq!(VolumeState::from_db("online", None), VolumeState::Online);
    assert_eq!(VolumeState::from_db("offline", Some(42)), VolumeState::Offline { since: 42 });
    assert_eq!(VolumeState::from_db("offline", None), VolumeState::Offline { since: 0 });
    assert_eq!(VolumeState::from_db("indexing", None), VolumeState::Indexing);
    assert_eq!(VolumeState::from_db("rescanning", None), VolumeState::Rescanning);
    assert_eq!(VolumeState::from_db("disabled", None), VolumeState::Disabled);
    // Unknown strings fall back to online.
    assert_eq!(VolumeState::from_db("garbled", None), VolumeState::Online);
}

#[test]
fn test_offline_since() {
    assert_eq!(VolumeState::Offline { since: 9 }.offline_since(), Some(9));
    assert_eq!(VolumeState::Online.offline_since(), None);
}

#[test]
fn test_error_message() {
    let e = FFIError::Database("boom".to_string());
    assert_eq!(e.message().as_str(), "boom");
    let e = FFIError::Search("bad query".to_string());
    assert_eq!(e.message().as_str(), "bad query");
}

#[test]
fn test_format_volume_serial() {
    assert_eq!(format_volume_serial(0xABCDEF01), "ABCDEF01");
    assert_eq!(format_volume_serial(0x1), "00000001");
    assert_eq!(format_volume_serial(0), "00000000");
    assert_eq!(format_volume_serial(u32::MAX), "FFFFFFFF");
}
