//! Configuration tests: defaults, per-volume settings, exclusion rules.

use ffi::config::{Config, ExcludeConfig, VolumeConfig};

#[test]
fn test_config_default() {
    let config = Config::default();
    assert_eq!(config.general.usn_poll_interval_secs, 30);
    assert_eq!(config.general.offline_retention_days, 7);
    assert!(config.volumes.is_empty());
    assert!(config.exclude.paths.is_empty());
}

#[test]
fn test_volume_not_enabled_by_default() {
    let config = Config::default();
    // Volumes must be explicitly listed to be enabled.
    assert!(!config.is_volume_enabled('C'));
    assert!(!config.is_volume_enabled('D'));
}

#[test]
fn test_volume_enabled_when_configured() {
    let mut config = Config::default();
    config.set_volume('C', VolumeConfig { enabled: true, reconcile_interval_mins: 30 });
    assert!(config.is_volume_enabled('C'));
    assert!(!config.is_volume_enabled('D'));
}

#[test]
fn test_volume_disabled_when_configured_off() {
    let mut config = Config::default();
    config.set_volume('E', VolumeConfig { enabled: false, reconcile_interval_mins: 30 });
    assert!(!config.is_volume_enabled('E'));
}

#[test]
fn test_reconcile_interval() {
    let mut config = Config::default();
    config.set_volume('D', VolumeConfig { enabled: true, reconcile_interval_mins: 60 });
    assert_eq!(config.reconcile_interval_mins('D'), 60);
    // Unlisted volumes fall back to the default.
    assert_eq!(config.reconcile_interval_mins('Q'), 30);
}

#[test]
fn test_set_volume_supersedes() {
    let mut config = Config::default();
    config.set_volume('C', VolumeConfig { enabled: true, reconcile_interval_mins: 10 });
    config.set_volume('C', VolumeConfig { enabled: false, reconcile_interval_mins: 45 });
    assert!(!config.is_volume_enabled('C'));
    assert_eq!(config.reconcile_interval_mins('C'), 45);
}

#[test]
fn test_exclude_path_matching() {
    let exclude = ExcludeConfig {
        paths: vec![r"C:\Windows\Temp".to_string(), r"C:\$Recycle.Bin".to_string()],
        extensions: vec![],
    };
    assert!(exclude.should_exclude_path(r"C:\Windows\Temp\file.txt"));
    // Case-insensitive prefix match.
    assert!(exclude.should_exclude_path(r"c:\windows\temp\subdir\file.txt"));
    assert!(!exclude.should_exclude_path(r"C:\Users\file.txt"));
}

#[test]
fn test_exclude_extension_matching() {
    let exclude = ExcludeConfig {
        paths: vec![],
        extensions: vec!["tmp".to_string(), "log".to_string()],
    };
    assert!(exclude.should_exclude_extension("tmp"));
    // Case-insensitive.
    assert!(exclude.should_exclude_extension("TMP"));
    assert!(exclude.should_exclude_extension("log"));
    assert!(!exclude.should_exclude_extension("txt"));
}

#[test]
fn test_data_dir_default_and_override() {
    let mut config = Config::default();
    assert_eq!(config.data_dir(), "C:\\ProgramData\\FFI");
    config.general.data_dir = Some("D:\\Index".to_string());
    assert_eq!(config.data_dir(), "D:\\Index");
}
