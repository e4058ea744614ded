//! Service configuration: general settings, per-volume settings, and
//! exclusion rules.
//!
//! Reading and writing the configuration file is the surrounding program's
//! business; the rules the settings encode are verified here.

use vstd::prelude::*;

use crate::ext::{lower_of, to_lowercase};

verus! {

/// Default journal polling interval in seconds.
pub fn default_poll_interval() -> (r: u64)
    ensures
        r == 30,
{
    30
}

/// Default offline retention period in days.
pub fn default_offline_retention() -> (r: u32)
    ensures
        r == 7,
{
    7
}

/// Default enabled state of a volume that is listed in the configuration.
pub fn default_true() -> (r: bool)
    ensures
        r,
{
    true
}

/// Default reconciliation interval in minutes for FAT volumes.
pub fn default_reconcile_interval() -> (r: u64)
    ensures
        r == 30,
{
    30
}

/// General service configuration.
#[derive(Debug, Clone)]
pub struct GeneralConfig {
    /// Data directory override for the catalog and logs.
    pub data_dir: Option<String>,
    /// Journal polling interval in seconds.
    pub usn_poll_interval_secs: u64,
    /// Days to keep offline volume data before eviction.
    pub offline_retention_days: u32,
}

impl Default for GeneralConfig {
    fn default() -> (r: Self)
        ensures
            r.data_dir is None,
            r.usn_poll_interval_secs == 30,
            r.offline_retention_days == 7,
    {
        GeneralConfig {
            data_dir: None,
            usn_poll_interval_secs: default_poll_interval(),
            offline_retention_days: default_offline_retention(),
        }
    }
}

/// Per-volume configuration.
#[derive(Debug, Clone, Copy, PartialEq, Eq, Structural)]
pub struct VolumeConfig {
    /// Whether indexing is enabled for this volume.
    pub enabled: bool,
    /// Reconciliation interval in minutes (FAT volumes).
    pub reconcile_interval_mins: u64,
}

impl Default for VolumeConfig {
    fn default() -> (r: Self)
        ensures
            r.enabled,
            r.reconcile_interval_mins == 30,
    {
        VolumeConfig { enabled: default_true(), reconcile_interval_mins: default_reconcile_interval() }
    }
}

/// One volume's settings, keyed by its drive letter.
#[derive(Debug, Clone, Copy, PartialEq, Eq, Structural)]
pub struct VolumeEntry {
    /// Drive letter, e.g. `C`.
    pub letter: char,
    /// The volume's settings.
    pub config: VolumeConfig,
}

/// Path and extension exclusion rules.
#[derive(Debug, Clone)]
pub struct ExcludeConfig {
    /// Path prefixes to exclude from indexing, case-insensitively.
    pub paths: Vec<String>,
    /// File extensions to exclude, without the leading dot.
    pub extensions: Vec<String>,
}

impl Default for ExcludeConfig {
    fn default() -> (r: Self)
        ensures
            r.paths@.len() == 0,
            r.extensions@.len() == 0,
    {
        ExcludeConfig { paths: Vec::new(), extensions: Vec::new() }
    }
}

/// Whether `p` is a prefix of `s`.
pub open spec fn spec_is_prefix(p: Seq<char>, s: Seq<char>) -> bool {
    p.len() <= s.len() && s.take(p.len() as int) == p
}

/// Whether one string starts with another.
pub(crate) fn str_starts_with(s: &str, prefix: &str) -> (r: bool)
    ensures
        r == spec_is_prefix(prefix@, s@),
{
    let n = s.unicode_len();
    let m = prefix.unicode_len();
    if m > n {
        proof {
            assert(!spec_is_prefix(prefix@, s@));
        }
        return false;
    }
    let mut i: usize = 0;
    while i < m
        invariant
            m == prefix@.len(),
            n == s@.len(),
            m <= n,
            i <= m,
            forall|l: int| 0 <= l < i ==> s@[l] == prefix@[l],
        decreases m - i,
    {
        if s.get_char(i) != prefix.get_char(i) {
            proof {
                assert(s@.take(m as int)[i as int] != prefix@[i as int]);
            }
            return false;
        }
        i = i + 1;
    }
    proof {
        assert(s@.take(m as int) =~= prefix@);
    }
    true
}

impl ExcludeConfig {
    /// Whether a path falls under one of the excluded prefixes,
    /// case-insensitively.
    pub fn should_exclude_path(&self, path: &str) -> (r: bool)
        ensures
            r == exists|j: int|
                0 <= j < self.paths@.len() && spec_is_prefix(
                    lower_of((#[trigger] self.paths@[j])@),
                    lower_of(path@),
                ),
    {
        let path_lower = to_lowercase(path);
        let mut i: usize = 0;
        while i < self.paths.len()
            invariant
                i <= self.paths@.len(),
                path_lower@ == lower_of(path@),
                forall|j: int| 0 <= j < i ==> !spec_is_prefix(
                    lower_of((#[trigger] self.paths@[j])@),
                    lower_of(path@),
                ),
            decreases self.paths@.len() - i,
        {
            let prefix_lower = to_lowercase(self.paths[i].as_str());
            if str_starts_with(path_lower.as_str(), prefix_lower.as_str()) {
                return true;
            }
            i = i + 1;
        }
        false
    }

    /// Whether a file extension is excluded, case-insensitively.
    pub fn should_exclude_extension(&self, ext: &str) -> (r: bool)
        ensures
            r == exists|j: int|
                0 <= j < self.extensions@.len() && lower_of((#[trigger] self.extensions@[j])@)
                    == lower_of(ext@),
    {
        let ext_lower = to_lowercase(ext);
        let mut i: usize = 0;
        while i < self.extensions.len()
            invariant
                i <= self.extensions@.len(),
                ext_lower@ == lower_of(ext@),
                forall|j: int| 0 <= j < i ==> lower_of((#[trigger] self.extensions@[j])@)
                    != lower_of(ext@),
            decreases self.extensions@.len() - i,
        {
            let entry_lower = to_lowercase(self.extensions[i].as_str());
            if entry_lower.as_str().eq(ext_lower.as_str()) {
                return true;
            }
            i = i + 1;
        }
        false
    }
}

/// Main configuration of the service.
#[derive(Debug, Clone)]
pub struct Config {
    /// General service settings.
    pub general: GeneralConfig,
    /// Per-volume configuration; the earliest entry for a letter wins.
    pub volumes: Vec<VolumeEntry>,
    /// Path and extension exclusion rules.
    pub exclude: ExcludeConfig,
}

impl Default for Config {
    fn default() -> (r: Self)
        ensures
            r.general.data_dir is None,
            r.general.usn_poll_interval_secs == 30,
            r.general.offline_retention_days == 7,
            r.volumes@.len() == 0,
            r.exclude.paths@.len() == 0,
            r.exclude.extensions@.len() == 0,
    {
        Config {
            general: GeneralConfig::default(),
            volumes: Vec::new(),
            exclude: ExcludeConfig::default(),
        }
    }
}

/// The settings recorded for a drive letter, if any (earliest entry wins).
pub open spec fn spec_find_volume(entries: Seq<VolumeEntry>, letter: char) -> Option<VolumeConfig>
    decreases entries.len(),
{
    if entries.len() == 0 {
        None
    } else if entries.first().letter == letter {
        Some(entries.first().config)
    } else {
        spec_find_volume(entries.drop_first(), letter)
    }
}

impl Config {
    /// Record a volume's settings under its drive letter, superseding any
    /// earlier entry for the same letter.
    pub fn set_volume(&mut self, letter: char, config: VolumeConfig)
        ensures
            spec_find_volume(final(self).volumes@, letter) == Some(config),
            forall|l: char| l != letter ==> spec_find_volume(final(self).volumes@, l)
                == spec_find_volume(old(self).volumes@, l),
            final(self).general == old(self).general,
            final(self).exclude == old(self).exclude,
    {
        let ghost before = self.volumes@;
        self.volumes.insert(0, VolumeEntry { letter, config });
        proof {
            assert(self.volumes@.drop_first() =~= before);
        }
    }

    /// Whether a volume is enabled for indexing: volumes must be listed in
    /// the configuration to be indexed.
    pub fn is_volume_enabled(&self, drive_letter: char) -> (r: bool)
        ensures
            r == self.spec_is_enabled(drive_letter),
    {
        match self.find_volume(drive_letter) {
            Some(cfg) => cfg.enabled,
            None => false,
        }
    }

    /// Whether a volume is enabled for indexing.
    pub open spec fn spec_is_enabled(&self, letter: char) -> bool {
        match spec_find_volume(self.volumes@, letter) {
            Some(cfg) => cfg.enabled,
            None => false,
        }
    }

    /// The reconciliation interval for a volume, in minutes.
    pub fn reconcile_interval_mins(&self, drive_letter: char) -> (r: u64)
        ensures
            r == self.spec_reconcile_interval_mins(drive_letter),
    {
        match self.find_volume(drive_letter) {
            Some(cfg) => cfg.reconcile_interval_mins,
            None => default_reconcile_interval(),
        }
    }

    /// The reconciliation interval for a volume, in minutes.
    pub open spec fn spec_reconcile_interval_mins(&self, letter: char) -> u64 {
        match spec_find_volume(self.volumes@, letter) {
            Some(cfg) => cfg.reconcile_interval_mins,
            None => 30,
        }
    }

    /// The settings recorded for a drive letter, if any.
    fn find_volume(&self, letter: char) -> (r: Option<VolumeConfig>)
        ensures
            r == spec_find_volume(self.volumes@, letter),
    {
        let mut i: usize = 0;
        proof {
            assert(self.volumes@.skip(0) =~= self.volumes@);
        }
        while i < self.volumes.len()
            invariant
                i <= self.volumes@.len(),
                spec_find_volume(self.volumes@, letter) == spec_find_volume(
                    self.volumes@.skip(i as int),
                    letter,
                ),
            decreases self.volumes@.len() - i,
        {
            proof {
                assert(self.volumes@.skip(i as int).first() == self.volumes@[i as int]);
                assert(self.volumes@.skip(i as int).drop_first() =~= self.volumes@.skip(i + 1));
            }
            if self.volumes[i].letter == letter {
                return Some(self.volumes[i].config);
            }
            i = i + 1;
        }
        proof {
            assert(self.volumes@.skip(self.volumes@.len() as int) =~= Seq::<VolumeEntry>::empty());
        }
        None
    }

    /// The data directory for the catalog and logs: the configured
    /// override, or the platform default.
    pub fn data_dir(&self) -> (r: String)
        ensures
            r@ == (match self.general.data_dir {
                Some(d) => d@,
                None => "C:\\ProgramData\\FFI"@,
            }),
    {
        match &self.general.data_dir {
            Some(d) => d.clone(),
            None => {
                let s = String::from_str("C:\\ProgramData\\FFI");
                s
            },
        }
    }
}

} // verus!
