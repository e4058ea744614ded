//! Reconciliation scheduling for FAT volumes, which have no change journal
//! and are kept current by periodic full rescans.
//!
//! The scheduler decides which volumes are due; the surrounding program
//! runs the directory walks and reports the time.

use vstd::prelude::*;

use crate::config::Config;
use crate::volume::{VolumeInfo, VolumeType};

verus! {

/// Interval between reconciler loop iterations, in seconds.
pub const LOOP_INTERVAL_SECS: u64 = 60;

/// Interval between offline-volume cleanup sweeps, in seconds (one day).
pub const CLEANUP_INTERVAL_SECS: u64 = 86400;

/// One volume's rescan schedule.
#[derive(Debug, Clone, Copy, PartialEq, Eq, Structural)]
pub struct ReconcileEntry {
    /// Drive letter, e.g. `D`.
    pub letter: char,
    /// Seconds between rescans.
    pub interval_secs: u64,
    /// When the volume was last scanned, in epoch seconds.
    pub last_scan: u64,
}

/// A reconciliation interval in seconds, from minutes, saturating.
pub open spec fn spec_interval_secs(mins: u64) -> u64 {
    if mins > u64::MAX / 60 {
        u64::MAX
    } else {
        (mins * 60) as u64
    }
}

/// Whether an entry is due for a rescan at time `now`.
pub open spec fn spec_due(e: ReconcileEntry, now: u64) -> bool {
    e.last_scan <= now && now - e.last_scan >= e.interval_secs
}

/// An entry after its rescan at time `now`.
pub open spec fn spec_rescanned(e: ReconcileEntry, now: u64) -> ReconcileEntry {
    ReconcileEntry { last_scan: now, ..e }
}

/// The letters of the entries due at time `now`, in schedule order.
pub open spec fn spec_due_letters(s: Seq<ReconcileEntry>, now: u64) -> Seq<char>
    decreases s.len(),
{
    if s.len() == 0 {
        Seq::empty()
    } else {
        (if spec_due(s.first(), now) {
            seq![s.first().letter]
        } else {
            Seq::empty()
        }) + spec_due_letters(s.drop_first(), now)
    }
}

/// A schedule with every entry of one letter removed.
pub open spec fn spec_without_letter(s: Seq<ReconcileEntry>, letter: char) -> Seq<ReconcileEntry>
    decreases s.len(),
{
    if s.len() == 0 {
        Seq::empty()
    } else {
        (if s.first().letter == letter {
            Seq::empty()
        } else {
            seq![s.first()]
        }) + spec_without_letter(s.drop_first(), letter)
    }
}

/// The schedule built from the detected volumes: every FAT volume that the
/// configuration enables, at its configured interval, last scanned `now`
/// (the first rescan waits a full interval).
pub open spec fn spec_schedule_for(config: Config, detected: Seq<VolumeInfo>, now: u64) -> Seq<
    ReconcileEntry,
>
    decreases detected.len(),
{
    if detected.len() == 0 {
        Seq::empty()
    } else {
        let v = detected.first();
        (if (v.fs_type == VolumeType::FAT32 || v.fs_type == VolumeType::ExFAT)
            && config.spec_is_enabled(v.drive_letter) {
            seq![
                ReconcileEntry {
                    letter: v.drive_letter,
                    interval_secs: spec_interval_secs(
                        config.spec_reconcile_interval_mins(v.drive_letter),
                    ),
                    last_scan: now,
                },
            ]
        } else {
            Seq::empty()
        }) + spec_schedule_for(config, detected.drop_first(), now)
    }
}

/// Rescan scheduler for FAT volumes.
pub struct FatReconciler {
    entries: Vec<ReconcileEntry>,
    offline_retention_days: u32,
}

impl FatReconciler {
    /// The schedule the reconciler holds.
    pub closed spec fn spec_entries(&self) -> Seq<ReconcileEntry> {
        self.entries@
    }

    /// The configured offline retention period in days.
    pub closed spec fn spec_retention_days(&self) -> u32 {
        self.offline_retention_days
    }

    /// Build the schedule from the configuration and the detected volumes,
    /// keeping the FAT volumes that are enabled for indexing.
    pub fn new(config: &Config, detected: &Vec<VolumeInfo>, now: u64) -> (r: Self)
        ensures
            r.spec_entries() =~= spec_schedule_for(*config, detected@, now),
            r.spec_retention_days() == config.general.offline_retention_days,
    {
        let mut entries: Vec<ReconcileEntry> = Vec::new();
        let mut i: usize = 0;
        proof {
            assert(detected@.skip(0) =~= detected@);
        }
        while i < detected.len()
            invariant
                i <= detected@.len(),
                entries@ + spec_schedule_for(*config, detected@.skip(i as int), now)
                    =~= spec_schedule_for(*config, detected@, now),
            decreases detected@.len() - i,
        {
            proof {
                assert(detected@.skip(i as int).first() == detected@[i as int]);
                assert(detected@.skip(i as int).drop_first() =~= detected@.skip(i + 1));
            }
            let v = &detected[i];
            let is_fat = match v.fs_type {
                VolumeType::FAT32 => true,
                VolumeType::ExFAT => true,
                _ => false,
            };
            if is_fat && config.is_volume_enabled(v.drive_letter) {
                let mins = config.reconcile_interval_mins(v.drive_letter);
                let interval_secs: u64 = if mins > u64::MAX / 60 {
                    u64::MAX
                } else {
                    mins * 60
                };
                entries.push(ReconcileEntry { letter: v.drive_letter, interval_secs, last_scan: now });
            }
            i = i + 1;
        }
        proof {
            assert(spec_schedule_for(*config, detected@.skip(detected@.len() as int), now) =~= Seq::<
                ReconcileEntry,
            >::empty());
        }
        FatReconciler { entries, offline_retention_days: config.general.offline_retention_days }
    }

    /// Add a volume to the schedule (hot-added mounts), superseding any
    /// earlier entry for the letter; its first rescan waits a full interval
    /// from `now`.
    pub fn add_volume(&mut self, drive_letter: char, interval_secs: u64, now: u64)
        ensures
            final(self).spec_entries() =~= spec_without_letter(old(self).spec_entries(), drive_letter)
                + seq![
                ReconcileEntry { letter: drive_letter, interval_secs: interval_secs, last_scan: now },
            ],
            final(self).spec_retention_days() == old(self).spec_retention_days(),
    {
        self.remove_volume(drive_letter);
        self.entries.push(ReconcileEntry { letter: drive_letter, interval_secs, last_scan: now });
    }

    /// Remove a volume from the schedule (unmounted volumes).
    pub fn remove_volume(&mut self, drive_letter: char)
        ensures
            final(self).spec_entries() =~= spec_without_letter(old(self).spec_entries(), drive_letter),
            final(self).spec_retention_days() == old(self).spec_retention_days(),
    {
        let mut kept: Vec<ReconcileEntry> = Vec::new();
        let mut i: usize = 0;
        proof {
            assert(self.entries@.skip(0) =~= self.entries@);
        }
        while i < self.entries.len()
            invariant
                i <= self.entries@.len(),
                self.entries@ == old(self).spec_entries(),
                kept@ + spec_without_letter(self.entries@.skip(i as int), drive_letter)
                    =~= spec_without_letter(self.entries@, drive_letter),
                self.offline_retention_days == old(self).spec_retention_days(),
            decreases self.entries@.len() - i,
        {
            proof {
                assert(self.entries@.skip(i as int).first() == self.entries@[i as int]);
                assert(self.entries@.skip(i as int).drop_first() =~= self.entries@.skip(i + 1));
            }
            let e = self.entries[i];
            if e.letter != drive_letter {
                kept.push(e);
            }
            i = i + 1;
        }
        proof {
            assert(spec_without_letter(
                self.entries@.skip(self.entries@.len() as int),
                drive_letter,
            ) =~= Seq::<ReconcileEntry>::empty());
        }
        self.entries = kept;
    }

    /// Decide which volumes are due for a rescan at time `now`, and record
    /// `now` as their last scan time.
    ///
    /// The caller runs the rescans: it moves each returned volume to the
    /// rescanning state, walks it, and brings it back online.
    pub fn check_and_reconcile(&mut self, now: u64) -> (r: Vec<char>)
        ensures
            r@ =~= spec_due_letters(old(self).spec_entries(), now),
            final(self).spec_entries().len() == old(self).spec_entries().len(),
            forall|i: int| 0 <= i < old(self).spec_entries().len() ==> final(self).spec_entries()[i]
                == (if spec_due(#[trigger] old(self).spec_entries()[i], now) {
                spec_rescanned(old(self).spec_entries()[i], now)
            } else {
                old(self).spec_entries()[i]
            }),
            final(self).spec_retention_days() == old(self).spec_retention_days(),
    {
        let mut due: Vec<char> = Vec::new();
        let mut updated: Vec<ReconcileEntry> = Vec::new();
        let mut i: usize = 0;
        proof {
            assert(self.entries@.skip(0) =~= self.entries@);
        }
        while i < self.entries.len()
            invariant
                i <= self.entries@.len(),
                self.entries@ == old(self).spec_entries(),
                self.offline_retention_days == old(self).spec_retention_days(),
                updated@.len() == i,
                forall|j: int| 0 <= j < i ==> updated@[j] == (if spec_due(
                    #[trigger] self.entries@[j],
                    now,
                ) {
                    spec_rescanned(self.entries@[j], now)
                } else {
                    self.entries@[j]
                }),
                due@ + spec_due_letters(self.entries@.skip(i as int), now) =~= spec_due_letters(
                    self.entries@,
                    now,
                ),
            decreases self.entries@.len() - i,
        {
            proof {
                assert(self.entries@.skip(i as int).first() == self.entries@[i as int]);
                assert(self.entries@.skip(i as int).drop_first() =~= self.entries@.skip(i + 1));
            }
            let e = self.entries[i];
            if e.last_scan <= now && now - e.last_scan >= e.interval_secs {
                due.push(e.letter);
                updated.push(ReconcileEntry { letter: e.letter, interval_secs: e.interval_secs, last_scan: now });
            } else {
                updated.push(e);
            }
            i = i + 1;
        }
        proof {
            assert(spec_due_letters(self.entries@.skip(self.entries@.len() as int), now) =~= Seq::<
                char,
            >::empty());
        }
        self.entries = updated;
        due
    }

    /// Whether any volume is scheduled for reconciliation.
    pub fn has_volumes(&self) -> (r: bool)
        ensures
            r == (self.spec_entries().len() != 0),
    {
        self.entries.len() != 0
    }

    /// The configured offline retention period in days, for the daily
    /// cleanup sweep.
    pub fn offline_retention_days(&self) -> (r: u32)
        ensures
            r == self.spec_retention_days(),
    {
        self.offline_retention_days
    }
}

} // verus!
