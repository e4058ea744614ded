//! Volume lifecycle transitions driven by mount and unmount events.
//!
//! The surrounding program reports the event, the volume serial the
//! operating system sees, and the current time; the state transitions over
//! the catalog are verified here.

use vstd::prelude::*;

use crate::config::Config;
use crate::db;
use crate::db::{VolumeModel, files_of, ids_at_drive, volumes_of};
use crate::FFIError;
use crate::VolumeState;

verus! {

/// The drive-letter string a volume is cataloged under, e.g. `C:`.
pub open spec fn spec_drive_str(letter: char) -> Seq<char> {
    seq![letter, ':']
}

/// The row a mount event leaves at a drive letter: with a differing,
/// non-empty reported serial the record is a swapped-out volume and goes
/// offline; otherwise the volume reconnected and goes online.
pub open spec fn mount_row(row: VolumeModel, reported_serial: Seq<char>, now: int) -> VolumeModel {
    if row.serial != reported_serial && reported_serial.len() != 0 {
        VolumeModel { state: "offline"@, offline_since: Some(now), ..row }
    } else {
        VolumeModel { state: "online"@, offline_since: None, ..row }
    }
}

/// The row an unmount event leaves: offline as of `now`, data preserved.
pub open spec fn unmount_row(row: VolumeModel, now: int) -> VolumeModel {
    VolumeModel { state: "offline"@, offline_since: Some(now), ..row }
}

/// Whether `v1` is `v0` with a mount event applied to some record at the
/// drive-letter string `ds`.
pub open spec fn mount_applied(
    v0: Map<int, VolumeModel>,
    v1: Map<int, VolumeModel>,
    ds: Seq<char>,
    reported_serial: Seq<char>,
    now: int,
) -> bool {
    exists|id: int|
        v0.dom().contains(id) && v0[id].drive == ds && v1 == v0.insert(
            id,
            #[trigger] mount_row(v0[id], reported_serial, now),
        )
}

/// Whether `v1` is `v0` with an unmount event applied to some record at the
/// drive-letter string `ds`.
pub open spec fn unmount_applied(
    v0: Map<int, VolumeModel>,
    v1: Map<int, VolumeModel>,
    ds: Seq<char>,
    now: int,
) -> bool {
    exists|id: int|
        v0.dom().contains(id) && v0[id].drive == ds && v1 == v0.insert(
            id,
            #[trigger] unmount_row(v0[id], now),
        )
}

/// Build the drive-letter string a volume is cataloged under.
pub fn drive_str(letter: char) -> (r: String)
    ensures
        r@ == spec_drive_str(letter),
{
    let mut s = crate::ext::char_to_string(letter);
    s.append(":");
    proof {
        reveal_strlit(":");
        assert(":"@ =~= seq![':']);
        assert(s@ =~= spec_drive_str(letter));
    }
    s
}

/// Handle a volume mount event.
///
/// A volume not enabled in the configuration is ignored. Otherwise: when
/// the catalog holds a record at the letter whose serial differs from the
/// reported one (volume swap), the old record goes offline as of `now` and
/// its rows await retention; when the serial matches (or none was
/// reported), the record goes back online. A letter without a record is
/// left for the next orchestration pass. File rows are never touched.
pub fn handle_volume_mount(
    drive_letter: char,
    config: &Config,
    conn: &mut rusqlite::Connection,
    reported_serial: &str,
    now: i64,
) -> (r: Result<(), FFIError>)
    ensures
        files_of(*final(conn)) == files_of(*old(conn)),
        r is Err ==> volumes_of(*final(conn)) == volumes_of(*old(conn)),
        !config.spec_is_enabled(drive_letter) ==> r is Ok && volumes_of(*final(conn)) == volumes_of(
            *old(conn),
        ),
        r is Ok && config.spec_is_enabled(drive_letter) ==> {
            &&& ids_at_drive(volumes_of(*old(conn)), spec_drive_str(drive_letter)) == Set::<
                int,
            >::empty() ==> volumes_of(*final(conn)) == volumes_of(*old(conn))
            &&& ids_at_drive(volumes_of(*old(conn)), spec_drive_str(drive_letter)) != Set::<
                int,
            >::empty() ==> mount_applied(
                volumes_of(*old(conn)),
                volumes_of(*final(conn)),
                spec_drive_str(drive_letter),
                reported_serial@,
                now as int,
            )
        },
{
    if !config.is_volume_enabled(drive_letter) {
        return Ok(());
    }
    let ds = drive_str(drive_letter);
    let existing = match db::get_volume(&*conn, ds.as_str()) {
        Ok(v) => v,
        Err(e) => {
            return Err(e);
        },
    };
    match existing {
        Some(vol) => {
            let serial_matches = vol.volume_serial.as_str().eq(reported_serial);
            let serial_missing = reported_serial.is_empty();
            let outcome = if !serial_matches && !serial_missing {
                // A different physical volume appeared at this letter:
                // the old record's rows await retention.
                db::update_volume_state(conn, vol.id, VolumeState::Offline { since: now })
            } else {
                db::update_volume_state(conn, vol.id, VolumeState::Online)
            };
            match outcome {
                Ok(()) => {
                    proof {
                        let v0 = volumes_of(*old(conn));
                        let id = vol.id as int;
                        assert(ids_at_drive(v0, spec_drive_str(drive_letter)).contains(id));
                        assert(volumes_of(*conn) == v0.insert(
                            id,
                            mount_row(v0[id], reported_serial@, now as int),
                        ));
                    }
                    Ok(())
                },
                Err(e) => Err(e),
            }
        },
        None => Ok(()),
    }
}

/// The debounce window for mount events, in milliseconds: floods of
/// arrival notifications at boot collapse into one handling per letter.
pub const MOUNT_DEBOUNCE_WINDOW_MS: u64 = 100;

/// One pending mount event.
#[derive(Debug, Clone, Copy, PartialEq, Eq, Structural)]
pub struct PendingMount {
    /// Drive letter the event named.
    pub letter: char,
    /// When the latest event for the letter arrived, in milliseconds.
    pub seen_at_ms: u64,
}

/// Whether a pending mount's debounce window has elapsed at `now_ms`.
pub open spec fn spec_mount_due(e: PendingMount, now_ms: u64, window_ms: u64) -> bool {
    e.seen_at_ms <= now_ms && now_ms - e.seen_at_ms >= window_ms
}

/// The pending mounts with every entry of one letter removed.
pub open spec fn spec_without_pending(s: Seq<PendingMount>, letter: char) -> Seq<PendingMount>
    decreases s.len(),
{
    if s.len() == 0 {
        Seq::empty()
    } else {
        (if s.first().letter == letter {
            Seq::empty()
        } else {
            seq![s.first()]
        }) + spec_without_pending(s.drop_first(), letter)
    }
}

/// The letters whose debounce window elapsed, in arrival order.
pub open spec fn spec_ready_letters(s: Seq<PendingMount>, now_ms: u64, window_ms: u64) -> Seq<char>
    decreases s.len(),
{
    if s.len() == 0 {
        Seq::empty()
    } else {
        (if spec_mount_due(s.first(), now_ms, window_ms) {
            seq![s.first().letter]
        } else {
            Seq::empty()
        }) + spec_ready_letters(s.drop_first(), now_ms, window_ms)
    }
}

/// The pending mounts still waiting out their window.
pub open spec fn spec_waiting(s: Seq<PendingMount>, now_ms: u64, window_ms: u64) -> Seq<PendingMount>
    decreases s.len(),
{
    if s.len() == 0 {
        Seq::empty()
    } else {
        (if spec_mount_due(s.first(), now_ms, window_ms) {
            Seq::empty()
        } else {
            seq![s.first()]
        }) + spec_waiting(s.drop_first(), now_ms, window_ms)
    }
}

/// Debounces mount events: a letter is handled once its latest arrival is
/// a full window old; a repeat arrival re-arms the window, and an unmount
/// cancels the pending mount.
pub struct MountDebouncer {
    pending: Vec<PendingMount>,
    window_ms: u64,
}

impl MountDebouncer {
    /// The mounts waiting out their window.
    pub closed spec fn spec_pending(&self) -> Seq<PendingMount> {
        self.pending@
    }

    /// The debounce window in milliseconds.
    pub closed spec fn spec_window_ms(&self) -> u64 {
        self.window_ms
    }

    /// A debouncer with the given window and nothing pending.
    pub fn new(window_ms: u64) -> (r: Self)
        ensures
            r.spec_pending() =~= Seq::<PendingMount>::empty(),
            r.spec_window_ms() == window_ms,
    {
        MountDebouncer { pending: Vec::new(), window_ms }
    }

    /// Record a mount event: any earlier pending event for the letter is
    /// superseded and its window re-armed from `now_ms`.
    pub fn record_mount(&mut self, letter: char, now_ms: u64)
        ensures
            final(self).spec_pending() =~= spec_without_pending(old(self).spec_pending(), letter)
                + seq![PendingMount { letter: letter, seen_at_ms: now_ms }],
            final(self).spec_window_ms() == old(self).spec_window_ms(),
    {
        self.remove_letter(letter);
        self.pending.push(PendingMount { letter, seen_at_ms: now_ms });
    }

    /// Record an unmount event: a pending mount for the letter is void
    /// (the unmount itself is handled immediately, not debounced).
    pub fn record_unmount(&mut self, letter: char)
        ensures
            final(self).spec_pending() =~= spec_without_pending(old(self).spec_pending(), letter),
            final(self).spec_window_ms() == old(self).spec_window_ms(),
    {
        self.remove_letter(letter);
    }

    fn remove_letter(&mut self, letter: char)
        ensures
            final(self).spec_pending() =~= spec_without_pending(old(self).spec_pending(), letter),
            final(self).spec_window_ms() == old(self).spec_window_ms(),
    {
        let mut kept: Vec<PendingMount> = Vec::new();
        let mut i: usize = 0;
        proof {
            assert(self.pending@.skip(0) =~= self.pending@);
        }
        while i < self.pending.len()
            invariant
                i <= self.pending@.len(),
                self.pending@ == old(self).spec_pending(),
                self.window_ms == old(self).spec_window_ms(),
                kept@ + spec_without_pending(self.pending@.skip(i as int), letter)
                    =~= spec_without_pending(self.pending@, letter),
            decreases self.pending@.len() - i,
        {
            proof {
                assert(self.pending@.skip(i as int).first() == self.pending@[i as int]);
                assert(self.pending@.skip(i as int).drop_first() =~= self.pending@.skip(i + 1));
            }
            let e = self.pending[i];
            if e.letter != letter {
                kept.push(e);
            }
            i = i + 1;
        }
        proof {
            assert(spec_without_pending(self.pending@.skip(self.pending@.len() as int), letter)
                =~= Seq::<PendingMount>::empty());
        }
        self.pending = kept;
    }

    /// The letters whose window elapsed at `now_ms`; they leave the
    /// pending set and are handled by the caller.
    pub fn ready(&mut self, now_ms: u64) -> (r: Vec<char>)
        ensures
            r@ =~= spec_ready_letters(old(self).spec_pending(), now_ms, old(self).spec_window_ms()),
            final(self).spec_pending() =~= spec_waiting(
                old(self).spec_pending(),
                now_ms,
                old(self).spec_window_ms(),
            ),
            final(self).spec_window_ms() == old(self).spec_window_ms(),
    {
        let mut due: Vec<char> = Vec::new();
        let mut waiting: Vec<PendingMount> = Vec::new();
        let mut i: usize = 0;
        proof {
            assert(self.pending@.skip(0) =~= self.pending@);
        }
        while i < self.pending.len()
            invariant
                i <= self.pending@.len(),
                self.pending@ == old(self).spec_pending(),
                self.window_ms == old(self).spec_window_ms(),
                due@ + spec_ready_letters(self.pending@.skip(i as int), now_ms, self.window_ms)
                    =~= spec_ready_letters(self.pending@, now_ms, self.window_ms),
                waiting@ + spec_waiting(self.pending@.skip(i as int), now_ms, self.window_ms)
                    =~= spec_waiting(self.pending@, now_ms, self.window_ms),
            decreases self.pending@.len() - i,
        {
            proof {
                assert(self.pending@.skip(i as int).first() == self.pending@[i as int]);
                assert(self.pending@.skip(i as int).drop_first() =~= self.pending@.skip(i + 1));
            }
            let e = self.pending[i];
            if e.seen_at_ms <= now_ms && now_ms - e.seen_at_ms >= self.window_ms {
                due.push(e.letter);
            } else {
                waiting.push(e);
            }
            i = i + 1;
        }
        proof {
            assert(spec_ready_letters(
                self.pending@.skip(self.pending@.len() as int),
                now_ms,
                self.window_ms,
            ) =~= Seq::<char>::empty());
            assert(spec_waiting(
                self.pending@.skip(self.pending@.len() as int),
                now_ms,
                self.window_ms,
            ) =~= Seq::<PendingMount>::empty());
        }
        self.pending = waiting;
        due
    }
}

/// Handle a volume unmount event: the record at the letter, if any, goes
/// offline as of `now`; its rows are preserved for quick reconnection and
/// fall to retention later. File rows are never touched.
pub fn handle_volume_unmount(
    conn: &mut rusqlite::Connection,
    drive_letter: char,
    now: i64,
) -> (r: Result<(), FFIError>)
    ensures
        files_of(*final(conn)) == files_of(*old(conn)),
        r is Err ==> volumes_of(*final(conn)) == volumes_of(*old(conn)),
        r is Ok ==> {
            &&& ids_at_drive(volumes_of(*old(conn)), spec_drive_str(drive_letter)) == Set::<
                int,
            >::empty() ==> volumes_of(*final(conn)) == volumes_of(*old(conn))
            &&& ids_at_drive(volumes_of(*old(conn)), spec_drive_str(drive_letter)) != Set::<
                int,
            >::empty() ==> unmount_applied(
                volumes_of(*old(conn)),
                volumes_of(*final(conn)),
                spec_drive_str(drive_letter),
                now as int,
            )
        },
{
    let ds = drive_str(drive_letter);
    let existing = match db::get_volume(&*conn, ds.as_str()) {
        Ok(v) => v,
        Err(e) => {
            return Err(e);
        },
    };
    match existing {
        Some(vol) => {
            match db::update_volume_state(conn, vol.id, VolumeState::Offline { since: now }) {
                Ok(()) => {
                    proof {
                        let v0 = volumes_of(*old(conn));
                        let id = vol.id as int;
                        assert(ids_at_drive(v0, spec_drive_str(drive_letter)).contains(id));
                        assert(volumes_of(*conn) == v0.insert(id, unmount_row(v0[id], now as int)));
                    }
                    Ok(())
                },
                Err(e) => Err(e),
            }
        },
        None => Ok(()),
    }
}

} // verus!
