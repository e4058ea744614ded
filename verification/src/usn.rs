//! Change-journal monitoring: wrap and recreation detection, change
//! classification, deduplication, and atomic application to the catalog.
//!
//! The caller queries the operating system's change journal and hands the
//! metadata and records here as plain values; every decision over them is
//! verified.

use vstd::prelude::*;

use crate::db;
use crate::db::{FileModel, files_of, txn_commits, volumes_of};
use crate::FFIError;

verus! {

/// Type of filesystem change detected.
#[derive(Debug, Clone, Copy, PartialEq, Eq, Structural)]
pub enum ChangeType {
    /// File or directory was created.
    Create,
    /// File or directory was deleted.
    Delete,
    /// File or directory was renamed or moved.
    Rename,
    /// File content or metadata was modified.
    Modify,
}

/// A single classified change record.
#[derive(Debug, Clone)]
pub struct UsnChange {
    /// File reference number.
    pub file_ref: i64,
    /// Parent directory file reference.
    pub parent_ref: i64,
    /// Filename.
    pub name: String,
    /// Type of change.
    pub change_type: ChangeType,
    /// Whether this is a directory.
    pub is_dir: bool,
}

/// A raw journal record as read from the operating system.
#[derive(Debug, Clone)]
pub struct UsnRecord {
    /// Journal position of the record.
    pub usn: i64,
    /// Reason bitmap.
    pub reason: u32,
    /// File reference number.
    pub file_ref: i64,
    /// Parent directory file reference.
    pub parent_ref: i64,
    /// Filename.
    pub name: String,
    /// Whether the record describes a directory.
    pub is_dir: bool,
}

/// Journal metadata as reported by the operating system at one instant.
#[derive(Debug, Clone, Copy, PartialEq, Eq, Structural)]
pub struct JournalMeta {
    /// Identity of the journal; changes when the journal is recreated.
    pub journal_id: u64,
    /// First position the journal retains.
    pub first_usn: i64,
    /// Position the next record will get.
    pub next_usn: i64,
    /// Lowest position that is still valid to read from.
    pub lowest_valid_usn: i64,
}

/// Errors of journal monitoring.
#[derive(Debug, Clone, PartialEq, Eq)]
pub enum UsnError {
    /// The journal is not active on this volume (treat the volume as FAT).
    JournalNotActive,
    /// The journal wrapped: changes were missed, a rescan is needed.
    JournalWrapped {
        /// Last position this monitor processed.
        last_processed: i64,
        /// Lowest position the journal still holds.
        lowest_valid: i64,
    },
    /// The journal was recreated under a different identity.
    JournalRecreated {
        /// The identity this monitor had stored.
        old_id: u64,
        /// The identity the journal now reports.
        new_id: u64,
    },
    /// Any other failure.
    Other(String),
}

pub const USN_REASON_FILE_CREATE: u32 = 0x00000100;

pub const USN_REASON_FILE_DELETE: u32 = 0x00000200;

pub const USN_REASON_RENAME_OLD_NAME: u32 = 0x00001000;

pub const USN_REASON_RENAME_NEW_NAME: u32 = 0x00002000;

/// The single change type a reason bitmap classifies to, by priority
/// `Delete > Create > Rename > Modify`.
pub open spec fn spec_change_type(reason: u32) -> ChangeType {
    if reason & USN_REASON_FILE_DELETE != 0 {
        ChangeType::Delete
    } else if reason & USN_REASON_FILE_CREATE != 0 {
        ChangeType::Create
    } else if reason & (USN_REASON_RENAME_NEW_NAME | USN_REASON_RENAME_OLD_NAME) != 0 {
        ChangeType::Rename
    } else {
        ChangeType::Modify
    }
}

/// Journal monitor state for a single volume.
pub struct UsnMonitor {
    volume: char,
    last_usn: i64,
    journal_id: u64,
}

impl UsnMonitor {
    /// The drive letter this monitor serves.
    pub closed spec fn spec_volume(&self) -> char {
        self.volume
    }

    /// The cursor: the last journal position processed.
    pub closed spec fn spec_last_usn(&self) -> i64 {
        self.last_usn
    }

    /// The journal identity the monitor was opened against.
    pub closed spec fn spec_journal_id(&self) -> u64 {
        self.journal_id
    }

    /// Start monitoring a freshly opened journal: the cursor begins at the
    /// journal's first retained position.
    pub fn new(drive_letter: char, meta: &JournalMeta) -> (r: Self)
        ensures
            r.spec_volume() == drive_letter,
            r.spec_last_usn() == meta.first_usn,
            r.spec_journal_id() == meta.journal_id,
    {
        UsnMonitor { volume: drive_letter, last_usn: meta.first_usn, journal_id: meta.journal_id }
    }

    /// Resume monitoring from a saved cursor.
    ///
    /// Fails with `JournalRecreated` when the journal identity changed, and
    /// with `JournalWrapped` when the journal no longer retains the saved
    /// position; otherwise the saved cursor is adopted.
    pub fn resume(
        drive_letter: char,
        last_usn: i64,
        journal_id: u64,
        meta: &JournalMeta,
    ) -> (r: Result<Self, UsnError>)
        ensures
            meta.journal_id != journal_id ==> r == Err::<UsnMonitor, UsnError>(
                UsnError::JournalRecreated { old_id: journal_id, new_id: meta.journal_id },
            ),
            meta.journal_id == journal_id && last_usn < meta.lowest_valid_usn ==> r == Err::<
                UsnMonitor,
                UsnError,
            >(
                UsnError::JournalWrapped {
                    last_processed: last_usn,
                    lowest_valid: meta.lowest_valid_usn,
                },
            ),
            meta.journal_id == journal_id && last_usn >= meta.lowest_valid_usn ==> {
                &&& r is Ok
                &&& r->Ok_0.spec_volume() == drive_letter
                &&& r->Ok_0.spec_last_usn() == last_usn
                &&& r->Ok_0.spec_journal_id() == journal_id
            },
    {
        if meta.journal_id != journal_id {
            return Err(UsnError::JournalRecreated { old_id: journal_id, new_id: meta.journal_id });
        }
        if last_usn < meta.lowest_valid_usn {
            return Err(UsnError::JournalWrapped {
                last_processed: last_usn,
                lowest_valid: meta.lowest_valid_usn,
            });
        }
        Ok(UsnMonitor { volume: drive_letter, last_usn, journal_id })
    }

    /// The current cursor, for persistence.
    pub fn last_usn(&self) -> (r: i64)
        ensures
            r == self.spec_last_usn(),
    {
        self.last_usn
    }

    /// The journal identity, for persistence.
    pub fn journal_id(&self) -> (r: u64)
        ensures
            r == self.spec_journal_id(),
    {
        self.journal_id
    }

    /// The drive letter this monitor serves.
    pub fn volume(&self) -> (r: char)
        ensures
            r == self.spec_volume(),
    {
        self.volume
    }

    /// Classify a reason bitmap into a single change type, by priority
    /// `Delete > Create > Rename > Modify` (either rename bit counts).
    pub fn reason_to_change_type(reason: u32) -> (r: ChangeType)
        ensures
            r == spec_change_type(reason),
    {
        if reason & USN_REASON_FILE_DELETE != 0 {
            ChangeType::Delete
        } else if reason & USN_REASON_FILE_CREATE != 0 {
            ChangeType::Create
        } else if reason & (USN_REASON_RENAME_NEW_NAME | USN_REASON_RENAME_OLD_NAME) != 0 {
            ChangeType::Rename
        } else {
            ChangeType::Modify
        }
    }

    /// Process one poll cycle over freshly read journal metadata and
    /// records.
    ///
    /// Re-checks recreation and wrap first (the kernel may shrink the
    /// journal between polls). Records at or before the cursor are skipped;
    /// each later record is classified and collected, and the cursor
    /// advances to the highest position seen. The cursor never moves
    /// backwards and the journal identity never changes here.
    pub fn poll_changes(&mut self, meta: &JournalMeta, records: Vec<UsnRecord>) -> (r: Result<
        Vec<UsnChange>,
        UsnError,
    >)
        ensures
            final(self).spec_volume() == old(self).spec_volume(),
            final(self).spec_journal_id() == old(self).spec_journal_id(),
            final(self).spec_last_usn() >= old(self).spec_last_usn(),
            meta.journal_id != old(self).spec_journal_id() ==> r == Err::<Vec<UsnChange>, UsnError>(
                UsnError::JournalRecreated {
                    old_id: old(self).spec_journal_id(),
                    new_id: meta.journal_id,
                },
            ) && *final(self) == *old(self),
            meta.journal_id == old(self).spec_journal_id() && old(self).spec_last_usn()
                < meta.lowest_valid_usn ==> r == Err::<Vec<UsnChange>, UsnError>(
                UsnError::JournalWrapped {
                    last_processed: old(self).spec_last_usn(),
                    lowest_valid: meta.lowest_valid_usn,
                },
            ) && *final(self) == *old(self),
            meta.journal_id == old(self).spec_journal_id() && old(self).spec_last_usn()
                >= meta.lowest_valid_usn ==> {
                &&& r is Ok
                &&& r->Ok_0@ =~= spec_poll_changes(old(self).spec_last_usn(), records@)
                &&& final(self).spec_last_usn() == spec_cursor_after(
                    old(self).spec_last_usn(),
                    records@,
                )
            },
    {
        if meta.journal_id != self.journal_id {
            return Err(UsnError::JournalRecreated {
                old_id: self.journal_id,
                new_id: meta.journal_id,
            });
        }
        if self.last_usn < meta.lowest_valid_usn {
            return Err(UsnError::JournalWrapped {
                last_processed: self.last_usn,
                lowest_valid: meta.lowest_valid_usn,
            });
        }
        let starting_usn: i64 = self.last_usn;
        let ghost rs0 = records@;
        let mut changes: Vec<UsnChange> = Vec::new();
        let mut records = records;
        // Consume the records back to front so each one is moved, not cloned.
        while records.len() > 0
            invariant
                self.volume == old(self).spec_volume(),
                self.journal_id == old(self).spec_journal_id(),
                starting_usn == old(self).spec_last_usn(),
                self.last_usn >= starting_usn,
                records@.len() <= rs0.len(),
                records@ =~= rs0.take(records@.len() as int),
                changes@.reverse() =~= spec_poll_changes(
                    starting_usn,
                    rs0.skip(records@.len() as int),
                ),
                self.last_usn == spec_cursor_after(starting_usn, rs0.skip(records@.len() as int)),
            decreases records@.len(),
        {
            let ghost m = records@.len() as int;
            let rec = records.pop().unwrap();
            let ghost grec = rec;
            proof {
                assert(records@ =~= rs0.take(m - 1));
                assert(rs0.skip(m - 1).first() == rs0[m - 1]);
                assert(rs0.skip(m - 1).drop_first() =~= rs0.skip(m));
                assert(grec == rs0[m - 1]);
            }
            if rec.usn > starting_usn {
                if rec.usn > self.last_usn {
                    self.last_usn = rec.usn;
                }
                let change_type = Self::reason_to_change_type(rec.reason);
                changes.push(UsnChange {
                    file_ref: rec.file_ref,
                    parent_ref: rec.parent_ref,
                    name: rec.name,
                    change_type,
                    is_dir: rec.is_dir,
                });
            }
            proof {
                assert(changes@.reverse() =~= spec_poll_changes(starting_usn, rs0.skip(m - 1)));
            }
        }
        proof {
            assert(rs0.skip(0) =~= rs0);
        }
        // Restore journal order.
        let mut ordered: Vec<UsnChange> = Vec::new();
        while changes.len() > 0
            invariant
                self.volume == old(self).spec_volume(),
                self.journal_id == old(self).spec_journal_id(),
                starting_usn == old(self).spec_last_usn(),
                self.last_usn >= starting_usn,
                self.last_usn == spec_cursor_after(starting_usn, rs0),
                ordered@ + changes@.reverse() =~= spec_poll_changes(starting_usn, rs0),
            decreases changes@.len(),
        {
            let ghost before = changes@;
            let c = changes.pop().unwrap();
            ordered.push(c);
            proof {
                assert(changes@.reverse() =~= before.reverse().drop_first());
            }
        }
        Ok(ordered)
    }
}

/// The changes one poll cycle emits: records past the cursor, classified,
/// in journal order.
pub open spec fn spec_poll_changes(start: i64, rs: Seq<UsnRecord>) -> Seq<UsnChange>
    decreases rs.len(),
{
    if rs.len() == 0 {
        Seq::empty()
    } else {
        let me: Seq<UsnChange> = if rs.first().usn > start {
            seq![
                UsnChange {
                    file_ref: rs.first().file_ref,
                    parent_ref: rs.first().parent_ref,
                    name: rs.first().name,
                    change_type: spec_change_type(rs.first().reason),
                    is_dir: rs.first().is_dir,
                },
            ]
        } else {
            Seq::empty()
        };
        me + spec_poll_changes(start, rs.drop_first())
    }
}

/// The cursor after a poll: the highest position seen past the start.
pub open spec fn spec_cursor_after(start: i64, rs: Seq<UsnRecord>) -> i64
    decreases rs.len(),
{
    if rs.len() == 0 {
        start
    } else {
        let rest = spec_cursor_after(start, rs.drop_first());
        if rs.first().usn > rest {
            rs.first().usn
        } else {
            rest
        }
    }
}

/// The earliest change type a batch records for a file reference.
pub open spec fn first_type(cs: Seq<UsnChange>, fref: i64) -> Option<ChangeType>
    decreases cs.len(),
{
    if cs.len() == 0 {
        None
    } else if cs.first().file_ref == fref {
        Some(cs.first().change_type)
    } else {
        first_type(cs.drop_first(), fref)
    }
}

/// Whether index `i` holds the last change for its file reference.
pub open spec fn is_last_occurrence(cs: Seq<UsnChange>, i: int) -> bool {
    forall|j: int| i < j < cs.len() ==> (#[trigger] cs[j]).file_ref != cs[i].file_ref
}

/// Whether the change at index `i` survives deduplication: it is the last
/// change for its reference, and the reference was not born and deleted
/// inside the batch (earliest `Create`, latest `Delete`).
pub open spec fn keep_at(cs: Seq<UsnChange>, i: int) -> bool {
    &&& is_last_occurrence(cs, i)
    &&& !(first_type(cs, cs[i].file_ref) == Some(ChangeType::Create) && cs[i].change_type
        == ChangeType::Delete)
}

/// The deduplicated tail of the batch from index `i` on.
pub open spec fn dedup_from(cs: Seq<UsnChange>, i: int) -> Seq<UsnChange>
    decreases cs.len() - i,
{
    if i < 0 || i >= cs.len() {
        Seq::empty()
    } else {
        (if keep_at(cs, i) {
            seq![cs[i]]
        } else {
            Seq::empty()
        }) + dedup_from(cs, i + 1)
    }
}

/// The deduplicated batch: for each file reference its last change, in
/// batch order, except references created and deleted inside the batch,
/// which vanish.
pub open spec fn dedup_spec(cs: Seq<UsnChange>) -> Seq<UsnChange> {
    dedup_from(cs, 0)
}

/// A linear scan that finds the first change for a reference agrees with
/// `first_type`.
proof fn lemma_first_type_at(cs: Seq<UsnChange>, fref: i64, k: int)
    requires
        0 <= k < cs.len(),
        cs[k].file_ref == fref,
        forall|l: int| 0 <= l < k ==> (#[trigger] cs[l]).file_ref != fref,
    ensures
        first_type(cs, fref) == Some(cs[k].change_type),
    decreases k,
{
    if k == 0 {
    } else {
        assert(cs.drop_first()[k - 1] == cs[k]);
        assert(forall|l: int| 0 <= l < k - 1 ==> (#[trigger] cs.drop_first()[l]).file_ref != fref);
        lemma_first_type_at(cs.drop_first(), fref, k - 1);
    }
}

/// Deduplicate rapid changes to the same file within a batch.
///
/// The last change per file reference wins and batch order is kept; a file
/// both created and deleted inside the batch is dropped entirely.
pub fn deduplicate_changes(changes: Vec<UsnChange>) -> (r: Vec<UsnChange>)
    ensures
        r@ =~= dedup_spec(changes@),
{
    let ghost cs = changes@;
    let n = changes.len();

    let mut flags: Vec<bool> = Vec::new();
    let mut i: usize = 0;
    while i < n
        invariant
            n == cs.len(),
            changes@ == cs,
            i <= n,
            flags@.len() == i,
            forall|l: int| 0 <= l < i ==> flags@[l] == keep_at(cs, l),
        decreases n - i,
    {
        // Is a later change recorded for the same reference?
        let mut later: bool = false;
        let mut j: usize = i + 1;
        while j < n && !later
            invariant
                n == cs.len(),
                changes@ == cs,
                i < j <= n || (later && j <= n),
                i < n,
                !later ==> forall|l: int| i < l < j ==> (#[trigger] cs[l]).file_ref != cs[
                    i as int
                ].file_ref,
                later ==> !is_last_occurrence(cs, i as int),
            decreases (if later {
                0int
            } else {
                1int
            }), n - j,
        {
            if changes[j].file_ref == changes[i].file_ref {
                later = true;
            } else {
                j = j + 1;
            }
        }
        // Find the earliest change for the same reference.
        let mut k: usize = 0;
        while changes[k].file_ref != changes[i].file_ref
            invariant
                n == cs.len(),
                changes@ == cs,
                i < n,
                k <= i,
                forall|l: int| 0 <= l < k ==> (#[trigger] cs[l]).file_ref != cs[i as int].file_ref,
            decreases i - k,
        {
            k = k + 1;
        }
        proof {
            lemma_first_type_at(cs, cs[i as int].file_ref, k as int);
        }
        let born_and_died = matches!(changes[k].change_type, ChangeType::Create) && matches!(
            changes[i].change_type,
            ChangeType::Delete,
        );
        flags.push(!later && !born_and_died);
        i = i + 1;
    }

    // Take the kept changes back to front so each one is moved, not cloned.
    let mut rest = changes;
    let mut reversed: Vec<UsnChange> = Vec::new();
    while rest.len() > 0
        invariant
            flags@.len() == cs.len(),
            forall|l: int| 0 <= l < cs.len() ==> flags@[l] == keep_at(cs, l),
            rest@.len() <= cs.len(),
            rest@ =~= cs.take(rest@.len() as int),
            reversed@.reverse() =~= dedup_from(cs, rest@.len() as int),
        decreases rest@.len(),
    {
        let ghost m = rest@.len() as int;
        let idx = rest.len() - 1;
        let c = rest.pop().unwrap();
        proof {
            assert(rest@ =~= cs.take(m - 1));
            assert(c == cs[m - 1]);
        }
        if flags[idx] {
            reversed.push(c);
        }
        proof {
            assert(reversed@.reverse() =~= dedup_from(cs, m - 1));
        }
    }
    let mut result: Vec<UsnChange> = Vec::new();
    while reversed.len() > 0
        invariant
            result@ + reversed@.reverse() =~= dedup_from(cs, 0),
        decreases reversed@.len(),
    {
        let ghost before = reversed@;
        let c = reversed.pop().unwrap();
        result.push(c);
        proof {
            assert(reversed@.reverse() =~= before.reverse().drop_first());
        }
    }
    result
}

/// A file created and then deleted inside one batch vanishes from the
/// deduplicated batch.
pub proof fn lemma_dedup_create_delete(a: UsnChange, b: UsnChange)
    requires
        a.change_type == ChangeType::Create,
        b.change_type == ChangeType::Delete,
        b.file_ref == a.file_ref,
    ensures
        dedup_spec(seq![a, b]) =~= Seq::<UsnChange>::empty(),
{
    let cs = seq![a, b];
    assert(cs[1] == b);
    assert(!is_last_occurrence(cs, 0));
    assert(first_type(cs, b.file_ref) == Some(ChangeType::Create));
    assert(!keep_at(cs, 1));
    assert(dedup_from(cs, 2) =~= Seq::<UsnChange>::empty());
    assert(dedup_from(cs, 1) =~= Seq::<UsnChange>::empty());
    assert(dedup_from(cs, 0) =~= Seq::<UsnChange>::empty());
}

/// A creation followed by two renames collapses to the last rename alone:
/// one surviving change, carrying the final name.
pub proof fn lemma_dedup_rename_chain(a: UsnChange, r1: UsnChange, r2: UsnChange)
    requires
        a.change_type == ChangeType::Create,
        r1.change_type == ChangeType::Rename,
        r2.change_type == ChangeType::Rename,
        r1.file_ref == a.file_ref,
        r2.file_ref == a.file_ref,
    ensures
        dedup_spec(seq![a, r1, r2]) =~= seq![r2],
{
    let cs = seq![a, r1, r2];
    assert(cs[1] == r1);
    assert(cs[2] == r2);
    assert(!is_last_occurrence(cs, 0));
    assert(!is_last_occurrence(cs, 1));
    assert(keep_at(cs, 2));
    assert(dedup_from(cs, 3) =~= Seq::<UsnChange>::empty());
    assert(dedup_from(cs, 2) =~= seq![r2]);
    assert(dedup_from(cs, 1) =~= seq![r2]);
    assert(dedup_from(cs, 0) =~= seq![r2]);
}

/// Whether rows of volumes other than `vid` are the same in `f1` as in `f0`.
pub open spec fn other_rows_untouched(
    f0: Map<(int, int), FileModel>,
    f1: Map<(int, int), FileModel>,
    vid: int,
) -> bool {
    forall|k: (int, int)|
        k.0 != vid ==> ((#[trigger] f1.dom().contains(k) <==> f0.dom().contains(k)) && (
        f0.dom().contains(k) ==> f1[k] == f0[k]))
}

/// The file rows after applying one change to one volume's files.
pub open spec fn apply_one(
    m: Map<(int, int), FileModel>,
    vid: int,
    c: UsnChange,
) -> Map<(int, int), FileModel> {
    let key = (vid, c.file_ref as int);
    match c.change_type {
        ChangeType::Create => m.insert(
            key,
            FileModel {
                parent: Some(c.parent_ref as int),
                name: c.name@,
                size: 0,
                modified: None,
                is_dir: c.is_dir,
            },
        ),
        ChangeType::Delete => m.remove(key),
        ChangeType::Rename => if m.dom().contains(key) {
            m.insert(key, FileModel { name: c.name@, parent: Some(c.parent_ref as int), ..m[key] })
        } else {
            m
        },
        ChangeType::Modify => if m.dom().contains(key) {
            m.insert(key, FileModel { name: c.name@, ..m[key] })
        } else {
            m
        },
    }
}

/// The file rows after applying a batch of changes in order.
pub open spec fn spec_apply_changes(
    m: Map<(int, int), FileModel>,
    vid: int,
    cs: Seq<UsnChange>,
) -> Map<(int, int), FileModel>
    decreases cs.len(),
{
    if cs.len() == 0 {
        m
    } else {
        apply_one(spec_apply_changes(m, vid, cs.drop_last()), vid, cs.last())
    }
}

/// The changes a mask selects, applied in batch order: position `l` of the
/// batch takes effect exactly when position `l` of the mask holds.
pub open spec fn spec_apply_selected(
    m: Map<(int, int), FileModel>,
    vid: int,
    cs: Seq<UsnChange>,
    mask: Seq<bool>,
) -> Map<(int, int), FileModel>
    decreases cs.len(),
{
    if cs.len() == 0 {
        m
    } else {
        let prev = spec_apply_selected(m, vid, cs.drop_last(), mask.drop_last());
        if mask.len() == cs.len() && mask.last() {
            apply_one(prev, vid, cs.last())
        } else {
            prev
        }
    }
}

/// How many positions of a mask hold.
pub open spec fn count_true(mask: Seq<bool>) -> int
    decreases mask.len(),
{
    if mask.len() == 0 {
        0
    } else {
        count_true(mask.drop_last()) + (if mask.last() {
            1int
        } else {
            0int
        })
    }
}

/// Whether `f1` is `f0` with some subsequence of the batch applied in
/// order, `n` counting the applied changes.
pub open spec fn some_changes_applied(
    f0: Map<(int, int), FileModel>,
    f1: Map<(int, int), FileModel>,
    vid: int,
    cs: Seq<UsnChange>,
    n: int,
) -> bool {
    exists|mask: Seq<bool>|
        mask.len() == cs.len() && n == count_true(mask) && f1 == #[trigger] spec_apply_selected(
            f0,
            vid,
            cs,
            mask,
        )
}

/// Apply a batch of deduplicated changes to the catalog inside a single
/// transaction; an empty batch succeeds without touching the store.
///
/// A change that the store rejects is skipped and the rest still commit:
/// on success the files table equals some subsequence of the batch applied
/// in order, with the returned count its length — the whole batch when
/// every change applied. Rows of other volumes are never touched.
pub fn apply_changes_batch(
    conn: &mut rusqlite::Connection,
    volume_id: i64,
    changes: &[UsnChange],
) -> (r: Result<usize, FFIError>)
    ensures
        changes@.len() == 0 ==> r == Ok::<usize, FFIError>(0) && files_of(*final(conn)) == files_of(
            *old(conn),
        ) && volumes_of(*final(conn)) == volumes_of(*old(conn)) && txn_commits(*final(conn))
            == txn_commits(*old(conn)),
        r matches Ok(n) ==> {
            &&& n <= changes@.len()
            &&& volumes_of(*final(conn)) == volumes_of(*old(conn))
            &&& other_rows_untouched(files_of(*old(conn)), files_of(*final(conn)), volume_id as int)
            &&& some_changes_applied(
                files_of(*old(conn)),
                files_of(*final(conn)),
                volume_id as int,
                changes@,
                n as int,
            )
            &&& n == changes@.len() ==> files_of(*final(conn)) == spec_apply_changes(
                files_of(*old(conn)),
                volume_id as int,
                changes@,
            )
            &&& changes@.len() > 0 ==> txn_commits(*final(conn)) == txn_commits(*old(conn)) + 1
        },
{
    if changes.len() == 0 {
        proof {
            let empty_mask: Seq<bool> = Seq::empty();
            assert(count_true(empty_mask) == 0);
            assert(spec_apply_selected(files_of(*conn), volume_id as int, changes@, empty_mask)
                == files_of(*conn));
            assert(some_changes_applied(
                files_of(*conn),
                files_of(*conn),
                volume_id as int,
                changes@,
                0,
            ));
        }
        return Ok(0);
    }
    let ghost f0 = files_of(*conn);
    let ghost v0 = volumes_of(*conn);
    let ghost t0 = txn_commits(*conn);
    let ghost vid = volume_id as int;
    match db::txn_begin(conn) {
        Ok(()) => (),
        Err(e) => {
            return Err(e);
        },
    }
    let mut applied: usize = 0;
    let mut i: usize = 0;
    let ghost mut mask: Seq<bool> = Seq::empty();
    while i < changes.len()
        invariant
            f0 == files_of(*old(conn)),
            v0 == volumes_of(*old(conn)),
            t0 == txn_commits(*old(conn)),
            i <= changes@.len(),
            applied <= i,
            vid == volume_id as int,
            volumes_of(*conn) == v0,
            txn_commits(*conn) == t0,
            mask.len() == i,
            applied as int == count_true(mask),
            files_of(*conn) == spec_apply_selected(f0, vid, changes@.take(i as int), mask),
            applied == i ==> files_of(*conn) == spec_apply_changes(f0, vid, changes@.take(i as int)),
            other_rows_untouched(f0, files_of(*conn), vid),
        decreases changes@.len() - i,
    {
        let ghost f_prev = files_of(*conn);
        let change = &changes[i];
        let outcome: Result<(), FFIError> = match change.change_type {
            ChangeType::Create => db::upsert_file_row(
                conn,
                volume_id,
                change.file_ref,
                change.parent_ref,
                change.name.as_str(),
                change.is_dir,
            ),
            ChangeType::Delete => match db::delete_file_row(conn, volume_id, change.file_ref) {
                Ok(_) => Ok(()),
                Err(e) => Err(e),
            },
            ChangeType::Rename => db::rename_file_row(
                conn,
                volume_id,
                change.file_ref,
                change.name.as_str(),
                change.parent_ref,
            ),
            ChangeType::Modify => db::modify_file_name_row(
                conn,
                volume_id,
                change.file_ref,
                change.name.as_str(),
            ),
        };
        let hit = match outcome {
            Ok(()) => {
                applied = applied + 1;
                true
            },
            Err(_) => false,
        };
        proof {
            let prev_mask = mask;
            mask = mask.push(hit);
            assert(mask.drop_last() =~= prev_mask);
            assert(changes@.take(i + 1 as int).drop_last() =~= changes@.take(i as int));
            assert(changes@.take(i + 1 as int).last() == changes@[i as int]);
            assert forall|k: (int, int)| k.0 != vid implies ((#[trigger] files_of(
                *conn,
            ).dom().contains(k) <==> f0.dom().contains(k)) && (f0.dom().contains(k) ==> files_of(
                *conn,
            )[k] == f0[k])) by {
                assert(f_prev.dom().contains(k) <==> f0.dom().contains(k));
                assert(k != (vid, changes@[i as int].file_ref as int));
            }
        }
        i = i + 1;
    }
    match db::txn_commit(conn) {
        Ok(()) => (),
        Err(e) => {
            return Err(e);
        },
    }
    proof {
        assert(changes@.take(changes@.len() as int) =~= changes@);
        assert(some_changes_applied(f0, files_of(*conn), vid, changes@, applied as int));
    }
    Ok(applied)
}

/// Adaptive polling throttle: the interval stretches fourfold while the
/// machine's processor is busier than the threshold.
pub struct AdaptiveThrottle {
    normal_secs: u64,
    throttled_secs: u64,
    cpu_threshold: u64,
}

impl AdaptiveThrottle {
    /// The polling interval under light load, in seconds.
    pub closed spec fn spec_normal_secs(&self) -> u64 {
        self.normal_secs
    }

    /// The polling interval under heavy load, in seconds.
    pub closed spec fn spec_throttled_secs(&self) -> u64 {
        self.throttled_secs
    }

    /// The processor-utilization percentage above which polling slows.
    pub closed spec fn spec_cpu_threshold(&self) -> u64 {
        self.cpu_threshold
    }

    /// Create a throttle around the configured normal interval; the
    /// throttled interval is four times it and the threshold 80 percent.
    pub fn new(normal_secs: u64) -> (r: Self)
        requires
            normal_secs <= u64::MAX / 4,
        ensures
            r.spec_normal_secs() == normal_secs,
            r.spec_throttled_secs() == 4 * normal_secs,
            r.spec_cpu_threshold() == 80,
    {
        AdaptiveThrottle {
            normal_secs,
            throttled_secs: normal_secs * 4,
            cpu_threshold: 80,
        }
    }

    /// The polling interval to use at the given processor utilization,
    /// in whole percent.
    pub fn interval_secs(&self, cpu_percent: u64) -> (r: u64)
        ensures
            r == (if cpu_percent > self.spec_cpu_threshold() {
                self.spec_throttled_secs()
            } else {
                self.spec_normal_secs()
            }),
    {
        if cpu_percent > self.cpu_threshold {
            self.throttled_secs
        } else {
            self.normal_secs
        }
    }
}

} // verus!
