//! Catalog store: volume records and file records held in an embedded
//! relational store, modelled for verification as two maps.
//!
//! The volumes table is modelled as `Map<int, VolumeModel>` keyed by the
//! row id; the files table as `Map<(int, int), FileModel>` keyed by
//! `(volume_id, file_ref)`, which the schema keeps unique. A connection
//! whose tables are missing or empty is modelled by empty maps.
//!
//! The model ties the rows to the connection value, so what one verified
//! function writes another sees through the same connection. Writes made
//! through a different connection to the same store file (each background
//! worker holds its own) are outside the model: nothing verified here
//! coordinates two connections.

use vstd::prelude::*;

use crate::FFIError;
use crate::VolumeState;

verus! {

/// Batch size for bulk inserts: records per transaction.
pub const BATCH_SIZE: usize = 100_000;

/// Mathematical model of one volume row.
pub ghost struct VolumeModel {
    /// Drive letter, e.g. `C:`.
    pub drive: Seq<char>,
    /// Volume serial (hex string).
    pub serial: Seq<char>,
    /// Filesystem kind string.
    pub fs_type: Seq<char>,
    /// Last processed journal position, if any.
    pub last_usn: Option<int>,
    /// Journal identity, if any.
    pub journal_id: Option<int>,
    /// Lifecycle state in its stored string form.
    pub state: Seq<char>,
    /// Epoch second of the transition to offline, if any.
    pub offline_since: Option<int>,
}

/// Mathematical model of one file row (the key parts live in the map key).
pub ghost struct FileModel {
    /// Parent file reference, absent for the root.
    pub parent: Option<int>,
    /// Final path component.
    pub name: Seq<char>,
    /// Size in bytes.
    pub size: int,
    /// Modification time in epoch seconds, if known.
    pub modified: Option<int>,
    /// Whether the record is a directory.
    pub is_dir: bool,
}

/// A file entry for insertion into the catalog.
#[derive(Debug, Clone)]
pub struct FileEntry {
    /// Volume this file belongs to.
    pub volume_id: i64,
    /// File reference number; every cataloged entry carries one.
    pub file_ref: Option<i64>,
    /// Parent file reference, absent for the root.
    pub parent_ref: Option<i64>,
    /// Filename only (not the full path).
    pub name: String,
    /// File size in bytes.
    pub size: i64,
    /// Last modified time as epoch seconds.
    pub modified: Option<i64>,
    /// Whether this entry is a directory.
    pub is_dir: bool,
}

impl View for FileEntry {
    type V = FileModel;

    open spec fn view(&self) -> FileModel {
        FileModel {
            parent: match self.parent_ref {
                Some(p) => Some(p as int),
                None => None,
            },
            name: self.name@,
            size: self.size as int,
            modified: match self.modified {
                Some(m) => Some(m as int),
                None => None,
            },
            is_dir: self.is_dir,
        }
    }
}

impl FileEntry {
    /// The map key this entry occupies, assuming it carries a file reference.
    pub open spec fn spec_key(&self) -> (int, int) {
        (self.volume_id as int, self.file_ref.unwrap() as int)
    }
}

/// Information about a cataloged volume.
#[derive(Debug, Clone)]
pub struct VolumeInfo {
    /// Row id in the catalog.
    pub id: i64,
    /// Drive letter, e.g. `C:`.
    pub drive_letter: String,
    /// Volume serial number.
    pub volume_serial: String,
    /// Filesystem type string.
    pub fs_type: String,
}

/// Declares `rusqlite::Connection`, the store handle, as an opaque outside
/// type; everything known of a connection's contents comes from the
/// trusted contracts below.
#[verifier::external_type_specification]
#[verifier::external_body]
pub struct ExConnection(rusqlite::Connection);

/// The volume rows a connection sees, keyed by row id.
pub uninterp spec fn volumes_of(conn: rusqlite::Connection) -> Map<int, VolumeModel>;

/// The file rows a connection sees, keyed by `(volume_id, file_ref)`.
pub uninterp spec fn files_of(conn: rusqlite::Connection) -> Map<(int, int), FileModel>;

/// Whether the connection has an explicit transaction open.
pub uninterp spec fn txn_open(conn: rusqlite::Connection) -> bool;

/// The file rows as of the open transaction's start; arbitrary when no
/// transaction is open.
pub uninterp spec fn txn_files(conn: rusqlite::Connection) -> Map<(int, int), FileModel>;

/// The volume rows as of the open transaction's start; arbitrary when no
/// transaction is open.
pub uninterp spec fn txn_volumes(conn: rusqlite::Connection) -> Map<int, VolumeModel>;

/// The count of commit statements the connection has executed.
pub uninterp spec fn txn_commits(conn: rusqlite::Connection) -> nat;

/// The row ids of volumes recorded under the given drive letter.
pub open spec fn ids_at_drive(m: Map<int, VolumeModel>, drive: Seq<char>) -> Set<int> {
    Set::new(|i: int| m.dom().contains(i) && m[i].drive == drive)
}

/// The row ids of volumes recorded under a serial. An empty serial marks a
/// record whose serial the probe has not yet supplied and claims no
/// identity.
pub open spec fn ids_at_serial(m: Map<int, VolumeModel>, serial: Seq<char>) -> Set<int> {
    if serial.len() == 0 {
        Set::empty()
    } else {
        Set::new(|i: int| m.dom().contains(i) && m[i].serial == serial)
    }
}

/// The volume rows after an upsert: any record at the drive letter and any
/// record carrying the (non-empty) serial are replaced by one fresh row.
pub open spec fn spec_upsert_volumes(
    m: Map<int, VolumeModel>,
    id: int,
    drive: Seq<char>,
    serial: Seq<char>,
    fs_type: Seq<char>,
) -> Map<int, VolumeModel> {
    m.remove_keys(ids_at_drive(m, drive).union(ids_at_serial(m, serial))).insert(
        id,
        fresh_volume_row(drive, serial, fs_type),
    )
}

/// The model row that a fresh upsert leaves at a drive letter.
pub open spec fn fresh_volume_row(drive: Seq<char>, serial: Seq<char>, fs_type: Seq<char>) -> VolumeModel {
    VolumeModel {
        drive: drive,
        serial: serial,
        fs_type: fs_type,
        last_usn: None,
        journal_id: None,
        state: "online"@,
        offline_since: None,
    }
}

/// Relies on `rusqlite::Connection::open`: opens (creating if missing) the
/// store file; rows are whatever the file holds.
#[verifier::external_body]
fn open_file_catalog(path: &str) -> (r: Result<rusqlite::Connection, FFIError>)
{
    rusqlite::Connection::open(path)
        .map_err(|e| FFIError::Database(format!("Failed to open catalog: {}", e)))
}

/// Relies on `rusqlite::Connection::pragma_update`: a pragma configures the
/// store and changes no rows.
#[verifier::external_body]
fn pragma_set_str(conn: &mut rusqlite::Connection, name: &str, value: &str) -> (r: Result<(), FFIError>)
    ensures
        r matches Ok(()) ==> volumes_of(*final(conn)) == volumes_of(*old(conn))
            && files_of(*final(conn)) == files_of(*old(conn)),
{
    conn.pragma_update(None, name, value)
        .map_err(|e| FFIError::Database(format!("Failed to set {}: {}", name, e)))
}

/// Relies on `rusqlite::Connection::pragma_update`: a pragma configures the
/// store and changes no rows.
#[verifier::external_body]
fn pragma_set_i64(conn: &mut rusqlite::Connection, name: &str, value: i64) -> (r: Result<(), FFIError>)
    ensures
        r matches Ok(()) ==> volumes_of(*final(conn)) == volumes_of(*old(conn))
            && files_of(*final(conn)) == files_of(*old(conn)),
{
    conn.pragma_update(None, name, value)
        .map_err(|e| FFIError::Database(format!("Failed to set {}: {}", name, e)))
}

/// Relies on `rusqlite::Connection::execute_batch` running `CREATE TABLE IF
/// NOT EXISTS` / `CREATE INDEX IF NOT EXISTS` statements: existing rows are
/// kept, a fresh store gets empty tables, and a second run changes nothing.
#[verifier::external_body]
pub fn init(conn: &mut rusqlite::Connection) -> (r: Result<(), FFIError>)
    ensures
        r matches Ok(()) ==> volumes_of(*final(conn)) == volumes_of(*old(conn))
            && files_of(*final(conn)) == files_of(*old(conn)),
{
    let schema = "CREATE TABLE IF NOT EXISTS volumes (id INTEGER PRIMARY KEY, \
        drive_letter TEXT NOT NULL UNIQUE, volume_serial TEXT NOT NULL, fs_type TEXT NOT NULL, \
        last_usn INTEGER, usn_journal_id INTEGER, last_scan_time INTEGER, \
        state TEXT NOT NULL DEFAULT 'online', offline_since INTEGER); \
        CREATE TABLE IF NOT EXISTS files (id INTEGER PRIMARY KEY, \
        volume_id INTEGER NOT NULL, file_ref INTEGER NOT NULL, \
        parent_ref INTEGER, name TEXT NOT NULL, size INTEGER NOT NULL DEFAULT 0, \
        modified INTEGER, is_dir INTEGER NOT NULL DEFAULT 0, UNIQUE(volume_id, file_ref)); \
        CREATE INDEX IF NOT EXISTS idx_files_name ON files(name COLLATE NOCASE); \
        CREATE INDEX IF NOT EXISTS idx_files_parent ON files(volume_id, parent_ref); \
        CREATE INDEX IF NOT EXISTS idx_files_volume ON files(volume_id); \
        CREATE UNIQUE INDEX IF NOT EXISTS idx_volumes_serial \
        ON volumes(volume_serial) WHERE volume_serial <> '';";
    conn.execute_batch(schema)
        .map_err(|e| FFIError::Database(format!("Failed to initialize schema: {}", e)))
}

/// Open a catalog file with write-ahead logging and the store tuned for
/// bulk writes, and make sure the schema exists.
///
/// The caller creates any missing parent directory first.
pub fn open_database(path: &str) -> (r: Result<rusqlite::Connection, FFIError>)
{
    let mut conn = open_file_catalog(path)?;
    pragma_set_str(&mut conn, "journal_mode", "WAL")?;
    pragma_set_str(&mut conn, "synchronous", "NORMAL")?;
    pragma_set_str(&mut conn, "temp_store", "MEMORY")?;
    pragma_set_i64(&mut conn, "mmap_size", 268435456i64)?;
    pragma_set_i64(&mut conn, "cache_size", -64000i64)?;
    pragma_set_i64(&mut conn, "busy_timeout", 5000i64)?;
    init(&mut conn)?;
    Ok(conn)
}

/// Relies on SQLite `INSERT OR REPLACE` with `drive_letter` unique and the
/// partial unique index on non-empty serials: any row at the drive letter
/// and any row carrying the serial are replaced by one fresh row whose id
/// the following `SELECT` returns; other rows keep their ids.
#[verifier::external_body]
pub fn insert_volume(
    conn: &mut rusqlite::Connection,
    drive_letter: &str,
    serial: &str,
    fs_type: &str,
) -> (r: Result<i64, FFIError>)
    ensures
        r matches Ok(id) ==> {
            &&& id >= 1
            &&& volumes_of(*final(conn)) == spec_upsert_volumes(
                volumes_of(*old(conn)),
                id as int,
                drive_letter@,
                serial@,
                fs_type@,
            )
            &&& forall|i: int| volumes_of(*old(conn)).dom().contains(i)
                  && volumes_of(*old(conn))[i].drive != drive_letter@
                  && !ids_at_serial(volumes_of(*old(conn)), serial@).contains(i) ==> i != id as int
            &&& files_of(*final(conn)) == files_of(*old(conn))
        },
        r is Err ==> volumes_of(*final(conn)) == volumes_of(*old(conn))
            && files_of(*final(conn)) == files_of(*old(conn)),
{
    conn.execute(
        "INSERT OR REPLACE INTO volumes (drive_letter, volume_serial, fs_type, last_scan_time)
         VALUES (?1, ?2, ?3, strftime('%s', 'now'))",
        (drive_letter, serial, fs_type),
    )
    .map_err(|e| FFIError::Database(format!("Failed to insert volume: {}", e)))?;
    conn.query_row(
        "SELECT id FROM volumes WHERE drive_letter = ?1",
        (drive_letter,),
        |row| row.get(0),
    )
    .map_err(|e| FFIError::Database(format!("Failed to get volume ID: {}", e)))
}

/// Relies on SQLite `SELECT ... WHERE drive_letter = ?`: returns the row at
/// the drive letter if one exists, `None` otherwise.
#[verifier::external_body]
pub fn get_volume(conn: &rusqlite::Connection, drive_letter: &str) -> (r: Result<
    Option<VolumeInfo>,
    FFIError,
>)
    ensures
        r matches Ok(Some(v)) ==> volumes_of(*conn).dom().contains(v.id as int)
            && volumes_of(*conn)[v.id as int].drive == drive_letter@
            && v.drive_letter@ == volumes_of(*conn)[v.id as int].drive
            && v.volume_serial@ == volumes_of(*conn)[v.id as int].serial
            && v.fs_type@ == volumes_of(*conn)[v.id as int].fs_type,
        r matches Ok(None) ==> ids_at_drive(volumes_of(*conn), drive_letter@) == Set::<int>::empty(),
{
    let result = conn.query_row(
        "SELECT id, drive_letter, volume_serial, fs_type FROM volumes WHERE drive_letter = ?1",
        (drive_letter,),
        |row| Ok(VolumeInfo {
            id: row.get(0)?, drive_letter: row.get(1)?,
            volume_serial: row.get(2)?, fs_type: row.get(3)?,
        }),
    );
    match result {
        Ok(volume) => Ok(Some(volume)),
        Err(rusqlite::Error::QueryReturnedNoRows) => Ok(None),
        Err(e) => Err(FFIError::Database(format!("Failed to get volume: {}", e))),
    }
}

/// Relies on SQLite `UPDATE volumes SET last_usn, usn_journal_id WHERE id`:
/// only the addressed row changes, and only in those two columns.
#[verifier::external_body]
pub fn update_volume_usn(
    conn: &mut rusqlite::Connection,
    volume_id: i64,
    last_usn: i64,
    journal_id: i64,
) -> (r: Result<(), FFIError>)
    ensures
        r matches Ok(()) ==> {
            &&& volumes_of(*final(conn)) == (if volumes_of(*old(conn)).dom().contains(volume_id as int) {
                    volumes_of(*old(conn)).insert(volume_id as int, VolumeModel {
                        last_usn: Some(last_usn as int),
                        journal_id: Some(journal_id as int),
                        ..volumes_of(*old(conn))[volume_id as int]
                    })
                } else {
                    volumes_of(*old(conn))
                })
            &&& files_of(*final(conn)) == files_of(*old(conn))
        },
        r is Err ==> volumes_of(*final(conn)) == volumes_of(*old(conn))
            && files_of(*final(conn)) == files_of(*old(conn)),
{
    conn.execute(
        "UPDATE volumes SET last_usn = ?1, usn_journal_id = ?2 WHERE id = ?3",
        (last_usn, journal_id, volume_id),
    )
    .map_err(|e| FFIError::Database(format!("Failed to update volume USN: {}", e)))?;
    Ok(())
}

/// Relies on SQLite `UPDATE volumes SET state, offline_since WHERE id`:
/// only the addressed row changes, and only in those two columns.
#[verifier::external_body]
fn set_volume_state_row(
    conn: &mut rusqlite::Connection,
    volume_id: i64,
    state_str: &str,
    offline_since: Option<i64>,
) -> (r: Result<(), FFIError>)
    ensures
        r matches Ok(()) ==> {
            &&& volumes_of(*final(conn)) == (if volumes_of(*old(conn)).dom().contains(volume_id as int) {
                    volumes_of(*old(conn)).insert(volume_id as int, VolumeModel {
                        state: state_str@,
                        offline_since: match offline_since {
                            Some(t) => Some(t as int),
                            None => None,
                        },
                        ..volumes_of(*old(conn))[volume_id as int]
                    })
                } else {
                    volumes_of(*old(conn))
                })
            &&& files_of(*final(conn)) == files_of(*old(conn))
        },
        r is Err ==> volumes_of(*final(conn)) == volumes_of(*old(conn))
            && files_of(*final(conn)) == files_of(*old(conn)),
{
    conn.execute(
        "UPDATE volumes SET state = ?1, offline_since = ?2 WHERE id = ?3",
        (state_str, offline_since, volume_id),
    )
    .map_err(|e| FFIError::Database(format!("Failed to update volume state: {}", e)))?;
    Ok(())
}

/// Record a volume's lifecycle state.
pub fn update_volume_state(
    conn: &mut rusqlite::Connection,
    volume_id: i64,
    state: VolumeState,
) -> (r: Result<(), FFIError>)
    ensures
        r matches Ok(()) ==> {
            &&& volumes_of(*final(conn)) == (if volumes_of(*old(conn)).dom().contains(volume_id as int) {
                    volumes_of(*old(conn)).insert(volume_id as int, VolumeModel {
                        state: state.spec_db_str(),
                        offline_since: match state.spec_offline_since() {
                            Some(t) => Some(t as int),
                            None => None,
                        },
                        ..volumes_of(*old(conn))[volume_id as int]
                    })
                } else {
                    volumes_of(*old(conn))
                })
            &&& files_of(*final(conn)) == files_of(*old(conn))
        },
        r is Err ==> volumes_of(*final(conn)) == volumes_of(*old(conn))
            && files_of(*final(conn)) == files_of(*old(conn)),
{
    let state_str = state.to_db_str();
    let since = state.offline_since();
    set_volume_state_row(conn, volume_id, state_str, since)
}

/// Relies on SQLite `SELECT state, offline_since WHERE id`: returns the
/// addressed row's stored state, or `None` if absent.
#[verifier::external_body]
fn get_volume_state_row(conn: &rusqlite::Connection, volume_id: i64) -> (r: Result<
    Option<(String, Option<i64>)>,
    FFIError,
>)
    ensures
        r matches Ok(Some(row)) ==> {
            &&& volumes_of(*conn).dom().contains(volume_id as int)
            &&& volumes_of(*conn)[volume_id as int].state == row.0@
            &&& volumes_of(*conn)[volume_id as int].offline_since == (match row.1 {
                Some(t) => Some(t as int),
                None => None::<int>,
            })
        },
        r matches Ok(None) ==> !volumes_of(*conn).dom().contains(volume_id as int),
{
    let result = conn.query_row(
        "SELECT state, offline_since FROM volumes WHERE id = ?1",
        (volume_id,),
        |row| {
            let state: String = row.get(0)?;
            let since: Option<i64> = row.get(1)?;
            Ok((state, since))
        },
    );
    match result {
        Ok(row) => Ok(Some(row)),
        Err(rusqlite::Error::QueryReturnedNoRows) => Ok(None),
        Err(e) => Err(FFIError::Database(format!("Failed to get volume state: {}", e))),
    }
}

/// The lifecycle state a model row denotes.
pub open spec fn spec_state_from_model(state: Seq<char>, offline_since: Option<int>) -> VolumeState {
    if state == "offline"@ {
        VolumeState::Offline {
            since: (match offline_since {
                Some(t) => t,
                None => 0,
            }) as i64,
        }
    } else if state == "indexing"@ {
        VolumeState::Indexing
    } else if state == "rescanning"@ {
        VolumeState::Rescanning
    } else if state == "disabled"@ {
        VolumeState::Disabled
    } else {
        VolumeState::Online
    }
}

/// Read a volume's lifecycle state from the catalog.
pub fn get_volume_state(conn: &rusqlite::Connection, volume_id: i64) -> (r: Result<
    Option<VolumeState>,
    FFIError,
>)
    ensures
        r matches Ok(Some(s)) ==> volumes_of(*conn).dom().contains(volume_id as int) && s
            == spec_state_from_model(
            volumes_of(*conn)[volume_id as int].state,
            volumes_of(*conn)[volume_id as int].offline_since,
        ),
        r matches Ok(None) ==> !volumes_of(*conn).dom().contains(volume_id as int),
{
    match get_volume_state_row(conn, volume_id) {
        Ok(Some(row)) => {
            let s = VolumeState::from_db(row.0.as_str(), row.1);
            proof {
                let model = volumes_of(*conn)[volume_id as int];
                assert(s == VolumeState::spec_from_db(model.state, row.1));
                assert(s == spec_state_from_model(model.state, model.offline_since));
            }
            Ok(Some(s))
        },
        Ok(None) => Ok(None),
        Err(e) => Err(e),
    }
}

/// Relies on SQLite `BEGIN`: opening a transaction changes no rows and
/// snapshots the state a later rollback restores; a failed `BEGIN` (one is
/// already open) changes nothing.
#[verifier::external_body]
pub(crate) fn txn_begin(conn: &mut rusqlite::Connection) -> (r: Result<(), FFIError>)
    ensures
        r matches Ok(()) ==> {
            &&& volumes_of(*final(conn)) == volumes_of(*old(conn))
            &&& files_of(*final(conn)) == files_of(*old(conn))
            &&& txn_open(*final(conn))
            &&& txn_files(*final(conn)) == files_of(*old(conn))
            &&& txn_volumes(*final(conn)) == volumes_of(*old(conn))
            &&& txn_commits(*final(conn)) == txn_commits(*old(conn))
        },
        r is Err ==> volumes_of(*final(conn)) == volumes_of(*old(conn))
            && files_of(*final(conn)) == files_of(*old(conn))
            && txn_commits(*final(conn)) == txn_commits(*old(conn)),
{
    conn.execute_batch("BEGIN")
        .map_err(|e| FFIError::Database(format!("Failed to start transaction: {}", e)))
}

/// Relies on SQLite `COMMIT`: a successful commit keeps the rows the
/// transaction produced and closes it. A failed commit either leaves the
/// transaction open with the rows as they were, or the error forced a
/// rollback to the transaction's start.
#[verifier::external_body]
pub(crate) fn txn_commit(conn: &mut rusqlite::Connection) -> (r: Result<(), FFIError>)
    ensures
        r matches Ok(()) ==> {
            &&& volumes_of(*final(conn)) == volumes_of(*old(conn))
            &&& files_of(*final(conn)) == files_of(*old(conn))
            &&& !txn_open(*final(conn))
            &&& txn_commits(*final(conn)) == txn_commits(*old(conn)) + 1
        },
        r is Err ==> txn_commits(*final(conn)) == txn_commits(*old(conn)) && ((volumes_of(
            *final(conn),
        ) == volumes_of(*old(conn)) && files_of(*final(conn)) == files_of(*old(conn)) && txn_open(
            *final(conn),
        ) == txn_open(*old(conn)) && txn_files(*final(conn)) == txn_files(*old(conn))
            && txn_volumes(*final(conn)) == txn_volumes(*old(conn))) || (txn_open(*old(conn))
            && files_of(*final(conn)) == txn_files(*old(conn)) && volumes_of(*final(conn))
            == txn_volumes(*old(conn)) && !txn_open(*final(conn)))),
{
    conn.execute_batch("COMMIT")
        .map_err(|e| FFIError::Database(format!("Failed to commit transaction: {}", e)))
}

/// Relies on SQLite `ROLLBACK`: it restores the state the open transaction
/// began from and closes it; with no transaction open it fails and changes
/// nothing.
#[verifier::external_body]
pub(crate) fn txn_rollback(conn: &mut rusqlite::Connection)
    ensures
        txn_open(*old(conn)) ==> files_of(*final(conn)) == txn_files(*old(conn)) && volumes_of(
            *final(conn),
        ) == txn_volumes(*old(conn)) && !txn_open(*final(conn)),
        !txn_open(*old(conn)) ==> files_of(*final(conn)) == files_of(*old(conn)) && volumes_of(
            *final(conn),
        ) == volumes_of(*old(conn)),
        txn_commits(*final(conn)) == txn_commits(*old(conn)),
{
    let _ = conn.execute_batch("ROLLBACK");
}

/// Relies on SQLite `INSERT` with `(volume_id, file_ref)` unique: on
/// success the row is added under its key, which was previously free; on
/// failure the statement alone aborts, with no row changed and the
/// surrounding transaction as it was.
#[verifier::external_body]
fn insert_file_row(conn: &mut rusqlite::Connection, entry: &FileEntry) -> (r: Result<(), FFIError>)
    requires
        entry.file_ref is Some,
    ensures
        r matches Ok(()) ==> {
            &&& !files_of(*old(conn)).dom().contains(entry.spec_key())
            &&& files_of(*final(conn)) == files_of(*old(conn)).insert(entry.spec_key(), entry@)
            &&& volumes_of(*final(conn)) == volumes_of(*old(conn))
        },
        r is Err ==> volumes_of(*final(conn)) == volumes_of(*old(conn))
            && files_of(*final(conn)) == files_of(*old(conn)),
        txn_open(*final(conn)) == txn_open(*old(conn)),
        txn_files(*final(conn)) == txn_files(*old(conn)),
        txn_volumes(*final(conn)) == txn_volumes(*old(conn)),
        txn_commits(*final(conn)) == txn_commits(*old(conn)),
{
    let mut stmt = conn
        .prepare_cached(
            "INSERT INTO files (volume_id, file_ref, parent_ref, name, size, modified, is_dir)
             VALUES (?1, ?2, ?3, ?4, ?5, ?6, ?7)",
        )
        .map_err(|e| FFIError::Database(format!("Failed to prepare statement: {}", e)))?;
    stmt.execute((
        entry.volume_id, entry.file_ref, entry.parent_ref, &entry.name,
        entry.size, entry.modified, entry.is_dir as i32,
    ))
    .map_err(|e| FFIError::Database(format!("Failed to insert file: {}", e)))?;
    Ok(())
}

/// The map after inserting each entry of `entries` in order.
pub open spec fn spec_insert_files(
    m: Map<(int, int), FileModel>,
    entries: Seq<FileEntry>,
) -> Map<(int, int), FileModel>
    decreases entries.len(),
{
    if entries.len() == 0 {
        m
    } else {
        spec_insert_files(m, entries.drop_last()).insert(entries.last().spec_key(), entries.last()@)
    }
}

/// The number of transactions a batch of `n` records commits in: one per
/// begun chunk of `BATCH_SIZE`.
pub open spec fn spec_chunk_count(n: int) -> int
    decreases n,
{
    if n <= 0 {
        0
    } else {
        1 + spec_chunk_count(
            if n - BATCH_SIZE < 0 {
                0
            } else {
                n - BATCH_SIZE
            },
        )
    }
}

/// Whether `f1` is `f0` with some leading whole chunks of a batch
/// inserted; a partially inserted chunk never survives, it is rolled back.
pub open spec fn whole_chunks_inserted(
    f0: Map<(int, int), FileModel>,
    f1: Map<(int, int), FileModel>,
    files: Seq<FileEntry>,
) -> bool {
    exists|k: int|
        0 <= k <= files.len() && (k % (BATCH_SIZE as int) == 0 || k == files.len()) && f1
            == spec_insert_files(f0, #[trigger] files.take(k))
}

/// Batch-insert files, `BATCH_SIZE` records per transaction: a batch of
/// exactly `BATCH_SIZE` commits in one transaction, one more record in two.
///
/// On success every entry was inserted and the count returned equals the
/// input length. A failing insert rolls the open transaction back, so on
/// failure the catalog holds the old rows plus some leading whole chunks.
pub fn batch_insert_files(conn: &mut rusqlite::Connection, files: &[FileEntry]) -> (r: Result<
    usize,
    FFIError,
>)
    requires
        forall|i: int| 0 <= i < files@.len() ==> (#[trigger] files@[i]).file_ref is Some,
    ensures
        volumes_of(*final(conn)) == volumes_of(*old(conn)),
        r matches Ok(n) ==> {
            &&& n == files@.len()
            &&& files_of(*final(conn)) == spec_insert_files(files_of(*old(conn)), files@)
            &&& txn_commits(*final(conn)) == txn_commits(*old(conn)) + spec_chunk_count(
                files@.len() as int,
            )
        },
        files@.len() == 0 ==> r == Ok::<usize, FFIError>(0),
        r is Err ==> whole_chunks_inserted(files_of(*old(conn)), files_of(*final(conn)), files@),
{
    let ghost m0: Map<(int, int), FileModel> = files_of(*conn);
    let ghost v0: Map<int, VolumeModel> = volumes_of(*conn);
    let ghost t0: nat = txn_commits(*conn);
    let ghost mut chunks: int = 0;
    let mut start: usize = 0;
    let mut total_inserted: usize = 0;
    while start < files.len()
        invariant
            m0 == files_of(*old(conn)),
            v0 == volumes_of(*old(conn)),
            t0 == txn_commits(*old(conn)),
            start <= files@.len(),
            total_inserted == start,
            forall|i: int| 0 <= i < files@.len() ==> (#[trigger] files@[i]).file_ref is Some,
            files_of(*conn) == spec_insert_files(m0, files@.take(start as int)),
            volumes_of(*conn) == v0,
            txn_commits(*conn) == t0 + chunks,
            chunks >= 0,
            start as int == chunks * (BATCH_SIZE as int) || start as int == files@.len(),
            spec_chunk_count(files@.len() as int) == chunks + spec_chunk_count(
                files@.len() - start as int,
            ),
        decreases files@.len() - start,
    {
        let chunk_end: usize = if files.len() - start > BATCH_SIZE {
            start + BATCH_SIZE
        } else {
            files.len()
        };
        match txn_begin(conn) {
            Ok(()) => (),
            Err(e) => {
                proof {
                    assert((chunks * (BATCH_SIZE as int)) % (BATCH_SIZE as int) == 0)
                        by (nonlinear_arith)
                        requires
                            chunks >= 0,
                    ;
                    assert(whole_chunks_inserted(m0, files_of(*conn), files@));
                }
                return Err(e);
            },
        }
        let mut j: usize = start;
        while j < chunk_end
            invariant
                m0 == files_of(*old(conn)),
                v0 == volumes_of(*old(conn)),
                t0 == txn_commits(*old(conn)),
                start <= j <= chunk_end <= files@.len(),
                start < files@.len(),
                forall|i: int| 0 <= i < files@.len() ==> (#[trigger] files@[i]).file_ref is Some,
                files_of(*conn) == spec_insert_files(m0, files@.take(j as int)),
                volumes_of(*conn) == v0,
                txn_open(*conn),
                txn_files(*conn) == spec_insert_files(m0, files@.take(start as int)),
                txn_volumes(*conn) == v0,
                txn_commits(*conn) == t0 + chunks,
                chunks >= 0,
                start as int == chunks * (BATCH_SIZE as int),
            decreases chunk_end - j,
        {
            let entry = &files[j];
            match insert_file_row(conn, entry) {
                Ok(()) => (),
                Err(e) => {
                    txn_rollback(conn);
                    proof {
                        assert((chunks * (BATCH_SIZE as int)) % (BATCH_SIZE as int) == 0)
                            by (nonlinear_arith)
                            requires
                                chunks >= 0,
                        ;
                        assert(whole_chunks_inserted(m0, files_of(*conn), files@));
                    }
                    return Err(e);
                },
            }
            proof {
                assert(files@.take(j + 1 as int).drop_last() =~= files@.take(j as int));
                assert(files@.take(j + 1 as int).last() == files@[j as int]);
            }
            j = j + 1;
        }
        match txn_commit(conn) {
            Ok(()) => (),
            Err(e) => {
                proof {
                    assert((chunks * (BATCH_SIZE as int)) % (BATCH_SIZE as int) == 0)
                        by (nonlinear_arith)
                        requires
                            chunks >= 0,
                    ;
                    if chunk_end as int != files@.len() {
                        assert(chunk_end as int == chunks * (BATCH_SIZE as int) + (
                        BATCH_SIZE as int));
                        assert((chunk_end as int) % (BATCH_SIZE as int) == 0) by (nonlinear_arith)
                            requires
                                chunk_end as int == chunks * (BATCH_SIZE as int) + (
                                BATCH_SIZE as int),
                                chunks >= 0,
                        ;
                    }
                    let tse = files@.take(start as int);
                    let tce = files@.take(chunk_end as int);
                    assert(whole_chunks_inserted(m0, files_of(*conn), files@));
                }
                return Err(e);
            },
        }
        proof {
            let remaining = files@.len() - start as int;
            if remaining > BATCH_SIZE as int {
                assert(spec_chunk_count(remaining) == 1 + spec_chunk_count(remaining - (
                BATCH_SIZE as int)));
            } else {
                assert(spec_chunk_count(remaining) == 1 + spec_chunk_count(0));
                assert(spec_chunk_count(0) == 0);
            }
            assert(spec_chunk_count(files@.len() - start as int) == 1 + spec_chunk_count(
                files@.len() - chunk_end as int,
            ));
            if chunk_end as int != files@.len() {
                assert(chunk_end as int == (chunks + 1) * (BATCH_SIZE as int)) by (nonlinear_arith)
                    requires
                        chunk_end as int == chunks * (BATCH_SIZE as int) + (BATCH_SIZE as int),
                ;
            }
            chunks = chunks + 1;
        }
        total_inserted = total_inserted + (chunk_end - start);
        start = chunk_end;
    }
    proof {
        assert(files@.take(files@.len() as int) =~= files@);
    }
    Ok(total_inserted)
}

/// The file keys belonging to one volume.
pub open spec fn vol_keys(m: Map<(int, int), FileModel>, vid: int) -> Set<(int, int)> {
    Set::new(|k: (int, int)| m.dom().contains(k) && k.0 == vid)
}

/// Relies on SQLite `SELECT COUNT(*)`: counting proves the table finite and
/// returns the number of rows in scope.
#[verifier::external_body]
pub fn get_file_count(conn: &rusqlite::Connection, volume_id: Option<i64>) -> (r: Result<
    i64,
    FFIError,
>)
    ensures
        r matches Ok(n) ==> {
            &&& files_of(*conn).dom().finite()
            &&& n >= 0
            &&& match volume_id {
                Some(v) => n as int == vol_keys(files_of(*conn), v as int).len(),
                None => n as int == files_of(*conn).dom().len(),
            }
        },
{
    let count = match volume_id {
        Some(vid) => conn.query_row(
            "SELECT COUNT(*) FROM files WHERE volume_id = ?1",
            (vid,),
            |row| row.get(0),
        ),
        None => conn.query_row("SELECT COUNT(*) FROM files", [], |row| row.get(0)),
    };
    count.map_err(|e| FFIError::Database(format!("Failed to count files: {}", e)))
}

/// Relies on SQLite `DELETE FROM files WHERE volume_id = ?`: every row of
/// the volume goes; the count of removed rows is returned.
#[verifier::external_body]
pub fn delete_volume_files(conn: &mut rusqlite::Connection, volume_id: i64) -> (r: Result<
    usize,
    FFIError,
>)
    ensures
        r matches Ok(n) ==> {
            &&& files_of(*final(conn)) == files_of(*old(conn)).remove_keys(
                vol_keys(files_of(*old(conn)), volume_id as int),
            )
            &&& volumes_of(*final(conn)) == volumes_of(*old(conn))
            &&& files_of(*old(conn)).dom().finite() ==> n as int == vol_keys(
                files_of(*old(conn)),
                volume_id as int,
            ).len()
        },
        r is Err ==> volumes_of(*final(conn)) == volumes_of(*old(conn))
            && files_of(*final(conn)) == files_of(*old(conn)),
{
    let deleted = conn
        .execute("DELETE FROM files WHERE volume_id = ?1", (volume_id,))
        .map_err(|e| FFIError::Database(format!("Failed to delete files: {}", e)))?;
    Ok(deleted)
}

/// Relies on SQLite `INSERT OR REPLACE` with `(volume_id, file_ref)`
/// unique: the row is created or replaced; size defaults to zero and the
/// modification time to null.
#[verifier::external_body]
pub(crate) fn upsert_file_row(
    conn: &mut rusqlite::Connection,
    volume_id: i64,
    file_ref: i64,
    parent_ref: i64,
    name: &str,
    is_dir: bool,
) -> (r: Result<(), FFIError>)
    ensures
        r matches Ok(()) ==> {
            &&& files_of(*final(conn)) == files_of(*old(conn)).insert(
                (volume_id as int, file_ref as int),
                FileModel {
                    parent: Some(parent_ref as int),
                    name: name@,
                    size: 0,
                    modified: None,
                    is_dir: is_dir,
                },
            )
            &&& volumes_of(*final(conn)) == volumes_of(*old(conn))
        },
        r is Err ==> volumes_of(*final(conn)) == volumes_of(*old(conn))
            && files_of(*final(conn)) == files_of(*old(conn)),
        txn_commits(*final(conn)) == txn_commits(*old(conn)),
{
    conn.execute(
        "INSERT OR REPLACE INTO files (volume_id, file_ref, parent_ref, name, is_dir)
         VALUES (?1, ?2, ?3, ?4, ?5)",
        (volume_id, file_ref, parent_ref, name, is_dir as i32),
    )
    .map_err(|e| FFIError::Database(format!("Failed to upsert file: {}", e)))?;
    Ok(())
}

/// Relies on SQLite `DELETE ... WHERE volume_id = ? AND file_ref = ?`: the
/// addressed row goes if it exists; the count of removed rows is returned.
#[verifier::external_body]
pub(crate) fn delete_file_row(
    conn: &mut rusqlite::Connection,
    volume_id: i64,
    file_ref: i64,
) -> (r: Result<usize, FFIError>)
    ensures
        r matches Ok(n) ==> {
            &&& files_of(*final(conn)) == files_of(*old(conn)).remove(
                (volume_id as int, file_ref as int),
            )
            &&& volumes_of(*final(conn)) == volumes_of(*old(conn))
            &&& n == (if files_of(*old(conn)).dom().contains((volume_id as int, file_ref as int)) {
                1usize
            } else {
                0usize
            })
        },
        r is Err ==> volumes_of(*final(conn)) == volumes_of(*old(conn))
            && files_of(*final(conn)) == files_of(*old(conn)),
        txn_commits(*final(conn)) == txn_commits(*old(conn)),
{
    conn.execute(
        "DELETE FROM files WHERE volume_id = ?1 AND file_ref = ?2",
        (volume_id, file_ref),
    )
    .map_err(|e| FFIError::Database(format!("Failed to delete file: {}", e)))
}

/// Relies on SQLite `UPDATE files SET name, parent_ref WHERE volume_id AND
/// file_ref`: the addressed row, if present, gets the new name and parent.
#[verifier::external_body]
pub(crate) fn rename_file_row(
    conn: &mut rusqlite::Connection,
    volume_id: i64,
    file_ref: i64,
    name: &str,
    parent_ref: i64,
) -> (r: Result<(), FFIError>)
    ensures
        r matches Ok(()) ==> {
            &&& files_of(*final(conn)) == (if files_of(*old(conn)).dom().contains(
                (volume_id as int, file_ref as int),
            ) {
                files_of(*old(conn)).insert(
                    (volume_id as int, file_ref as int),
                    FileModel {
                        name: name@,
                        parent: Some(parent_ref as int),
                        ..files_of(*old(conn))[(volume_id as int, file_ref as int)]
                    },
                )
            } else {
                files_of(*old(conn))
            })
            &&& volumes_of(*final(conn)) == volumes_of(*old(conn))
        },
        r is Err ==> volumes_of(*final(conn)) == volumes_of(*old(conn))
            && files_of(*final(conn)) == files_of(*old(conn)),
        txn_commits(*final(conn)) == txn_commits(*old(conn)),
{
    conn.execute(
        "UPDATE files SET name = ?1, parent_ref = ?2 WHERE volume_id = ?3 AND file_ref = ?4",
        (name, parent_ref, volume_id, file_ref),
    )
    .map_err(|e| FFIError::Database(format!("Failed to rename file: {}", e)))?;
    Ok(())
}

/// Relies on SQLite `UPDATE files SET name WHERE volume_id AND file_ref`:
/// the addressed row, if present, gets the new name.
#[verifier::external_body]
pub(crate) fn modify_file_name_row(
    conn: &mut rusqlite::Connection,
    volume_id: i64,
    file_ref: i64,
    name: &str,
) -> (r: Result<(), FFIError>)
    ensures
        r matches Ok(()) ==> {
            &&& files_of(*final(conn)) == (if files_of(*old(conn)).dom().contains(
                (volume_id as int, file_ref as int),
            ) {
                files_of(*old(conn)).insert(
                    (volume_id as int, file_ref as int),
                    FileModel {
                        name: name@,
                        ..files_of(*old(conn))[(volume_id as int, file_ref as int)]
                    },
                )
            } else {
                files_of(*old(conn))
            })
            &&& volumes_of(*final(conn)) == volumes_of(*old(conn))
        },
        r is Err ==> volumes_of(*final(conn)) == volumes_of(*old(conn))
            && files_of(*final(conn)) == files_of(*old(conn)),
        txn_commits(*final(conn)) == txn_commits(*old(conn)),
{
    conn.execute(
        "UPDATE files SET name = ?1 WHERE volume_id = ?2 AND file_ref = ?3",
        (name, volume_id, file_ref),
    )
    .map_err(|e| FFIError::Database(format!("Failed to modify file: {}", e)))?;
    Ok(())
}

/// Relies on SQLite `SELECT name, parent_ref WHERE volume_id AND file_ref`:
/// returns the addressed row's name and parent, or `None` if absent.
#[verifier::external_body]
fn get_file_row(conn: &rusqlite::Connection, volume_id: i64, file_ref: i64) -> (r: Result<
    Option<(String, Option<i64>)>,
    FFIError,
>)
    ensures
        r matches Ok(Some(row)) ==> {
            &&& files_of(*conn).dom().contains((volume_id as int, file_ref as int))
            &&& files_of(*conn)[(volume_id as int, file_ref as int)].name == row.0@
            &&& files_of(*conn)[(volume_id as int, file_ref as int)].parent == (match row.1 {
                Some(p) => Some(p as int),
                None => None::<int>,
            })
        },
        r matches Ok(None) ==> !files_of(*conn).dom().contains(
            (volume_id as int, file_ref as int),
        ),
{
    let result = conn.query_row(
        "SELECT name, parent_ref FROM files WHERE volume_id = ?1 AND file_ref = ?2",
        (volume_id, file_ref),
        |row| {
            let name: String = row.get(0)?;
            let parent: Option<i64> = row.get(1)?;
            Ok((name, parent))
        },
    );
    match result {
        Ok(row) => Ok(Some(row)),
        Err(rusqlite::Error::QueryReturnedNoRows) => Ok(None),
        Err(e) => Err(FFIError::Database(format!("Failed to read file row: {}", e))),
    }
}

/// Whether a name marks the synthetic root (empty or `.`).
pub open spec fn is_root_name(n: Seq<char>) -> bool {
    n =~= Seq::<char>::empty() || n =~= seq!['.']
}

/// The path components collected by walking parent references upward from
/// `fref`, root-most first, giving up after `fuel` steps.
pub open spec fn chain_components(
    m: Map<(int, int), FileModel>,
    vid: int,
    fref: int,
    fuel: nat,
) -> Seq<Seq<char>>
    decreases fuel,
{
    if fuel == 0 {
        Seq::empty()
    } else if !m.dom().contains((vid, fref)) {
        Seq::empty()
    } else {
        let f = m[(vid, fref)];
        let me: Seq<Seq<char>> = if is_root_name(f.name) {
            Seq::empty()
        } else {
            seq![f.name]
        };
        match f.parent {
            None => me,
            Some(p) => chain_components(m, vid, p, (fuel - 1) as nat) + me,
        }
    }
}

/// Components joined with `/` separators.
pub open spec fn join_path(parts: Seq<Seq<char>>) -> Seq<char>
    decreases parts.len(),
{
    if parts.len() == 0 {
        Seq::empty()
    } else if parts.len() == 1 {
        parts[0]
    } else {
        join_path(parts.drop_last()) + seq!['/'] + parts.last()
    }
}

/// Reconstruct a file's relative path by walking the parent chain.
///
/// The walk stops at a missing parent (broken chain, tolerated), at a row
/// with no parent, or at a synthetic root marker; it also gives up after as
/// many steps as the volume has rows, so a cyclic chain cannot hang it. The
/// collected names are joined root-first with `/`.
pub fn reconstruct_path(
    conn: &rusqlite::Connection,
    volume_id: i64,
    file_ref: i64,
) -> (r: Result<String, FFIError>)
    ensures
        r matches Ok(path) ==> path@ == join_path(
            chain_components(
                files_of(*conn),
                volume_id as int,
                file_ref as int,
                (vol_keys(files_of(*conn), volume_id as int).len() + 1) as nat,
            ),
        ),
{
    let count = match get_file_count(conn, Some(volume_id)) {
        Ok(n) => n,
        Err(e) => {
            return Err(e);
        },
    };
    let bound: u64 = (count as u64) + 1;
    let ghost m = files_of(*conn);
    let ghost vid = volume_id as int;

    let mut components: Vec<String> = Vec::new();
    let mut cur: i64 = file_ref;
    let mut steps: u64 = 0;
    let mut done: bool = false;
    let ghost mut acc: Seq<Seq<char>> = Seq::empty();

    while !done && steps < bound
        invariant
            bound == vol_keys(m, vid).len() + 1,
            m == files_of(*conn),
            vid == volume_id as int,
            steps <= bound,
            acc =~= components@.map(|i: int, s: String| s@).reverse(),
            !done ==> chain_components(m, vid, file_ref as int, bound as nat) =~= chain_components(
                m,
                vid,
                cur as int,
                (bound - steps) as nat,
            ) + acc,
            done ==> chain_components(m, vid, file_ref as int, bound as nat) =~= acc,
        decreases (if done { 0int } else { 1int }), bound - steps,
    {
        let row = match get_file_row(conn, volume_id, cur) {
            Ok(r) => r,
            Err(e) => {
                return Err(e);
            },
        };
        match row {
            None => {
                done = true;
            },
            Some((name, parent)) => {
                let is_root = name.as_str().eq("") || name.as_str().eq(".");
                proof {
                    reveal_strlit("");
                    reveal_strlit(".");
                    assert(""@ =~= Seq::<char>::empty());
                    assert("."@ =~= seq!['.']);
                }
                if !is_root {
                    components.push(name);
                    proof {
                        acc = seq![components@.last()@] + acc;
                        assert(components@.map(|i: int, s: String| s@).reverse() =~= acc);
                    }
                }
                match parent {
                    None => {
                        done = true;
                    },
                    Some(p) => {
                        cur = p;
                        steps = steps + 1;
                    },
                }
            },
        }
    }
    proof {
        if !done {
            assert(chain_components(m, vid, cur as int, (bound - steps) as nat) =~= Seq::<
                Seq<char>,
            >::empty());
            assert(chain_components(m, vid, file_ref as int, bound as nat) =~= acc);
        }
    }

    let mut path = String::new();
    let mut k: usize = components.len();
    let ghost total: Seq<Seq<char>> = components@.map(|i: int, s: String| s@).reverse();
    while k > 0
        invariant
            k <= components@.len(),
            total =~= components@.map(|i: int, s: String| s@).reverse(),
            path@ =~= join_path(total.take((components@.len() - k) as int)),
        decreases k,
    {
        proof {
            reveal_strlit("/");
            assert("/"@ =~= seq!['/']);
        }
        if k < components.len() {
            path.append("/");
        }
        path.append(components[k - 1].as_str());
        proof {
            let done_cnt = (components@.len() - k + 1) as int;
            assert(total[done_cnt - 1] == components@[k - 1]@);
            assert(total.take(done_cnt).drop_last() =~= total.take(done_cnt - 1));
            assert(total.take(done_cnt).last() == components@[k - 1]@);
        }
        k = k - 1;
    }
    proof {
        assert(total.take(components@.len() as int) =~= total);
        assert(chain_components(m, vid, file_ref as int, bound as nat) =~= total);
    }
    Ok(path)
}

/// Whether the store's case-insensitive `LIKE` accepts `text` under
/// `pattern` (`%` any run, `_` any one character).
pub uninterp spec fn sql_like(pattern: Seq<char>, text: Seq<char>) -> bool;

/// The pattern a substring search uses: the query between two `%`.
pub open spec fn like_pattern(query: Seq<char>) -> Seq<char> {
    seq!['%'] + query + seq!['%']
}

/// Whether `e` is a faithful search hit for `pattern` against the rows `m`.
pub open spec fn search_hit(m: Map<(int, int), FileModel>, pattern: Seq<char>, e: FileEntry) -> bool {
    &&& e.file_ref is Some
    &&& m.dom().contains(e.spec_key())
    &&& m[e.spec_key()] == e@
    &&& sql_like(pattern, e@.name)
}

/// Relies on SQLite `SELECT ... WHERE name LIKE ? LIMIT ?`: every returned
/// row is a stored row whose name the pattern accepts; at most `limit` come
/// back, with distinct keys, and fewer than `limit` only when every
/// accepted row was returned.
#[verifier::external_body]
fn like_search(conn: &rusqlite::Connection, pattern: &str, limit: usize) -> (r: Result<
    Vec<FileEntry>,
    FFIError,
>)
    ensures
        r matches Ok(v) ==> {
            &&& v@.len() <= limit
            &&& forall|i: int| 0 <= i < v@.len() ==> search_hit(
                files_of(*conn),
                pattern@,
                #[trigger] v@[i],
            )
            &&& forall|i: int, j: int| 0 <= i < j < v@.len() ==> (#[trigger] v@[i]).spec_key() != (
            #[trigger] v@[j]).spec_key()
            &&& v@.len() < limit ==> forall|k: (int, int)|
                files_of(*conn).dom().contains(k) && sql_like(
                    pattern@,
                    files_of(*conn)[k].name,
                ) ==> exists|i: int| 0 <= i < v@.len() && (#[trigger] v@[i]).spec_key() == k
        },
{
    let mut stmt = conn.prepare_cached(
        "SELECT volume_id, file_ref, parent_ref, name, size, modified, is_dir \
         FROM files WHERE name LIKE ?1 LIMIT ?2",
    ).map_err(|e| FFIError::Database(format!("Failed to prepare search: {}", e)))?;
    let rows = stmt.query_map((pattern, limit as i64), |row| Ok(FileEntry {
        volume_id: row.get(0)?, file_ref: row.get(1)?, parent_ref: row.get(2)?,
        name: row.get(3)?, size: row.get(4)?, modified: row.get(5)?, is_dir: row.get(6)?,
    })).map_err(|e| FFIError::Database(format!("Failed to execute search: {}", e)))?;
    let mut results = Vec::new();
    for row in rows {
        results.push(row.map_err(|e| FFIError::Database(format!("Failed to read row: {}", e)))?);
    }
    Ok(results)
}

/// Search files by name: a case-insensitive substring match on the query.
pub fn search_files(conn: &rusqlite::Connection, query: &str, limit: usize) -> (r: Result<
    Vec<FileEntry>,
    FFIError,
>)
    ensures
        r matches Ok(v) ==> {
            &&& v@.len() <= limit
            &&& forall|i: int| 0 <= i < v@.len() ==> search_hit(
                files_of(*conn),
                like_pattern(query@),
                #[trigger] v@[i],
            )
            &&& forall|i: int, j: int| 0 <= i < j < v@.len() ==> (#[trigger] v@[i]).spec_key() != (
            #[trigger] v@[j]).spec_key()
            &&& v@.len() < limit ==> forall|k: (int, int)|
                files_of(*conn).dom().contains(k) && sql_like(
                    like_pattern(query@),
                    files_of(*conn)[k].name,
                ) ==> exists|i: int| 0 <= i < v@.len() && (#[trigger] v@[i]).spec_key() == k
        },
{
    let mut pattern = String::new();
    pattern.append("%");
    pattern.append(query);
    pattern.append("%");
    proof {
        reveal_strlit("%");
        assert("%"@ =~= seq!['%']);
        assert(pattern@ =~= like_pattern(query@));
    }
    like_search(conn, pattern.as_str(), limit)
}

/// Relies on SQLite `SELECT last_usn, usn_journal_id WHERE id`: returns the
/// stored journal position when the row exists and both columns are set.
#[verifier::external_body]
pub fn get_volume_usn(conn: &rusqlite::Connection, volume_id: i64) -> (r: Result<
    Option<(i64, i64)>,
    FFIError,
>)
    ensures
        r matches Ok(Some(pos)) ==> {
            &&& volumes_of(*conn).dom().contains(volume_id as int)
            &&& volumes_of(*conn)[volume_id as int].last_usn == Some(pos.0 as int)
            &&& volumes_of(*conn)[volume_id as int].journal_id == Some(pos.1 as int)
        },
        r matches Ok(None) ==> !volumes_of(*conn).dom().contains(volume_id as int)
            || volumes_of(*conn)[volume_id as int].last_usn is None
            || volumes_of(*conn)[volume_id as int].journal_id is None,
{
    let result = conn.query_row(
        "SELECT last_usn, usn_journal_id FROM volumes WHERE id = ?1",
        (volume_id,),
        |row| {
            let usn: Option<i64> = row.get(0)?;
            let journal: Option<i64> = row.get(1)?;
            Ok((usn, journal))
        },
    );
    match result {
        Ok((Some(u), Some(j))) => Ok(Some((u, j))),
        Ok(_) => Ok(None),
        Err(rusqlite::Error::QueryReturnedNoRows) => Ok(None),
        Err(e) => Err(FFIError::Database(format!("Failed to get volume USN: {}", e))),
    }
}

/// Relies on SQLite `SELECT id, state, offline_since FROM volumes`: one row
/// per volume, ids distinct, fields as stored, and every volume listed.
#[verifier::external_body]
fn list_volume_rows(conn: &rusqlite::Connection) -> (r: Result<
    Vec<(i64, String, Option<i64>)>,
    FFIError,
>)
    ensures
        r matches Ok(v) ==> {
            &&& forall|i: int| 0 <= i < v@.len() ==> {
                &&& volumes_of(*conn).dom().contains((#[trigger] v@[i]).0 as int)
                &&& volumes_of(*conn)[v@[i].0 as int].state == v@[i].1@
                &&& volumes_of(*conn)[v@[i].0 as int].offline_since == (match v@[i].2 {
                    Some(t) => Some(t as int),
                    None => None::<int>,
                })
            }
            &&& forall|i: int, j: int| 0 <= i < j < v@.len() ==> (#[trigger] v@[i]).0 != (
            #[trigger] v@[j]).0
            &&& forall|id: int| #[trigger] volumes_of(*conn).dom().contains(id) ==> exists|i: int|
                0 <= i < v@.len() && (#[trigger] v@[i]).0 as int == id
        },
{
    let mut stmt = conn.prepare("SELECT id, state, offline_since FROM volumes")
        .map_err(|e| FFIError::Database(format!("Failed to prepare volume list: {}", e)))?;
    let rows = stmt.query_map([], |row| {
        Ok((row.get::<_, i64>(0)?, row.get::<_, String>(1)?, row.get::<_, Option<i64>>(2)?))
    }).map_err(|e| FFIError::Database(format!("Failed to list volumes: {}", e)))?;
    let mut results = Vec::new();
    for row in rows {
        results.push(row.map_err(|e| FFIError::Database(format!("Failed to read volume: {}", e)))?);
    }
    Ok(results)
}

/// The current time clamped below at the epoch.
pub open spec fn clamp_epoch(now: int) -> int {
    if now < 0 {
        0
    } else {
        now
    }
}

/// The ids of volumes that have been offline since `cutoff` or longer.
pub open spec fn expired_volume_ids(vols: Map<int, VolumeModel>, cutoff: int) -> Set<int> {
    Set::new(
        |id: int|
            vols.dom().contains(id) && vols[id].state == "offline"@ && vols[id].offline_since is Some
                && vols[id].offline_since.unwrap() <= cutoff,
    )
}

/// The file rows left after evicting every volume offline beyond the
/// retention window, as of `now`.
pub open spec fn cleanup_effect(
    files: Map<(int, int), FileModel>,
    vols: Map<int, VolumeModel>,
    retention_days: int,
    now: int,
) -> Map<(int, int), FileModel> {
    files.remove_keys(
        Set::new(
            |k: (int, int)|
                expired_volume_ids(vols, clamp_epoch(now) - retention_days * 86400).contains(k.0),
        ),
    )
}

/// Whether a listed volume row is offline past the cutoff.
pub open spec fn spec_row_expired(row: (i64, String, Option<i64>), cutoff: int) -> bool {
    &&& row.1@ == "offline"@
    &&& row.2 is Some
    &&& row.2.unwrap() as int <= cutoff
}

/// Whether `f1` is `f0` with the rows of some subset of the volumes
/// offline beyond retention removed — what an interrupted sweep leaves.
pub open spec fn some_expired_removed(
    f0: Map<(int, int), FileModel>,
    f1: Map<(int, int), FileModel>,
    vols: Map<int, VolumeModel>,
    retention_days: int,
    now: int,
) -> bool {
    exists|ids: Set<int>|
        #[trigger] ids.subset_of(
            expired_volume_ids(vols, clamp_epoch(now) - retention_days * 86400),
        ) && f1 == f0.remove_keys(Set::new(|k: (int, int)| ids.contains(k.0)))
}

/// Delete the file rows of every volume that has been offline for at least
/// `retention_days`, taking `now` as the current epoch second.
///
/// Returns the number of volumes evicted; an interrupted sweep leaves the
/// rows of some of the expired volumes removed and nothing else touched.
pub fn cleanup_expired_at(
    conn: &mut rusqlite::Connection,
    retention_days: u32,
    now: i64,
) -> (r: Result<usize, FFIError>)
    ensures
        volumes_of(*final(conn)) == volumes_of(*old(conn)),
        r matches Ok(n) ==> files_of(*final(conn)) == cleanup_effect(
            files_of(*old(conn)),
            volumes_of(*old(conn)),
            retention_days as int,
            now as int,
        ),
        r is Err ==> some_expired_removed(
            files_of(*old(conn)),
            files_of(*final(conn)),
            volumes_of(*old(conn)),
            retention_days as int,
            now as int,
        ),
{
    let ghost f0 = files_of(*conn);
    let ghost v0 = volumes_of(*conn);
    let now_c: i64 = if now < 0 {
        0
    } else {
        now
    };
    let cutoff: i64 = now_c - (retention_days as i64) * 86400;
    let rows = match list_volume_rows(conn) {
        Ok(v) => v,
        Err(e) => {
            proof {
                let no_ids = Set::<int>::empty();
                assert(no_ids.subset_of(
                    expired_volume_ids(
                        v0,
                        clamp_epoch(now as int) - (retention_days as int) * 86400,
                    ),
                ));
                assert(files_of(*conn) =~= f0.remove_keys(
                    Set::new(|k: (int, int)| no_ids.contains(k.0)),
                ));
            }
            return Err(e);
        },
    };
    let mut evicted: usize = 0;
    let mut i: usize = 0;
    while i < rows.len()
        invariant
            f0 == files_of(*old(conn)),
            v0 == volumes_of(*old(conn)),
            i <= rows@.len(),
            evicted <= i,
            volumes_of(*conn) == v0,
            cutoff as int == clamp_epoch(now as int) - (retention_days as int) * 86400,
            forall|j: int| 0 <= j < rows@.len() ==> {
                &&& v0.dom().contains((#[trigger] rows@[j]).0 as int)
                &&& v0[rows@[j].0 as int].state == rows@[j].1@
                &&& v0[rows@[j].0 as int].offline_since == (match rows@[j].2 {
                    Some(t) => Some(t as int),
                    None => None::<int>,
                })
            },
            forall|j: int, l: int| 0 <= j < l < rows@.len() ==> (#[trigger] rows@[j]).0 != (
            #[trigger] rows@[l]).0,
            forall|id: int| #[trigger] v0.dom().contains(id) ==> exists|j: int|
                0 <= j < rows@.len() && (#[trigger] rows@[j]).0 as int == id,
            files_of(*conn) =~= f0.remove_keys(
                Set::new(
                    |k: (int, int)|
                        exists|j: int|
                            0 <= j < i && (#[trigger] rows@[j]).0 as int == k.0 && spec_row_expired(
                                rows@[j],
                                cutoff as int,
                            ),
                ),
            ),
        decreases rows@.len() - i,
    {
        let row = &rows[i];
        let expired = row.1.as_str().eq("offline") && match row.2 {
            Some(t) => t <= cutoff,
            None => false,
        };
        if expired {
            match delete_volume_files(conn, row.0) {
                Ok(_) => (),
                Err(e) => {
                    proof {
                        let done_ids = Set::new(
                            |id: int|
                                exists|j: int|
                                    0 <= j < i && (#[trigger] rows@[j]).0 as int == id
                                        && spec_row_expired(rows@[j], cutoff as int),
                        );
                        assert forall|id: int| #[trigger] done_ids.contains(id) implies
                            expired_volume_ids(v0, cutoff as int).contains(id) by {
                            let j = choose|j: int|
                                0 <= j < i && (#[trigger] rows@[j]).0 as int == id
                                    && spec_row_expired(rows@[j], cutoff as int);
                            assert(v0.dom().contains(rows@[j].0 as int));
                        }
                        assert(done_ids.subset_of(
                            expired_volume_ids(
                                v0,
                                clamp_epoch(now as int) - (retention_days as int) * 86400,
                            ),
                        ));
                        assert(files_of(*conn) =~= f0.remove_keys(
                            Set::new(|k: (int, int)| done_ids.contains(k.0)),
                        ));
                    }
                    return Err(e);
                },
            }
            evicted = evicted + 1;
        }
        proof {
            let old_set = Set::new(
                |k: (int, int)|
                    exists|j: int|
                        0 <= j < i && (#[trigger] rows@[j]).0 as int == k.0 && spec_row_expired(
                            rows@[j],
                            cutoff as int,
                        ),
            );
            let new_set = Set::new(
                |k: (int, int)|
                    exists|j: int|
                        0 <= j < i + 1 && (#[trigger] rows@[j]).0 as int == k.0 && spec_row_expired(
                            rows@[j],
                            cutoff as int,
                        ),
            );
            if spec_row_expired(rows@[i as int], cutoff as int) {
                assert forall|k: (int, int)| new_set.contains(k) implies f0.remove_keys(
                    old_set,
                ).remove_keys(vol_keys(f0.remove_keys(old_set), rows@[i as int].0 as int)).dom().contains(
                    k,
                ) == false by {
                    if f0.remove_keys(old_set).dom().contains(k) && k.0 == rows@[i as int].0 as int {
                        assert(vol_keys(f0.remove_keys(old_set), rows@[i as int].0 as int).contains(
                            k,
                        ));
                    }
                }
                assert(files_of(*conn) =~= f0.remove_keys(new_set));
            } else {
                assert forall|k: (int, int)| #[trigger] new_set.contains(k) implies old_set.contains(
                    k,
                ) by {
                    let j = choose|j: int|
                        0 <= j < i + 1 && (#[trigger] rows@[j]).0 as int == k.0 && spec_row_expired(
                            rows@[j],
                            cutoff as int,
                        );
                    assert(j < i);
                }
                assert(files_of(*conn) =~= f0.remove_keys(new_set));
            }
        }
        i = i + 1;
    }
    proof {
        let listed = Set::new(
            |k: (int, int)|
                exists|j: int|
                    0 <= j < rows@.len() && (#[trigger] rows@[j]).0 as int == k.0
                        && spec_row_expired(rows@[j], cutoff as int),
        );
        let modeled = Set::new(
            |k: (int, int)| expired_volume_ids(v0, cutoff as int).contains(k.0),
        );
        assert forall|k: (int, int)| #[trigger] listed.contains(k) implies modeled.contains(k) by {
            let j = choose|j: int|
                0 <= j < rows@.len() && (#[trigger] rows@[j]).0 as int == k.0 && spec_row_expired(
                    rows@[j],
                    cutoff as int,
                );
            assert(v0.dom().contains(rows@[j].0 as int));
        }
        assert forall|k: (int, int)| #[trigger] modeled.contains(k) implies listed.contains(k) by {
            assert(v0.dom().contains(k.0));
            let j = choose|j: int| 0 <= j < rows@.len() && (#[trigger] rows@[j]).0 as int == k.0;
            assert(spec_row_expired(rows@[j], cutoff as int));
        }
        assert(listed =~= modeled);
        assert(files_of(*conn) =~= cleanup_effect(
            f0,
            v0,
            retention_days as int,
            now as int,
        ));
    }
    Ok(evicted)
}

/// Whether every volume row carries its own drive letter.
pub open spec fn unique_drives(m: Map<int, VolumeModel>) -> bool {
    forall|i: int, j: int|
        m.dom().contains(i) && m.dom().contains(j) && i != j ==> (#[trigger] m[i]).drive != (
        #[trigger] m[j]).drive
}

/// Whether distinct volume rows never share a (reported, non-empty)
/// serial; an empty serial marks a record whose serial the probe has not
/// yet supplied.
pub open spec fn unique_serials(m: Map<int, VolumeModel>) -> bool {
    forall|i: int, j: int|
        m.dom().contains(i) && m.dom().contains(j) && i != j && (#[trigger] m[i]).serial == (
        #[trigger] m[j]).serial ==> m[i].serial.len() == 0
}

/// Catalog law: upserting a volume record keeps drive letters unique in
/// the catalog — the file keys `(volume_id, file_ref)` are unique by the
/// shape of the file map itself.
pub proof fn lemma_upsert_keeps_unique_drives(
    m: Map<int, VolumeModel>,
    id: int,
    drive: Seq<char>,
    serial: Seq<char>,
    fs_type: Seq<char>,
)
    requires
        unique_drives(m),
    ensures
        unique_drives(spec_upsert_volumes(m, id, drive, serial, fs_type)),
{
    let cleared = m.remove_keys(ids_at_drive(m, drive).union(ids_at_serial(m, serial)));
    assert forall|i: int| cleared.dom().contains(i) implies cleared[i].drive != drive by {
        assert(m.dom().contains(i));
        assert(!ids_at_drive(m, drive).contains(i));
    }
}

/// Catalog law: upserting a volume record keeps reported serials unique in
/// the catalog, because the store retires any record carrying the serial.
pub proof fn lemma_upsert_keeps_unique_serials(
    m: Map<int, VolumeModel>,
    id: int,
    drive: Seq<char>,
    serial: Seq<char>,
    fs_type: Seq<char>,
)
    requires
        unique_serials(m),
    ensures
        unique_serials(spec_upsert_volumes(m, id, drive, serial, fs_type)),
{
    let cleared = m.remove_keys(ids_at_drive(m, drive).union(ids_at_serial(m, serial)));
    assert forall|i: int| cleared.dom().contains(i) && serial.len() != 0 implies cleared[i].serial
        != serial by {
        assert(m.dom().contains(i));
        assert(!ids_at_serial(m, serial).contains(i));
    }
}

/// Whether a batch holds pairwise-distinct keys, all of them new to `m`.
pub open spec fn fresh_distinct_keys(m: Map<(int, int), FileModel>, entries: Seq<FileEntry>) -> bool {
    &&& forall|i: int| 0 <= i < entries.len() ==> (#[trigger] entries[i]).file_ref is Some
    &&& forall|i: int, j: int| 0 <= i < j < entries.len() ==> (#[trigger] entries[i]).spec_key() != (
    #[trigger] entries[j]).spec_key()
    &&& forall|i: int| 0 <= i < entries.len() ==> !m.dom().contains(
        (#[trigger] entries[i]).spec_key(),
    )
}

/// Catalog law, round trip: inserting a batch of fresh, distinct entries
/// grows the file count by exactly the batch length, so counting right
/// after `batch_insert_files` sees every inserted entry; and
/// `delete_volume_files` leaves no row of the volume behind, by its own
/// contract over `remove_keys`.
pub proof fn lemma_batch_insert_count(m: Map<(int, int), FileModel>, entries: Seq<FileEntry>)
    requires
        m.dom().finite(),
        fresh_distinct_keys(m, entries),
    ensures
        spec_insert_files(m, entries).dom().finite(),
        spec_insert_files(m, entries).dom().len() == m.dom().len() + entries.len(),
    decreases entries.len(),
{
    if entries.len() > 0 {
        let head = entries.drop_last();
        assert(fresh_distinct_keys(m, head));
        lemma_batch_insert_count(m, head);
        let inner = spec_insert_files(m, head);
        assert(!inner.dom().contains(entries.last().spec_key())) by {
            lemma_insert_files_dom(m, head);
        }
        vstd::set_lib::lemma_set_insert_finite_iff(
            inner.dom(),
            entries.last().spec_key(),
        );
        assert(spec_insert_files(m, entries).dom() =~= inner.dom().insert(
            entries.last().spec_key(),
        ));
    }
}

/// The keys after a batch insert are the old keys and the batch's keys.
pub proof fn lemma_insert_files_dom(m: Map<(int, int), FileModel>, entries: Seq<FileEntry>)
    ensures
        forall|k: (int, int)| #[trigger] spec_insert_files(m, entries).dom().contains(k) <==> (
        m.dom().contains(k) || exists|i: int|
            0 <= i < entries.len() && (#[trigger] entries[i]).spec_key() == k),
    decreases entries.len(),
{
    if entries.len() > 0 {
        lemma_insert_files_dom(m, entries.drop_last());
        assert forall|k: (int, int)| #[trigger] spec_insert_files(m, entries).dom().contains(
            k,
        ) implies (m.dom().contains(k) || exists|i: int|
            0 <= i < entries.len() && (#[trigger] entries[i]).spec_key() == k) by {
            if k == entries.last().spec_key() {
                assert(entries[entries.len() - 1].spec_key() == k);
            } else {
                assert(spec_insert_files(m, entries.drop_last()).dom().contains(k));
                if !m.dom().contains(k) {
                    let i = choose|i: int|
                        0 <= i < entries.drop_last().len() && (#[trigger] entries.drop_last()[i]).spec_key()
                            == k;
                    assert(entries[i].spec_key() == k);
                }
            }
        }
        assert forall|k: (int, int)|
            (m.dom().contains(k) || exists|i: int|
                0 <= i < entries.len() && (#[trigger] entries[i]).spec_key()
                    == k) implies #[trigger] spec_insert_files(m, entries).dom().contains(k) by {
            if !m.dom().contains(k) {
                let i = choose|i: int|
                    0 <= i < entries.len() && (#[trigger] entries[i]).spec_key() == k;
                if i < entries.len() - 1 {
                    assert(entries.drop_last()[i].spec_key() == k);
                } else {
                    assert(entries[entries.len() - 1] == entries.last());
                }
            }
        }
    }
}

/// Catalog law: after `delete_volume_files`, no row of the volume remains.
pub proof fn lemma_delete_volume_clears(m: Map<(int, int), FileModel>, vid: int)
    ensures
        forall|k: (int, int)| k.0 == vid ==> !(#[trigger] m.remove_keys(
            vol_keys(m, vid),
        ).dom().contains(k)),
{
}

/// Delete the file rows of every volume that has been offline for at least
/// `retention_days`, as of the current time.
pub fn cleanup_old_offline_volumes(
    conn: &mut rusqlite::Connection,
    retention_days: u32,
) -> (r: Result<usize, FFIError>)
    ensures
        volumes_of(*final(conn)) == volumes_of(*old(conn)),
        r matches Ok(n) ==> exists|now: i64| files_of(*final(conn)) == cleanup_effect(
            files_of(*old(conn)),
            volumes_of(*old(conn)),
            retention_days as int,
            now as int,
        ),
        r is Err ==> exists|now: i64| some_expired_removed(
            files_of(*old(conn)),
            files_of(*final(conn)),
            volumes_of(*old(conn)),
            retention_days as int,
            now as int,
        ),
{
    let now = crate::ext::now_epoch_secs();
    let r = cleanup_expired_at(conn, retention_days, now);
    proof {
        if r is Ok {
            assert(files_of(*conn) == cleanup_effect(
                files_of(*old(conn)),
                volumes_of(*old(conn)),
                retention_days as int,
                now as int,
            ));
        } else {
            assert(some_expired_removed(
                files_of(*old(conn)),
                files_of(*conn),
                volumes_of(*old(conn)),
                retention_days as int,
                now as int,
            ));
        }
    }
    r
}

} // verus!
