//! Durable cache store: one embedded relational table
//! `thumbnails(cache_key PRIMARY KEY, source_path, source_modified_unix,
//! thumbnail_blob, mime_type)`.
//!
//! The store is modelled as a map from cache key to the stored row
//! `(source_path, source_modified_unix, thumbnail_blob, mime_type)`. Two
//! views exist because of transactions: `committed` is what is durable,
//! `visible` is what the connection currently sees; outside a transaction
//! they coincide. All access during a scan goes through one connection owned
//! by the orchestrator, so no concurrent mutation is modelled.

use vstd::prelude::*;

use crate::errors::GalleryError;
use crate::types::GeneratedThumbnail;

verus! {

#[verifier::external_type_specification]
#[verifier::external_body]
pub struct ExConnection(rusqlite::Connection);

/// One stored row: `(source_path, source_modified_unix, thumbnail_blob,
/// mime_type)`, keyed elsewhere by cache key.
pub type StoredRow = (Seq<char>, i64, Seq<u8>, Seq<char>);

/// The durable contents of the database behind a connection.
pub uninterp spec fn db_committed(c: rusqlite::Connection) -> Map<Seq<char>, StoredRow>;

/// The contents the connection currently sees (uncommitted work included).
pub uninterp spec fn db_visible(c: rusqlite::Connection) -> Map<Seq<char>, StoredRow>;

/// Whether an explicit transaction is open on the connection.
pub uninterp spec fn db_in_txn(c: rusqlite::Connection) -> bool;

/// The row map after one insert-or-replace: a new key carries the given
/// source path; on conflict the timestamp, blob and MIME type are
/// overwritten in place and the stored source path is kept.
pub open spec fn upsert_row(
    rows: Map<Seq<char>, StoredRow>,
    key: Seq<char>,
    source_path: Seq<char>,
    modified: i64,
    blob: Seq<u8>,
    mime: Seq<char>,
) -> Map<Seq<char>, StoredRow> {
    let sp = if rows.contains_key(key) {
        rows[key].0
    } else {
        source_path
    };
    rows.insert(key, (sp, modified, blob, mime))
}

/// The row map after upserting a whole batch, in order.
pub open spec fn batch_upsert(
    rows: Map<Seq<char>, StoredRow>,
    entries: Seq<GeneratedThumbnail>,
) -> Map<Seq<char>, StoredRow>
    decreases entries.len(),
{
    if entries.len() == 0 {
        rows
    } else {
        let e = entries.last();
        upsert_row(
            batch_upsert(rows, entries.drop_last()),
            e.cache_key@,
            e.source_path@,
            e.modified_unix,
            e.blob@,
            e.mime@,
        )
    }
}

/// Relies on rusqlite's `Connection::open`: opens (creating if absent) the
/// database file; no transaction is active on a fresh connection.
#[verifier::external_body]
fn conn_open(path: &str) -> (r: Result<rusqlite::Connection, GalleryError>)
    ensures
        r is Ok ==> !db_in_txn(r->Ok_0) && db_visible(r->Ok_0) == db_committed(r->Ok_0)
            && db_visible(r->Ok_0).dom().finite(),
        r is Err ==> r->Err_0 == GalleryError::StoreUnavailable,
{
    rusqlite::Connection::open(path).map_err(|_| GalleryError::StoreUnavailable)
}

/// Relies on rusqlite's `Connection::execute_batch` running
/// `CREATE TABLE IF NOT EXISTS`: idempotent, adds no rows and changes none.
#[verifier::external_body]
fn conn_init_schema(conn: &mut rusqlite::Connection) -> (r: Result<(), GalleryError>)
    ensures
        db_in_txn(*final(conn)) == db_in_txn(*old(conn)),
        db_visible(*final(conn)) == db_visible(*old(conn)),
        db_committed(*final(conn)) == db_committed(*old(conn)),
        r is Err ==> r->Err_0 == GalleryError::StoreUnavailable,
{
    (&*conn).execute_batch(
        "CREATE TABLE IF NOT EXISTS thumbnails (
           cache_key TEXT PRIMARY KEY,
           source_path TEXT NOT NULL,
           source_modified_unix INTEGER NOT NULL,
           thumbnail_blob BLOB NOT NULL,
           mime_type TEXT NOT NULL
         );",
    ).map_err(|_| GalleryError::StoreUnavailable)
}

/// Relies on rusqlite's `Connection::query_row` with `optional`: selects the
/// single row whose primary key matches, and only if its stored timestamp
/// equals the one supplied; any mismatch is a miss.
#[verifier::external_body]
fn conn_lookup_fresh(conn: &rusqlite::Connection, key: &str, modified: i64) -> (r: Result<
    Option<(Vec<u8>, String)>,
    GalleryError,
>)
    ensures
        r is Ok ==> match r->Ok_0 {
            Some(bm) => db_visible(*conn).contains_key(key@) && db_visible(*conn)[key@].1
                == modified && bm.0@ == db_visible(*conn)[key@].2 && bm.1@ == db_visible(
                *conn,
            )[key@].3,
            None => !(db_visible(*conn).contains_key(key@) && db_visible(*conn)[key@].1
                == modified),
        },
        r is Err ==> r->Err_0 == GalleryError::StoreUnavailable,
{
    rusqlite::OptionalExtension::optional(
        conn.query_row(
            "SELECT thumbnail_blob, mime_type FROM thumbnails
             WHERE cache_key = ?1 AND source_modified_unix = ?2",
            (key, modified),
            |row| Ok((row.get(0)?, row.get(1)?)),
        ),
    ).map_err(|_| GalleryError::StoreUnavailable)
}

/// Relies on rusqlite's `Connection::execute` running `INSERT ... ON
/// CONFLICT(cache_key) DO UPDATE`: inserts the row, or overwrites timestamp,
/// blob and MIME type in place; a failed statement changes nothing. Durable
/// immediately unless a transaction is open.
#[verifier::external_body]
fn conn_upsert(
    conn: &mut rusqlite::Connection,
    key: &str,
    source_path: &str,
    modified: i64,
    blob: &Vec<u8>,
    mime: &str,
) -> (r: Result<(), GalleryError>)
    ensures
        db_in_txn(*final(conn)) == db_in_txn(*old(conn)),
        r is Ok ==> db_visible(*final(conn)) == upsert_row(
            db_visible(*old(conn)),
            key@,
            source_path@,
            modified,
            blob@,
            mime@,
        ),
        r is Err ==> db_visible(*final(conn)) == db_visible(*old(conn)),
        db_committed(*final(conn)) == if db_in_txn(*old(conn)) {
            db_committed(*old(conn))
        } else {
            db_visible(*final(conn))
        },
        r is Err ==> r->Err_0 == GalleryError::StoreUnavailable,
{
    (&*conn).execute(
        "INSERT INTO thumbnails (cache_key, source_path, source_modified_unix, thumbnail_blob, mime_type)
         VALUES (?1, ?2, ?3, ?4, ?5)
         ON CONFLICT(cache_key) DO UPDATE SET
           source_modified_unix = excluded.source_modified_unix,
           thumbnail_blob = excluded.thumbnail_blob,
           mime_type = excluded.mime_type",
        (key, source_path, modified, blob, mime),
    ).map(|_| ()).map_err(|_| GalleryError::StoreUnavailable)
}

/// Relies on rusqlite's `Connection::execute_batch` running `BEGIN`: opens a
/// transaction; until commit, changes are visible but not durable.
#[verifier::external_body]
fn conn_begin(conn: &mut rusqlite::Connection) -> (r: Result<(), GalleryError>)
    requires
        !db_in_txn(*old(conn)),
    ensures
        r is Ok ==> db_in_txn(*final(conn)),
        r is Err ==> db_in_txn(*final(conn)) == db_in_txn(*old(conn)),
        db_visible(*final(conn)) == db_visible(*old(conn)),
        db_committed(*final(conn)) == db_committed(*old(conn)),
        r is Err ==> r->Err_0 == GalleryError::StoreUnavailable,
{
    (&*conn).execute_batch("BEGIN").map_err(|_| GalleryError::StoreUnavailable)
}

/// Relies on rusqlite's `Connection::execute_batch` running `COMMIT`: on
/// success everything visible becomes durable at once; a failed commit makes
/// nothing durable.
#[verifier::external_body]
fn conn_commit(conn: &mut rusqlite::Connection) -> (r: Result<(), GalleryError>)
    requires
        db_in_txn(*old(conn)),
    ensures
        r is Ok ==> !db_in_txn(*final(conn)) && db_visible(*final(conn)) == db_visible(
            *old(conn),
        ) && db_committed(*final(conn)) == db_visible(*old(conn)),
        r is Err ==> db_committed(*final(conn)) == db_committed(*old(conn)),
        r is Err ==> r->Err_0 == GalleryError::StoreUnavailable,
{
    (&*conn).execute_batch("COMMIT").map_err(|_| GalleryError::StoreUnavailable)
}

/// Relies on rusqlite's `Connection::execute_batch` running `ROLLBACK`:
/// abandons any open transaction; afterwards the connection sees exactly the
/// durable contents. The statement's own error, raised when no transaction
/// is open, is ignored.
#[verifier::external_body]
fn conn_rollback(conn: &mut rusqlite::Connection)
    ensures
        !db_in_txn(*final(conn)),
        db_committed(*final(conn)) == db_committed(*old(conn)),
        db_visible(*final(conn)) == db_committed(*old(conn)),
{
    let _ = (&*conn).execute_batch("ROLLBACK");
}

/// Relies on rusqlite's `Connection::query_row` over `COUNT(*)`: returns the
/// number of rows in the table.
#[verifier::external_body]
fn conn_count(conn: &rusqlite::Connection) -> (r: Result<i64, GalleryError>)
    ensures
        r is Ok ==> r->Ok_0 >= 0 && r->Ok_0 as nat == db_visible(*conn).dom().len(),
        r is Err ==> r->Err_0 == GalleryError::StoreUnavailable,
{
    conn.query_row("SELECT COUNT(*) FROM thumbnails", (), |row| row.get(0))
        .map_err(|_| GalleryError::StoreUnavailable)
}

/// The durable thumbnail cache, owned by one orchestrator at a time.
pub struct CacheStore {
    conn: rusqlite::Connection,
}

impl CacheStore {
    /// The rows this store sees, keyed by cache key.
    pub closed spec fn rows(self) -> Map<Seq<char>, StoredRow> {
        db_visible(self.conn)
    }

    /// Between operations the store is quiescent: no open transaction, the
    /// visible rows are the durable ones, and there are finitely many.
    pub closed spec fn wf(self) -> bool {
        &&& !db_in_txn(self.conn)
        &&& db_visible(self.conn) == db_committed(self.conn)
        &&& db_visible(self.conn).dom().finite()
    }

    /// Opens (creating if needed) the store file and ensures the schema
    /// exists; safe to call on every open.
    pub fn open(path: &str) -> (r: Result<CacheStore, GalleryError>)
        ensures
            r is Ok ==> r->Ok_0.wf(),
            r is Err ==> r->Err_0 == GalleryError::StoreUnavailable,
    {
        let mut conn = match conn_open(path) {
            Ok(c) => c,
            Err(e) => {
                return Err(e);
            },
        };
        match conn_init_schema(&mut conn) {
            Ok(()) => Ok(CacheStore { conn }),
            Err(e) => Err(e),
        }
    }

    /// A hit returns the stored blob and MIME type, and only when the stored
    /// timestamp equals `modified`; any mismatch is a miss, never a stale
    /// return.
    pub fn lookup_fresh(&self, key: &str, modified: i64) -> (r: Result<
        Option<(Vec<u8>, String)>,
        GalleryError,
    >)
        ensures
            r is Ok ==> match r->Ok_0 {
                Some(bm) => self.rows().contains_key(key@) && self.rows()[key@].1 == modified
                    && bm.0@ == self.rows()[key@].2 && bm.1@ == self.rows()[key@].3,
                None => !(self.rows().contains_key(key@) && self.rows()[key@].1 == modified),
            },
            r is Err ==> r->Err_0 == GalleryError::StoreUnavailable,
    {
        conn_lookup_fresh(&self.conn, key, modified)
    }

    /// Insert-or-replace for a single generated thumbnail, durable at once.
    pub fn upsert(&mut self, entry: &GeneratedThumbnail) -> (r: Result<(), GalleryError>)
        requires
            old(self).wf(),
        ensures
            final(self).wf(),
            r is Ok ==> final(self).rows() == upsert_row(
                old(self).rows(),
                entry.cache_key@,
                entry.source_path@,
                entry.modified_unix,
                entry.blob@,
                entry.mime@,
            ),
            r is Err ==> final(self).rows() == old(self).rows(),
            r is Err ==> r->Err_0 == GalleryError::StoreUnavailable,
    {
        conn_upsert(
            &mut self.conn,
            entry.cache_key.as_str(),
            entry.source_path.as_str(),
            entry.modified_unix,
            &entry.blob,
            entry.mime.as_str(),
        )
    }

    /// Upserts a whole generation round inside one transaction: either every
    /// entry becomes durable, or (on any failure) none does.
    pub fn upsert_batch(&mut self, entries: &Vec<GeneratedThumbnail>) -> (r: Result<
        (),
        GalleryError,
    >)
        requires
            old(self).wf(),
        ensures
            final(self).wf(),
            r is Ok ==> final(self).rows() == batch_upsert(old(self).rows(), entries@),
            r is Err ==> final(self).rows() == old(self).rows(),
            r is Err ==> r->Err_0 == GalleryError::StoreUnavailable,
    {
        if let Err(e) = conn_begin(&mut self.conn) {
            return Err(e);
        }
        let ghost rows0 = db_visible(self.conn);
        let n = entries.len();
        let mut i: usize = 0;
        proof {
            assert(entries@.subrange(0, 0) =~= Seq::<GeneratedThumbnail>::empty());
        }
        while i < n
            invariant
                n == entries@.len(),
                i <= n,
                db_in_txn(self.conn),
                db_committed(self.conn) == db_committed(old(self).conn),
                db_visible(self.conn) == batch_upsert(rows0, entries@.subrange(0, i as int)),
                rows0 == db_visible(old(self).conn),
                old(self).wf(),
            decreases n - i,
        {
            let entry = &entries[i];
            let res = conn_upsert(
                &mut self.conn,
                entry.cache_key.as_str(),
                entry.source_path.as_str(),
                entry.modified_unix,
                &entry.blob,
                entry.mime.as_str(),
            );
            if res.is_err() {
                conn_rollback(&mut self.conn);
                return Err(GalleryError::StoreUnavailable);
            }
            proof {
                let pre = entries@.subrange(0, i as int);
                let cur = entries@.subrange(0, i + 1);
                assert(cur.drop_last() =~= pre);
                assert(cur.last() == entries@[i as int]);
            }
            i += 1;
        }
        proof {
            assert(entries@.subrange(0, n as int) =~= entries@);
        }
        match conn_commit(&mut self.conn) {
            Ok(()) => {
                proof {
                    lemma_batch_upsert_finite(rows0, entries@);
                }
                Ok(())
            },
            Err(_) => {
                conn_rollback(&mut self.conn);
                Err(GalleryError::StoreUnavailable)
            },
        }
    }

    /// The number of cached rows.
    pub fn row_count(&self) -> (r: Result<i64, GalleryError>)
        ensures
            r is Ok ==> r->Ok_0 >= 0 && r->Ok_0 as nat == self.rows().dom().len(),
            r is Err ==> r->Err_0 == GalleryError::StoreUnavailable,
    {
        conn_count(&self.conn)
    }
}

proof fn lemma_batch_upsert_finite(rows: Map<Seq<char>, StoredRow>, entries: Seq<GeneratedThumbnail>)
    requires
        rows.dom().finite(),
    ensures
        batch_upsert(rows, entries).dom().finite(),
    decreases entries.len(),
{
    if entries.len() > 0 {
        lemma_batch_upsert_finite(rows, entries.drop_last());
    }
}

/// Law: an upsert for a key that is already cached overwrites that row in
/// place — the set of keys, and so the row count, does not change.
pub proof fn lemma_upsert_overwrites(
    rows: Map<Seq<char>, StoredRow>,
    key: Seq<char>,
    source_path: Seq<char>,
    modified: i64,
    blob: Seq<u8>,
    mime: Seq<char>,
)
    requires
        rows.contains_key(key),
    ensures
        upsert_row(rows, key, source_path, modified, blob, mime).dom() =~= rows.dom(),
        upsert_row(rows, key, source_path, modified, blob, mime)[key] == (
            rows[key].0,
            modified,
            blob,
            mime,
        ),
{
}

} // verus!
