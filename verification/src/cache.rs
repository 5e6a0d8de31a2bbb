//! The persistent cache store: one SQLite database holding one `cache`
//! table of `(code, expiry, payload)` rows, reached through `rusqlite`.
//!
//! The table is modeled as a bag of rows; duplicate codes may coexist,
//! since repeated fetches append rather than replace.

use vstd::multiset::Multiset;
use vstd::prelude::*;

use rusqlite::OptionalExtension;

use crate::codec::{decode_snapshot, encode_snapshot, snap_chars, snap_of_chars};
use crate::errors::CacheError;
use crate::models::ApiResponse;

verus! {

broadcast use vstd::multiset::group_multiset_axioms;

#[verifier::external_type_specification]
#[verifier::external_body]
pub struct ExConnection(rusqlite::Connection);

/// The rows of the `cache` table reachable through a connection: a bag of
/// `(code, expiry, payload)` triples.
pub uninterp spec fn cache_rows(conn: rusqlite::Connection) -> Multiset<(Seq<char>, u64, Seq<char>)>;

/// The persistent cache store.
pub struct CacheStore {
    conn: rusqlite::Connection,
}

impl CacheStore {
    pub closed spec fn rows(self) -> Multiset<(Seq<char>, u64, Seq<char>)> {
        cache_rows(self.conn)
    }

    /// Relies on `rusqlite::Connection::open` — it creates the database
    /// file if absent and opens it otherwise — followed by
    /// `CREATE TABLE IF NOT EXISTS`, which keeps an existing table as it
    /// is. Rows whose expiry is not a non-negative integer, or whose code
    /// or payload is not text, are dropped at open, so every row of an
    /// opened store fits the model; nothing else is assumed about a
    /// reopened store's rows.
    #[verifier::external_body]
    fn db_open(path: &str) -> (r: Result<CacheStore, String>)
    {
        let conn = rusqlite::Connection::open(path).map_err(|e| e.to_string())?;
        conn.execute("CREATE TABLE IF NOT EXISTS cache (code TEXT, expiry INTEGER, data TEXT)", ())
            .map_err(|e| e.to_string())?;
        conn.execute(
            "DELETE FROM cache WHERE typeof(expiry) != 'integer' OR expiry < 0 OR typeof(code) != 'text' OR typeof(data) != 'text'",
            (),
        )
            .map_err(|e| e.to_string())?;
        Ok(CacheStore { conn })
    }

    /// Relies on `rusqlite::Connection::open_in_memory`: a fresh in-memory
    /// database is empty, so after creating the table the store holds no
    /// rows.
    #[verifier::external_body]
    fn db_open_in_memory() -> (r: Result<CacheStore, String>)
        ensures
            r matches Ok(s) ==> cache_rows(s.conn) == Multiset::<(Seq<char>, u64, Seq<char>)>::empty(),
    {
        let conn = rusqlite::Connection::open_in_memory().map_err(|e| e.to_string())?;
        conn.execute("CREATE TABLE IF NOT EXISTS cache (code TEXT, expiry INTEGER, data TEXT)", ())
            .map_err(|e| e.to_string())?;
        Ok(CacheStore { conn })
    }

    /// Relies on `rusqlite::Connection::execute` running
    /// `DELETE FROM cache WHERE expiry < ?1` and returning the count of
    /// changed rows: on success exactly the rows with `expiry < now` are
    /// gone and the others are untouched. On failure the table is
    /// unchanged: a statement that fails backs out its own changes
    /// (SQLite's statement-level atomicity).
    #[verifier::external_body]
    fn db_delete_expired(&mut self, now: u64) -> (r: Result<usize, String>)
        requires
            now <= i64::MAX as u64,
        ensures
            r matches Ok(n) ==> cache_rows(final(self).conn) == cache_rows(old(self).conn).filter(
                |row: (Seq<char>, u64, Seq<char>)| row.1 >= now,
            ) && n == cache_rows(old(self).conn).len() - cache_rows(final(self).conn).len(),
            r is Err ==> cache_rows(final(self).conn) == cache_rows(old(self).conn),
    {
        self.conn
            .execute("DELETE FROM cache WHERE expiry < ?1", (now as i64,))
            .map_err(|e| e.to_string())
    }

    /// Relies on `rusqlite::Connection::query_row` running
    /// `SELECT data FROM cache WHERE code = ?1`: a returned payload is the
    /// `data` of some row with that code, and `QueryReturnedNoRows`
    /// (turned into `None` by `optional`) comes exactly when no row
    /// matches.
    #[verifier::external_body]
    fn db_select_data(&self, code: &str) -> (r: Result<Option<String>, String>)
        ensures
            match r {
                Ok(Some(d)) => exists|e: u64| cache_rows(self.conn).contains((code@, e, d@)),
                Ok(None) => forall|e: u64, d: Seq<char>| !cache_rows(self.conn).contains((code@, e, d)),
                Err(_) => true,
            },
    {
        self.conn
            .query_row("SELECT data FROM cache WHERE code = ?1", (code,), |row| row.get(0))
            .optional()
            .map_err(|e| e.to_string())
    }

    /// Relies on `rusqlite::Connection::execute` running an `INSERT` of
    /// one row, and on SQLite's statement-level atomicity: a statement
    /// that fails backs out its own changes, so on failure the table is
    /// unchanged.
    #[verifier::external_body]
    fn db_insert_row(&mut self, code: &str, expiry: u64, data: &str) -> (r: Result<(), String>)
        requires
            expiry <= i64::MAX as u64,
        ensures
            r is Ok ==> cache_rows(final(self).conn) == cache_rows(old(self).conn).insert(
                (code@, expiry, data@),
            ),
            r is Err ==> cache_rows(final(self).conn) == cache_rows(old(self).conn),
    {
        self.conn
            .execute("INSERT INTO cache (code, expiry, data) VALUES (?1, ?2, ?3)", (code, expiry as i64, data))
            .map(|_| ())
            .map_err(|e| e.to_string())
    }

    /// Ensures the backing store and its single table exist; idempotent.
    /// The store's model assumes this process is the only writer and that
    /// one `CacheStore` at a time is open on a given path, as the
    /// single-operation resource model prescribes.
    pub fn init(path: &str) -> (r: Result<CacheStore, CacheError>)
        ensures
            r matches Err(e) ==> e is StorageInitError,
    {
        match Self::db_open(path) {
            Ok(s) => Ok(s),
            Err(m) => Err(CacheError::StorageInitError(m)),
        }
    }

    /// An empty store that lives in memory only.
    pub fn init_in_memory() -> (r: Result<CacheStore, CacheError>)
        ensures
            r matches Ok(s) ==> s.rows() == Multiset::<(Seq<char>, u64, Seq<char>)>::empty(),
            r matches Err(e) ==> e is StorageInitError,
    {
        match Self::db_open_in_memory() {
            Ok(s) => Ok(s),
            Err(m) => Err(CacheError::StorageInitError(m)),
        }
    }

    /// Deletes every row whose expiry is strictly before `now` and leaves
    /// every other row untouched; returns the count of deleted rows. A
    /// failed cleanup leaves the table as it was.
    pub fn cleanup(&mut self, now: u64) -> (r: Result<usize, CacheError>)
        ensures
            r matches Ok(n) ==> final(self).rows() == old(self).rows().filter(
                |row: (Seq<char>, u64, Seq<char>)| row.1 >= now,
            ) && n == old(self).rows().len() - final(self).rows().len(),
            r matches Err(e) ==> final(self).rows() == old(self).rows() && e is StorageError,
            now > i64::MAX as u64 ==> r is Err,
    {
        if now > (i64::MAX as u64) {
            return Err(CacheError::StorageError("timestamp out of range".to_owned()));
        }
        match self.db_delete_expired(now) {
            Ok(n) => Ok(n),
            Err(m) => Err(CacheError::StorageError(m)),
        }
    }

    /// Returns the snapshot stored for `code`, or `None` when no row
    /// matches. Does not filter by expiry: cleanup is the callers'
    /// separate, prerequisite step, so a lookup without a prior cleanup
    /// may return a stale snapshot.
    pub fn get(&self, code: &str) -> (r: Result<Option<ApiResponse>, CacheError>)
        ensures
            match r {
                Ok(Some(s)) => (exists|e: u64, d: Seq<char>|
                    self.rows().contains((code@, e, d)) && snap_of_chars(d) == Some(s.model()))
                    && s.model().shaped(),
                Ok(None) => forall|e: u64, d: Seq<char>| !self.rows().contains((code@, e, d)),
                Err(e) => e is StorageError || e is DeserializeError,
            },
    {
        match self.db_select_data(code) {
            Ok(Some(data)) => match decode_snapshot(data.as_str()) {
                Ok(s) => {
                    proof {
                        let e0 = choose|e: u64| self.rows().contains((code@, e, data@));
                        assert(self.rows().contains((code@, e0, data@)) && snap_of_chars(data@)
                            == Some(s.model()));
                    }
                    Ok(Some(s))
                },
                Err(e) => Err(e),
            },
            Ok(None) => Ok(None),
            Err(m) => Err(CacheError::StorageError(m)),
        }
    }

    /// Serializes the snapshot and appends a new row keyed by its base
    /// code, with its next-update time as the row's expiry.
    pub fn add(&mut self, response: &ApiResponse) -> (r: Result<(), CacheError>)
        ensures
            r is Ok ==> final(self).rows() == old(self).rows().insert(
                (
                    response.base_code@,
                    response.time_next_update_unix,
                    snap_chars(response.model()),
                ),
            ),
            r matches Err(e) ==> final(self).rows() == old(self).rows() && e is StorageError,
            response.time_next_update_unix > i64::MAX as u64 ==> r is Err,
    {
        if response.time_next_update_unix > (i64::MAX as u64) {
            return Err(CacheError::StorageError("expiry out of range".to_owned()));
        }
        let data = encode_snapshot(response);
        match self.db_insert_row(
            response.base_code.as_str(),
            response.time_next_update_unix,
            data.as_str(),
        ) {
            Ok(_) => Ok(()),
            Err(m) => Err(CacheError::StorageError(m)),
        }
    }

    /// Appends one raw row. Payloads need not be well-formed: this is how
    /// stale or corrupt rows, which the resolver must cope with, come to
    /// exist.
    pub fn add_row(&mut self, code: &str, expiry: u64, data: &str) -> (r: Result<(), CacheError>)
        ensures
            r is Ok ==> final(self).rows() == old(self).rows().insert((code@, expiry, data@)),
            r matches Err(e) ==> final(self).rows() == old(self).rows() && e is StorageError,
            expiry > i64::MAX as u64 ==> r is Err,
    {
        if expiry > (i64::MAX as u64) {
            return Err(CacheError::StorageError("expiry out of range".to_owned()));
        }
        match self.db_insert_row(code, expiry, data) {
            Ok(_) => Ok(()),
            Err(m) => Err(CacheError::StorageError(m)),
        }
    }
}

} // verus!
