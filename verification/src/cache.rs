//! The durable cache tier: a namespaced key/value store with per-entry TTL,
//! backed by an embedded database. Every operation degrades to a miss or a
//! no-op when no backend is configured.

use vstd::prelude::*;
use rusqlite::OptionalExtension;
use crate::config::{CacheBackend, CacheSettings};

verus! {

/// Initializes the cache database: creates the entries table, keyed by
/// (namespace, key), and a secondary index over the expiry column.
///
/// Relies on rusqlite's `Connection::open` and `Connection::execute_batch`.
#[verifier::external_body]
fn sqlite_init(path: &String) -> (r: Result<(), String>) {
    let conn = rusqlite::Connection::open(path).map_err(|e| e.to_string())?;
    conn.execute_batch(
        "CREATE TABLE IF NOT EXISTS cache_entries (namespace TEXT NOT NULL, key TEXT NOT NULL, value TEXT NOT NULL, expires_at INTEGER, updated_at INTEGER NOT NULL, PRIMARY KEY (namespace, key)); CREATE INDEX IF NOT EXISTS idx_cache_entries_expires_at ON cache_entries(expires_at);",
    ).map_err(|e| e.to_string())
}

/// Reads one row: the stored value and its optional expiry, if the row
/// exists.
///
/// Relies on rusqlite's `Connection::query_row` with `optional()`.
#[verifier::external_body]
fn sqlite_query_entry(path: &String, namespace: &str, key: &str) -> (r: Result<
    Option<(String, Option<i64>)>,
    String,
>) {
    let conn = rusqlite::Connection::open(path).map_err(|e| e.to_string())?;
    conn.query_row(
        "SELECT value, expires_at FROM cache_entries WHERE namespace = ?1 AND key = ?2",
        (namespace, key),
        |row| Ok((row.get(0)?, row.get(1)?)),
    ).optional().map_err(|e| e.to_string())
}

/// Deletes one row.
///
/// Relies on rusqlite's `Connection::execute`.
#[verifier::external_body]
fn sqlite_delete_entry(path: &String, namespace: &str, key: &str) -> (r: Result<(), String>) {
    let conn = rusqlite::Connection::open(path).map_err(|e| e.to_string())?;
    conn.execute(
        "DELETE FROM cache_entries WHERE namespace = ?1 AND key = ?2",
        (namespace, key),
    ).map(|_| ()).map_err(|e| e.to_string())
}

/// Upserts one row with the given value, expiry and update time.
///
/// Relies on rusqlite's `Connection::execute` with an upsert statement.
#[verifier::external_body]
fn sqlite_upsert_entry(
    path: &String,
    namespace: &str,
    key: &str,
    value: &str,
    expires_at: Option<i64>,
    now: i64,
) -> (r: Result<(), String>) {
    let conn = rusqlite::Connection::open(path).map_err(|e| e.to_string())?;
    conn.execute(
        "INSERT INTO cache_entries (namespace, key, value, expires_at, updated_at) VALUES (?1, ?2, ?3, ?4, ?5) ON CONFLICT(namespace, key) DO UPDATE SET value = excluded.value, expires_at = excluded.expires_at, updated_at = excluded.updated_at",
        (namespace, key, value, expires_at, now),
    ).map(|_| ()).map_err(|e| e.to_string())
}

/// Deletes every row whose expiry has passed.
///
/// Relies on rusqlite's `Connection::execute`.
#[verifier::external_body]
fn sqlite_sweep_expired(path: &String, now: i64) -> (r: Result<(), String>) {
    let conn = rusqlite::Connection::open(path).map_err(|e| e.to_string())?;
    conn.execute(
        "DELETE FROM cache_entries WHERE expires_at IS NOT NULL AND expires_at <= ?1",
        (now,),
    ).map(|_| ()).map_err(|e| e.to_string())
}

/// Whether a stored entry is still live at the given instant: entries
/// without an expiry never expire; the others expire the moment their
/// expiry is reached.
pub open spec fn entry_live_spec(expires_at: Option<i64>, now: i64) -> bool {
    match expires_at {
        Option::Some(e) => e > now,
        Option::None => true,
    }
}

/// Decides whether a stored entry is still live.
pub fn entry_live(expires_at: Option<i64>, now: i64) -> (r: bool)
    ensures
        r == entry_live_spec(expires_at, now),
{
    match expires_at {
        Option::Some(e) => e > now,
        Option::None => true,
    }
}

/// The absolute expiry instant of a fresh entry: now plus the lifetime,
/// saturating at the integer limit; no instant when no lifetime is given.
pub open spec fn cache_expiry_spec(now: i64, ttl_seconds: Option<u64>) -> Option<i64> {
    match ttl_seconds {
        Option::Some(ttl) => {
            if now + ttl <= i64::MAX {
                Some((now + ttl) as i64)
            } else {
                Some(i64::MAX)
            }
        },
        Option::None => None,
    }
}

/// Computes the absolute expiry of a fresh entry.
pub fn cache_expiry(now: i64, ttl_seconds: Option<u64>) -> (r: Option<i64>)
    ensures
        r == cache_expiry_spec(now, ttl_seconds),
{
    match ttl_seconds {
        Option::Some(ttl) => {
            let sum: i128 = now as i128 + ttl as i128;
            if sum > i64::MAX as i128 {
                Some(i64::MAX)
            } else {
                Some(sum as i64)
            }
        },
        Option::None => None,
    }
}

/// The durable cache tier. Holds the database path when a backend is
/// configured; all operations on a disabled service are no-ops.
#[derive(Clone, Debug)]
pub struct CacheService {
    pub sqlite_path: Option<String>,
}

impl CacheService {
    /// Whether a durable backend is configured.
    pub open spec fn enabled_spec(&self) -> bool {
        self.sqlite_path is Some
    }

    /// A disabled service: every read misses, every write is a no-op.
    pub fn disabled() -> (r: Self)
        ensures
            !r.enabled_spec(),
    {
        CacheService { sqlite_path: None }
    }

    /// Builds the service from settings: disabled without a backend, and
    /// otherwise initialized against the configured database.
    pub fn from_settings(settings: &CacheSettings) -> (r: Result<Self, String>)
        ensures
            settings.backend == CacheBackend::Disabled ==> (r matches Ok(c) && !c.enabled_spec()),
            settings.backend == CacheBackend::Sqlite ==> (r matches Ok(c) ==> c.enabled_spec()),
    {
        match settings.backend {
            CacheBackend::Disabled => Ok(CacheService { sqlite_path: None }),
            CacheBackend::Sqlite => {
                let path = settings.sqlite_path.clone();
                match sqlite_init(&path) {
                    Ok(()) => Ok(CacheService { sqlite_path: Some(path) }),
                    Err(e) => Err(e),
                }
            },
        }
    }

    /// Whether a durable backend is configured.
    pub fn is_enabled(&self) -> (r: bool)
        ensures
            r == self.enabled_spec(),
    {
        self.sqlite_path.is_some()
    }

    /// Reads the serialized value stored under (namespace, key): a miss when
    /// the service is disabled, the row is absent, or the row has expired —
    /// an expired row is deleted as a side effect.
    pub fn get_json(&self, namespace: &str, key: &str, now: i64) -> (r: Result<
        Option<String>,
        String,
    >)
        ensures
            !self.enabled_spec() ==> (r matches Ok(v) && v is None),
            r matches Ok(v) && v is Some ==> self.enabled_spec(),
    {
        let path = match &self.sqlite_path {
            Option::Some(p) => p,
            Option::None => {
                return Ok(None);
            },
        };
        let row = match sqlite_query_entry(path, namespace, key) {
            Ok(row) => row,
            Err(e) => {
                return Err(e);
            },
        };
        match row {
            Option::Some((value, expires_at)) => {
                if entry_live(expires_at, now) {
                    Ok(Some(value))
                } else {
                    match sqlite_delete_entry(path, namespace, key) {
                        Ok(()) => Ok(None),
                        Err(e) => Err(e),
                    }
                }
            },
            Option::None => Ok(None),
        }
    }

    /// Upserts the serialized value under (namespace, key) with the given
    /// lifetime, then sweeps every globally expired row; a no-op when the
    /// service is disabled.
    pub fn set_json(
        &self,
        namespace: &str,
        key: &str,
        value: &str,
        ttl_seconds: Option<u64>,
        now: i64,
    ) -> (r: Result<(), String>)
        ensures
            !self.enabled_spec() ==> r is Ok,
    {
        let path = match &self.sqlite_path {
            Option::Some(p) => p,
            Option::None => {
                return Ok(());
            },
        };
        let expires_at = cache_expiry(now, ttl_seconds);
        match sqlite_upsert_entry(path, namespace, key, value, expires_at, now) {
            Ok(()) => sqlite_sweep_expired(path, now),
            Err(e) => Err(e),
        }
    }
}

} // verus!
