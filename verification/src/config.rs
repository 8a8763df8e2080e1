//! How a gateway is configured.
use std::path::PathBuf;

use vstd::prelude::*;

verus! {

#[verifier::external_type_specification]
#[verifier::external_body]
pub struct ExPathBuf(std::path::PathBuf);

/// The path that a text stands for.
pub uninterp spec fn path_of(s: Seq<char>) -> PathBuf;

/// `PathBuf::new`: the empty path, which is also the path of the empty text.
pub assume_specification[ std::path::PathBuf::new ]() -> (r: PathBuf)
    ensures
        r == path_of(""@),
;

/// `PathBuf::clone` gives an equal path.
pub assume_specification[ <std::path::PathBuf as Clone>::clone ](p: &PathBuf) -> (r: PathBuf)
    ensures
        r == *p,
;

/// `PathBuf::from` on a text.
#[verifier::external_body]
pub(crate) fn path_from(s: &str) -> (r: PathBuf)
    ensures
        r == path_of(s@),
{
    PathBuf::from(s)
}

/// SQLite's journal mode.
#[derive(Debug, Clone, Copy, PartialEq, Eq, Structural)]
pub enum JournalMode {
    /// Write-ahead log: readers and the writer do not block each other.
    Wal,
    /// Rollback journal, for file systems that cannot hold a write-ahead log.
    Delete,
}

impl JournalMode {
    /// The value for `PRAGMA journal_mode`.
    pub open spec fn pragma_value(self) -> Seq<char> {
        match self {
            JournalMode::Wal => "WAL"@,
            JournalMode::Delete => "DELETE"@,
        }
    }

    /// The value for `PRAGMA journal_mode`.
    pub fn as_pragma_value(self) -> (r: &'static str)
        ensures
            r@ == self.pragma_value(),
    {
        match self {
            JournalMode::Wal => "WAL",
            JournalMode::Delete => "DELETE",
        }
    }
}

/// SQLite's `synchronous` setting.
#[derive(Debug, Clone, Copy, PartialEq, Eq, Structural)]
pub enum SyncMode {
    /// Fast, and safe for most loads.
    Normal,
    /// Stronger durability, less throughput.
    Full,
}

impl SyncMode {
    /// The value for `PRAGMA synchronous`.
    pub open spec fn pragma_value(self) -> Seq<char> {
        match self {
            SyncMode::Normal => "NORMAL"@,
            SyncMode::Full => "FULL"@,
        }
    }

    /// The value for `PRAGMA synchronous`.
    pub fn as_pragma_value(self) -> (r: &'static str)
        ensures
            r@ == self.pragma_value(),
    {
        match self {
            SyncMode::Normal => "NORMAL",
            SyncMode::Full => "FULL",
        }
    }
}

/// What happens to a request that finds the queue full.
#[derive(Debug, Clone, Copy, PartialEq, Eq, Structural)]
pub enum OverflowPolicy {
    /// It waits until there is room.
    Wait,
    /// It is turned away at once.
    Reject,
    /// It waits for a time, and is turned away when that has passed.
    WaitTimeout {
        /// How long it waits, in milliseconds.
        millis: u64,
    },
}

/// How requests are committed together.
#[derive(Debug, Clone, Copy, PartialEq, Eq, Structural)]
pub struct BatchConfig {
    /// The most requests that one transaction holds.
    pub max_size: usize,
    /// The delay aimed at before a smaller batch is committed. The writer takes
    /// what is queued without waiting, so this is not enforced.
    pub max_delay_micros: u64,
}

impl Default for BatchConfig {
    fn default() -> (r: Self)
        ensures
            r == (BatchConfig { max_size: 64, max_delay_micros: 500 }),
    {
        Self { max_size: 64, max_delay_micros: 500 }
    }
}

/// Configuration of a gateway.
#[derive(Debug)]
pub struct GatewayConfig {
    /// The database file. `":memory:"` is a database in memory.
    pub db_path: PathBuf,
    /// The journal mode.
    pub journal_mode: JournalMode,
    /// The `synchronous` setting.
    pub synchronous: SyncMode,
    /// How many requests the queue before the writer holds.
    pub queue_capacity: usize,
    /// Whether each commit is recorded and numbered.
    pub track_commits: bool,
    /// How long SQLite waits for a lock, in milliseconds.
    pub busy_timeout_ms: u64,
    /// Whether foreign keys are enforced.
    pub foreign_keys: bool,
    /// Whether requests are told apart by their idempotency keys.
    pub idempotency: bool,
    /// Whether requests may hold SQL text at all.
    pub allow_raw_sql: bool,
    /// Whether `CREATE`, `ALTER`, `DROP` and `TRUNCATE` are allowed.
    pub allow_schema_write: bool,
    /// Whether `DELETE` is allowed.
    pub allow_delete: bool,
    /// Whether `DROP` is allowed. It needs `allow_schema_write` too.
    pub allow_drop: bool,
    /// What happens to a request that finds the queue full.
    pub overflow: OverflowPolicy,
    /// How requests are committed together, if they are.
    pub batch: Option<BatchConfig>,
}

/// The configuration for a database, with every other setting at its default.
pub open spec fn default_config(db_path: PathBuf) -> GatewayConfig {
    GatewayConfig {
        db_path,
        journal_mode: JournalMode::Wal,
        synchronous: SyncMode::Normal,
        queue_capacity: 1024,
        track_commits: true,
        busy_timeout_ms: 5000,
        foreign_keys: true,
        idempotency: true,
        allow_raw_sql: true,
        allow_schema_write: false,
        allow_delete: true,
        allow_drop: false,
        overflow: OverflowPolicy::WaitTimeout { millis: 5000 },
        batch: None,
    }
}

impl GatewayConfig {
    /// The configuration for a database, with every other setting at its
    /// default.
    pub fn new<P: Into<PathBuf>>(db_path: P) -> (r: Self)
        ensures
            call_ensures(P::into, (db_path,), r.db_path),
            r == default_config(r.db_path),
    {
        Self { db_path: db_path.into(), ..Self::default() }
    }
}

impl Default for GatewayConfig {
    /// The default settings, with the empty path for the database.
    fn default() -> (r: Self)
        ensures
            r == default_config(path_of(""@)),
    {
        Self {
            db_path: PathBuf::new(),
            journal_mode: JournalMode::Wal,
            synchronous: SyncMode::Normal,
            queue_capacity: 1024,
            track_commits: true,
            busy_timeout_ms: 5000,
            foreign_keys: true,
            idempotency: true,
            allow_raw_sql: true,
            allow_schema_write: false,
            allow_delete: true,
            allow_drop: false,
            overflow: OverflowPolicy::WaitTimeout { millis: 5000 },
            batch: None,
        }
    }
}

impl Clone for GatewayConfig {
    fn clone(&self) -> (r: Self)
        ensures
            r == *self,
    {
        Self {
            db_path: self.db_path.clone(),
            journal_mode: self.journal_mode,
            synchronous: self.synchronous,
            queue_capacity: self.queue_capacity,
            track_commits: self.track_commits,
            busy_timeout_ms: self.busy_timeout_ms,
            foreign_keys: self.foreign_keys,
            idempotency: self.idempotency,
            allow_raw_sql: self.allow_raw_sql,
            allow_schema_write: self.allow_schema_write,
            allow_delete: self.allow_delete,
            allow_drop: self.allow_drop,
            overflow: self.overflow,
            batch: self.batch,
        }
    }
}

/// Permission bits of the socket file, where nothing else is asked for: reading
/// and writing for the owner.
pub const DEFAULT_SOCKET_MODE: u32 = 0o600;

/// Configuration of a gateway that listens on a Unix domain socket.
#[derive(Debug)]
pub struct SidecarConfig {
    /// Configuration of the writer.
    pub gateway: GatewayConfig,
    /// Path of the socket.
    pub socket_path: PathBuf,
    /// Permission bits of the socket file.
    pub socket_mode: u32,
}

impl SidecarConfig {
    /// The configuration for a database and a socket, with every other setting
    /// at its default.
    pub fn new<P: Into<PathBuf>, Q: Into<PathBuf>>(db_path: P, socket_path: Q) -> (r: Self)
        ensures
            call_ensures(P::into, (db_path,), r.gateway.db_path),
            r.gateway == default_config(r.gateway.db_path),
            call_ensures(Q::into, (socket_path,), r.socket_path),
            r.socket_mode == DEFAULT_SOCKET_MODE,
    {
        Self {
            gateway: GatewayConfig::new(db_path),
            socket_path: socket_path.into(),
            socket_mode: DEFAULT_SOCKET_MODE,
        }
    }
}

impl Clone for SidecarConfig {
    fn clone(&self) -> (r: Self)
        ensures
            r == *self,
    {
        Self {
            gateway: self.gateway.clone(),
            socket_path: self.socket_path.clone(),
            socket_mode: self.socket_mode,
        }
    }
}

} // verus!
