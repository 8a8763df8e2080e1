//! The connection to SQLite: the calls that are made on it, and how it is set up
//! before the first request.
use rusqlite::{Connection, OptionalExtension};
use vstd::prelude::*;

use crate::config::GatewayConfig;
use crate::error::Error;
use crate::params;
use crate::params::{SqlValue, SqlView};
use crate::script;

verus! {

#[verifier::external_type_specification]
#[verifier::external_body]
pub struct ExConnection(rusqlite::Connection);

/// A call on a connection, with what was asked and what came back. An error is
/// kept as its text.
pub enum Call {
    /// Statements without parameters were run.
    Batch { sql: Seq<char>, outcome: Result<(), Seq<char>> },
    /// A statement was prepared, bound and executed.
    Execute { sql: Seq<char>, params: Seq<SqlView>, outcome: Result<(), Seq<char>> },
    /// The first row for a key was read: a text and an optional text.
    Lookup {
        sql: Seq<char>,
        key: Seq<char>,
        found: Result<Option<(Seq<char>, Option<Seq<char>>)>, Seq<char>>,
    },
    /// The row identifier of the last insert was read.
    RowId { id: i64 },
    /// It was asked whether no transaction is open.
    Autocommit { on: bool },
    /// A setting was changed to a text.
    PragmaText { name: Seq<char>, value: Seq<char>, outcome: Result<(), Seq<char>> },
    /// A setting was changed to a text, and the value that then held was read.
    PragmaTextChecked { name: Seq<char>, value: Seq<char>, outcome: Result<(), Seq<char>> },
    /// A setting was changed to a number.
    PragmaInt { name: Seq<char>, number: i64, outcome: Result<(), Seq<char>> },
    /// The time that SQLite waits for a lock was set.
    BusyTimeout { millis: u64, outcome: Result<(), Seq<char>> },
}

/// The calls that were made on a connection through this module, in order.
pub uninterp spec fn history(conn: Connection) -> Seq<Call>;

/// The result of a call, with its error as a sequence of characters.
pub open spec fn outcome_view<T>(r: Result<T, String>) -> Result<T, Seq<char>> {
    match r {
        Ok(x) => Ok(x),
        Err(e) => Err(e@),
    }
}

/// A row that was looked up, as mathematical values.
pub open spec fn row_view(row: Option<(String, Option<String>)>) -> Option<
    (Seq<char>, Option<Seq<char>>),
> {
    match row {
        Some((a, Some(b))) => Some((a@, Some(b@))),
        Some((a, None)) => Some((a@, None)),
        None => None,
    }
}

/// The result of a lookup, as mathematical values.
pub open spec fn lookup_view(r: Result<Option<(String, Option<String>)>, String>) -> Result<
    Option<(Seq<char>, Option<Seq<char>>)>,
    Seq<char>,
> {
    match r {
        Ok(row) => Ok(row_view(row)),
        Err(e) => Err(e@),
    }
}

/// `Connection::execute_batch`. The call and its outcome are added to the
/// history; what the statements do to the database is not described here.
#[verifier::external_body]
pub(crate) fn execute_batch(conn: &mut Connection, sql: &str) -> (r: Result<(), String>)
    ensures
        history(*final(conn)) == history(*old(conn)).push(
            (Call::Batch { sql: sql@, outcome: outcome_view(r) }),
        ),
{
    conn.execute_batch(sql).map_err(|e| e.to_string())
}

/// `Connection::prepare_cached` and `Statement::execute`, with the values bound
/// by position; `Number::as_f64` has a value for every number. The call and its
/// outcome are added to the history.
#[verifier::external_body]
pub(crate) fn execute(conn: &mut Connection, sql: &str, params: &Vec<SqlValue>) -> (r: Result<
    (),
    String,
>)
    ensures
        history(*final(conn)) == history(*old(conn)).push(
            (Call::Execute { sql: sql@, params: params::sql_values(params@), outcome: outcome_view(r) }),
        ),
{
    let bound = params.iter().map(|v| match v {
        SqlValue::Null => rusqlite::types::Value::Null,
        SqlValue::Integer(i) => rusqlite::types::Value::Integer(*i),
        SqlValue::Real(n) => rusqlite::types::Value::from(n.as_f64()),
        SqlValue::Text(s) => rusqlite::types::Value::Text(s.clone()),
        SqlValue::Blob(b) => rusqlite::types::Value::Blob(b.clone()),
    });
    let mut done = conn.prepare_cached(sql).map_err(|e| e.to_string())?;
    done.execute(rusqlite::params_from_iter(bound)).map(|_| ()).map_err(|e| e.to_string())
}

/// `Connection::prepare_cached` and `Statement::query_row`, for the first two
/// columns of the first row, or `None` where there is no row. The call and its
/// outcome are added to the history.
#[verifier::external_body]
pub(crate) fn lookup(conn: &mut Connection, sql: &str, key: &str) -> (r: Result<
    Option<(String, Option<String>)>,
    String,
>)
    ensures
        history(*final(conn)) == history(*old(conn)).push(
            (Call::Lookup { sql: sql@, key: key@, found: lookup_view(r) }),
        ),
{
    conn.prepare_cached(sql)
        .and_then(|mut stmt| stmt.query_row([key], |row| Ok((row.get(0)?, row.get(1)?))))
        .optional()
        .map_err(|e| e.to_string())
}

/// `Connection::last_insert_rowid`. The call and its value are added to the
/// history.
#[verifier::external_body]
pub(crate) fn last_insert_rowid(conn: &mut Connection) -> (r: i64)
    ensures
        history(*final(conn)) == history(*old(conn)).push((Call::RowId { id: r })),
{
    conn.last_insert_rowid()
}

/// `Connection::is_autocommit`. The call and its value are added to the history.
#[verifier::external_body]
pub(crate) fn is_autocommit(conn: &mut Connection) -> (r: bool)
    ensures
        history(*final(conn)) == history(*old(conn)).push((Call::Autocommit { on: r })),
{
    conn.is_autocommit()
}

/// `Connection::pragma_update` with a text. The call and its outcome are added
/// to the history.
#[verifier::external_body]
fn pragma_text(conn: &mut Connection, name: &str, value: &str) -> (r: Result<(), String>)
    ensures
        history(*final(conn)) == history(*old(conn)).push(
            (Call::PragmaText { name: name@, value: value@, outcome: outcome_view(r) }),
        ),
{
    conn.pragma_update(None, name, value).map_err(|e| e.to_string())
}

/// `Connection::pragma_update_and_check` with a text. The value that SQLite
/// reports back has to be a text, and is dropped. The call and its outcome are
/// added to the history.
#[verifier::external_body]
fn pragma_text_checked(conn: &mut Connection, name: &str, value: &str) -> (r: Result<(), String>)
    ensures
        history(*final(conn)) == history(*old(conn)).push(
            (Call::PragmaTextChecked { name: name@, value: value@, outcome: outcome_view(r) }),
        ),
{
    conn.pragma_update_and_check(None, name, value, |row| row.get::<_, String>(0))
        .map(|_| ())
        .map_err(|e| e.to_string())
}

/// `Connection::pragma_update` with a number. The call and its outcome are added
/// to the history.
#[verifier::external_body]
fn pragma_int(conn: &mut Connection, name: &str, number: i64) -> (r: Result<(), String>)
    ensures
        history(*final(conn)) == history(*old(conn)).push(
            (Call::PragmaInt { name: name@, number, outcome: outcome_view(r) }),
        ),
{
    conn.pragma_update(None, name, number).map_err(|e| e.to_string())
}

/// `Connection::busy_timeout`, which panics on a time beyond `i32::MAX`
/// milliseconds. The call and its outcome are added to the history.
#[verifier::external_body]
fn busy_timeout(conn: &mut Connection, millis: u64) -> (r: Result<(), String>)
    requires
        millis <= i32::MAX,
    ensures
        history(*final(conn)) == history(*old(conn)).push(
            (Call::BusyTimeout { millis, outcome: outcome_view(r) }),
        ),
{
    conn.busy_timeout(std::time::Duration::from_millis(millis)).map_err(|e| e.to_string())
}

/// The outcome of a call that succeeded.
pub open spec fn done() -> Result<(), Seq<char>> {
    Ok(())
}

/// The outcome of a call that failed.
pub open spec fn broken(e: Seq<char>) -> Result<(), Seq<char>> {
    Err(e)
}

/// Whether `after` continues the history `before`.
pub open spec fn grew(before: Seq<Call>, after: Seq<Call>) -> bool {
    before.is_prefix_of(after)
}

/// The calls that `after` has beyond `before`.
pub open spec fn made(before: Seq<Call>, after: Seq<Call>) -> Seq<Call> {
    after.skip(before.len() as int)
}

/// A history grows by one call.
pub(crate) proof fn made_one(before: Seq<Call>, call: Call)
    ensures
        grew(before, before.push(call)),
        made(before, before.push(call)) == seq![call],
{
    assert(made(before, before.push(call)) =~= seq![call]);
    assert(before.push(call).subrange(0, before.len() as int) =~= before);
}

/// Nothing was called.
pub(crate) proof fn made_none(before: Seq<Call>)
    ensures
        grew(before, before),
        made(before, before) == Seq::<Call>::empty(),
{
    assert(made(before, before) =~= Seq::<Call>::empty());
    assert(before.subrange(0, before.len() as int) =~= before);
}

/// What was called in two stretches is what was called in the first, then in
/// the second.
pub(crate) proof fn made_join(a: Seq<Call>, b: Seq<Call>, c: Seq<Call>)
    requires
        grew(a, b),
        grew(b, c),
    ensures
        grew(a, c),
        made(a, c) == made(a, b) + made(b, c),
{
    assert(b =~= a + made(a, b));
    assert(c =~= b + made(b, c));
    assert(made(a, c) =~= made(a, b) + made(b, c));
    assert(c.subrange(0, a.len() as int) =~= a);
}

/// The first of some calls, and the rest.
pub(crate) proof fn front(call: Call, rest: Seq<Call>)
    ensures
        (seq![call] + rest).len() > 0,
        (seq![call] + rest)[0] == call,
        (seq![call] + rest).drop_first() == rest,
{
    assert((seq![call] + rest).drop_first() =~= rest);
}

/// Applies the settings of a connection: journal mode, time to wait for a lock,
/// `synchronous` and foreign keys, in this order. A journal mode that SQLite
/// does not take up, as for a database in memory, is no error.
pub fn apply_pragmas(conn: &mut Connection, config: &GatewayConfig) -> (r: Result<(), Error>)
    requires
        config.busy_timeout_ms <= i32::MAX,
    ensures
        grew(history(*old(conn)), history(*final(conn))),
        ({
            let t = made(history(*old(conn)), history(*final(conn)));
            match r {
                Ok(_) => script::set_pragmas(*config, t) == script::ended(done()),
                Err(e) => e@ is Sqlite && script::set_pragmas(*config, t) == script::ended(
                    broken(e@->Sqlite_0),
                ),
            }
        }),
{
    let ghost h = history(*conn);
    if let Err(e) = pragma_text_checked(conn, "journal_mode", config.journal_mode.as_pragma_value()) {
        proof {
            made_one(h, history(*conn).last());
            assert(made(h, history(*conn)).drop_first() =~= Seq::<Call>::empty());
        }
        return Err(Error::Sqlite(e));
    }
    if let Err(e) = busy_timeout(conn, config.busy_timeout_ms) {
        assert(made(h, history(*conn)).drop_first().drop_first() =~= Seq::<Call>::empty());
        return Err(Error::Sqlite(e));
    }
    if let Err(e) = pragma_text(conn, "synchronous", config.synchronous.as_pragma_value()) {
        assert(made(h, history(*conn)).drop_first().drop_first().drop_first() =~= Seq::<
            Call,
        >::empty());
        return Err(Error::Sqlite(e));
    }
    let on: i64 = if config.foreign_keys {
        1
    } else {
        0
    };
    let last = pragma_int(conn, "foreign_keys", on);
    assert(made(h, history(*conn)).drop_first().drop_first().drop_first().drop_first() =~= Seq::<
        Call,
    >::empty());
    match last {
        Ok(_) => Ok(()),
        Err(e) => Err(Error::Sqlite(e)),
    }
}

/// Creates the gateway's own tables where they do not exist yet: that of the
/// commits if commits are tracked, and that of the recorded responses if
/// idempotency keys are looked at.
pub fn run_migrations(conn: &mut Connection, track_commits: bool, idempotency: bool) -> (r: Result<
    (),
    Error,
>)
    ensures
        grew(history(*old(conn)), history(*final(conn))),
        ({
            let t = made(history(*old(conn)), history(*final(conn)));
            match r {
                Ok(_) => script::create_tables(track_commits, idempotency, t) == script::ended(done()),
                Err(e) => e@ is Migration && script::create_tables(track_commits, idempotency, t)
                    == script::ended(broken(e@->Migration_0)),
            }
        }),
{
    let ghost h = history(*conn);
    proof {
        made_none(h);
    }
    if track_commits {
        let created = execute_batch(
            conn,
            "CREATE TABLE IF NOT EXISTS squeuelite_commits (
                seq          INTEGER PRIMARY KEY AUTOINCREMENT,
                request_id   TEXT NOT NULL,
                actor_id     TEXT NOT NULL,
                run_id       TEXT,
                committed_at TEXT NOT NULL DEFAULT CURRENT_TIMESTAMP
            );",
        );
        assert(made(h, history(*conn)).drop_first() =~= Seq::<Call>::empty());
        if let Err(e) = created {
            return Err(Error::Migration(e));
        }
    }
    if idempotency {
        let created = execute_batch(
            conn,
            "CREATE TABLE IF NOT EXISTS squeuelite_requests (
                idempotency_key TEXT PRIMARY KEY,
                request_hash    TEXT NOT NULL,
                status          TEXT NOT NULL,
                response_json   TEXT,
                commit_seq      INTEGER,
                created_at      TEXT NOT NULL DEFAULT CURRENT_TIMESTAMP,
                updated_at      TEXT NOT NULL DEFAULT CURRENT_TIMESTAMP
            );",
        );
        let ghost t = made(h, history(*conn));
        assert(if track_commits {
            t.drop_first().drop_first() =~= Seq::<Call>::empty()
        } else {
            t.drop_first() =~= Seq::<Call>::empty()
        });
        if let Err(e) = created {
            return Err(Error::Migration(e));
        }
    }
    Ok(())
}

} // verus!
