//! What the writer says to SQLite, word for word, and what it makes of the answers.
use vstd::prelude::*;

use crate::config::{GatewayConfig, JournalMode, SyncMode};
use crate::error;
use crate::error::{Error, ErrorView};
use crate::json;
use crate::ledger;
use crate::ledger::Ledger;
use crate::params;
use crate::params::SqlView;
use crate::request;
use crate::request::{OperationView, RequestView, ResponseView, WriteStatus};
use crate::script;
use crate::script::{BatchRun, MemberRun, Standing};
use crate::sql;
use crate::store::Call;
use crate::text;
use crate::writer;
use crate::writer::Writer;

verus! {

/// A call that did not fail, or that cannot.
pub open spec fn succeeded(c: Call) -> bool {
    match c {
        Call::Batch { outcome, .. } => outcome is Ok,
        Call::Execute { outcome, .. } => outcome is Ok,
        Call::Lookup { found, .. } => found is Ok,
        Call::PragmaText { outcome, .. } => outcome is Ok,
        Call::PragmaTextChecked { outcome, .. } => outcome is Ok,
        Call::PragmaInt { outcome, .. } => outcome is Ok,
        Call::BusyTimeout { outcome, .. } => outcome is Ok,
        Call::RowId { .. } => true,
        Call::Autocommit { .. } => true,
    }
}

/// The call `c`, had it failed with the text `e`.
pub open spec fn failing(c: Call, e: Seq<char>) -> Call {
    match c {
        Call::Batch { sql, .. } => Call::Batch { sql, outcome: Err(e) },
        Call::PragmaText { name, value, .. } => Call::PragmaText { name, value, outcome: Err(e) },
        Call::PragmaTextChecked { name, value, .. } => Call::PragmaTextChecked {
            name,
            value,
            outcome: Err(e),
        },
        Call::PragmaInt { name, number, .. } => Call::PragmaInt { name, number, outcome: Err(e) },
        Call::BusyTimeout { millis, .. } => Call::BusyTimeout { millis, outcome: Err(e) },
        other => other,
    }
}

/// The calls that set a new connection up, each of them successful: the journal mode,
/// the time to wait for a lock, the level of synchronisation, foreign keys, and the
/// tables that are wanted. The table of commits takes any request, actor and run, as
/// often as they come; that of responses has one row for a key.
pub open spec fn calls_of_a_set_up(config: GatewayConfig) -> Seq<Call> {
    let settings = seq![
        Call::PragmaTextChecked {
            name: "journal_mode"@,
            value: match config.journal_mode {
                JournalMode::Wal => "WAL"@,
                JournalMode::Delete => "DELETE"@,
            },
            outcome: Ok(()),
        },
        Call::BusyTimeout { millis: config.busy_timeout_ms, outcome: Ok(()) },
        Call::PragmaText {
            name: "synchronous"@,
            value: match config.synchronous {
                SyncMode::Normal => "NORMAL"@,
                SyncMode::Full => "FULL"@,
            },
            outcome: Ok(()),
        },
        Call::PragmaInt {
            name: "foreign_keys"@,
            number: if config.foreign_keys {
                1
            } else {
                0
            },
            outcome: Ok(()),
        },
    ];
    let commits = Call::Batch {
        sql: "CREATE TABLE IF NOT EXISTS squeuelite_commits (
                seq          INTEGER PRIMARY KEY AUTOINCREMENT,
                request_id   TEXT NOT NULL,
                actor_id     TEXT NOT NULL,
                run_id       TEXT,
                committed_at TEXT NOT NULL DEFAULT CURRENT_TIMESTAMP
            );"@,
        outcome: Ok(()),
    };
    let requests = Call::Batch {
        sql: "CREATE TABLE IF NOT EXISTS squeuelite_requests (
                idempotency_key TEXT PRIMARY KEY,
                request_hash    TEXT NOT NULL,
                status          TEXT NOT NULL,
                response_json   TEXT,
                commit_seq      INTEGER,
                created_at      TEXT NOT NULL DEFAULT CURRENT_TIMESTAMP,
                updated_at      TEXT NOT NULL DEFAULT CURRENT_TIMESTAMP
            );"@,
        outcome: Ok(()),
    };
    match (config.track_commits, config.idempotency) {
        (true, true) => settings.push(commits).push(requests),
        (true, false) => settings.push(commits),
        (false, true) => settings.push(requests),
        (false, false) => settings,
    }
}

/// A new connection is set up by these calls and no others. Setting up ends with the
/// first call that fails, and the error tells a setting from a table.
#[verifier::rlimit(40)]
pub proof fn connections_are_set_up_so(
    config: GatewayConfig,
    t: Seq<Call>,
    result: Result<(), ErrorView>,
)
    requires
        script::set_up(config, t) == script::ended(result),
    ensures
        match result {
            Ok(_) => t == calls_of_a_set_up(config),
            Err(e) => {
                let n = t.len() - 1;
                &&& 0 <= n < calls_of_a_set_up(config).len()
                &&& forall|i: int|
                    0 <= i < n ==> t[i] == #[trigger] calls_of_a_set_up(config)[i]
                &&& exists|x: Seq<char>|
                    {
                        &&& t[n] == #[trigger] failing(calls_of_a_set_up(config)[n], x)
                        &&& n < 4 ==> e == ErrorView::Sqlite(x)
                        &&& n >= 4 ==> e == ErrorView::Migration(x)
                    }
            },
        },
{
    let all = calls_of_a_set_up(config);
    calls_dropped(t);
    success(t[0]);
    success(t[1]);
    success(t[2]);
    success(t[3]);
    success(t[4]);
    success(t[5]);
    let (applied, t4) = script::set_pragmas(config, t)->0;
    let t1 = t.drop_first();
    let t2 = t1.drop_first();
    let t3 = t2.drop_first();
    if applied is Ok {
        assert(t4 == t3.drop_first());
        assert(t[0] == all[0]);
        assert(t[1] == all[1]);
        assert(t[2] == all[2]);
        assert(t[3] == all[3]);
        let (created, left) = script::create_tables(
            config.track_commits,
            config.idempotency,
            t4,
        )->0;
        assert(left.len() == 0);
        if config.track_commits {
            assert(t4[0] == t[4]);
            assert(t4[0]->Batch_sql == all[4]->Batch_sql);
            if t4[0]->Batch_outcome is Ok && config.idempotency {
                assert(t4.drop_first()[0] == t[5]);
                assert(t[5]->Batch_sql == all[5]->Batch_sql);
                assert(t4.drop_first().drop_first().len() == 0);
                assert(t.len() == 6 && all.len() == 6);
            } else {
                assert(t4.drop_first().len() == 0);
                assert(t.len() == 5);
            }
        } else if config.idempotency {
            assert(t4[0] == t[4]);
            assert(t4[0]->Batch_sql == all[4]->Batch_sql);
            assert(t4.drop_first().len() == 0);
            assert(t.len() == 5 && all.len() == 5);
        } else {
            assert(t.len() == 4 && all.len() == 4);
        }
    }
    match result {
        Ok(_) => {
            assert(t.len() == all.len());
            assert(t =~= all);
        },
        Err(e) => {
            let x = match e {
                ErrorView::Sqlite(x) => x,
                ErrorView::Migration(x) => x,
                _ => Seq::empty(),
            };
            let n = t.len() - 1;
            assert(t[n] == failing(all[n], x));
        },
    }
}

/// The tables that are wanted are created by their definitions, that of commits first,
/// and nothing else is called; the first that fails is the last.
///
/// A commit has a number of its own, given in order, and the time at which it was made.
/// Its request and its actor have to be there, its run may be missing, and nothing is
/// asked of them beyond that: no value of an earlier commit stands in the way of a later
/// one. A recorded response has its key to itself.
pub proof fn tables_are_created_by_their_definitions(
    track: bool,
    idempotency: bool,
    t: Seq<Call>,
    result: Result<(), Seq<char>>,
)
    requires
        script::create_tables(track, idempotency, t) == script::ended(result),
    ensures
        ({
            let wanted = (if track {
                1int
            } else {
                0
            }) + (if idempotency {
                1int
            } else {
                0
            });
            &&& result is Ok ==> t.len() == wanted
            &&& result is Err ==> 1 <= t.len() <= wanted
        }),
        track ==> t.len() > 0 && (t[0] matches Call::Batch { sql, outcome } && sql
            == "CREATE TABLE IF NOT EXISTS squeuelite_commits (
                seq          INTEGER PRIMARY KEY AUTOINCREMENT,
                request_id   TEXT NOT NULL,
                actor_id     TEXT NOT NULL,
                run_id       TEXT,
                committed_at TEXT NOT NULL DEFAULT CURRENT_TIMESTAMP
            );"@
            && (t.len() == 1 && !idempotency ==> outcome == result) && (t.len() == 2 ==> outcome
            is Ok) && (outcome is Err ==> t.len() == 1 && outcome == result)),
        idempotency && (!track || t.len() == 2) ==> t.len() > 0 && (
        t.last() matches Call::Batch { sql, outcome } && sql
            == "CREATE TABLE IF NOT EXISTS squeuelite_requests (
                idempotency_key TEXT PRIMARY KEY,
                request_hash    TEXT NOT NULL,
                status          TEXT NOT NULL,
                response_json   TEXT,
                commit_seq      INTEGER,
                created_at      TEXT NOT NULL DEFAULT CURRENT_TIMESTAMP,
                updated_at      TEXT NOT NULL DEFAULT CURRENT_TIMESTAMP
            );"@
            && outcome == result),
{
    if t.len() > 0 {
        let u = t.drop_first();
        success(t[0]);
        if u.len() > 0 {
            assert(u[0] == t[1]);
            assert(u.drop_first().len() == 0);
        }
    }
    if let Ok(x) = result {
        assert(x == ());
    }
}

/// The settings of a connection are applied by these calls, in this order, up to the
/// first that fails, whose outcome is the result.
pub proof fn settings_are_applied_by_these_calls(
    config: GatewayConfig,
    t: Seq<Call>,
    result: Result<(), Seq<char>>,
)
    requires
        script::set_pragmas(config, t) == script::ended(result),
    ensures
        1 <= t.len() <= 4,
        result is Ok ==> t.len() == 4,
        t[0] matches Call::PragmaTextChecked { name, value, outcome } && name == "journal_mode"@
            && value == (match config.journal_mode {
            JournalMode::Wal => "WAL"@,
            JournalMode::Delete => "DELETE"@,
        }) && (outcome is Err <==> t.len() == 1) && (t.len() == 1 ==> outcome == result),
        t.len() > 1 ==> (t[1] matches Call::BusyTimeout { millis, outcome } && millis
            == config.busy_timeout_ms && (outcome is Err <==> t.len() == 2) && (t.len() == 2
            ==> outcome == result)),
        t.len() > 2 ==> (t[2] matches Call::PragmaText { name, value, outcome } && name
            == "synchronous"@ && value == (match config.synchronous {
            SyncMode::Normal => "NORMAL"@,
            SyncMode::Full => "FULL"@,
        }) && (outcome is Err <==> t.len() == 3) && (t.len() == 3 ==> outcome == result)),
        t.len() > 3 ==> (t[3] matches Call::PragmaInt { name, number, outcome } && name
            == "foreign_keys"@ && number == (if config.foreign_keys {
            1int
        } else {
            0
        }) && outcome == result),
{
    calls_dropped(t);
    let t1 = t.drop_first();
    let t2 = t1.drop_first();
    let t3 = t2.drop_first();
    assert(t.len() > 1 ==> t1.len() == t.len() - 1);
    assert(t.len() > 2 ==> t2.len() == t.len() - 2);
    assert(t.len() > 3 ==> t3.len() == t.len() - 3 && t3.drop_first().len() == t.len() - 4);
}

/// There is but one way for a call to succeed.
proof fn success(c: Call)
    ensures
        c matches Call::Batch { outcome, .. } ==> (outcome is Ok ==> outcome == Ok::<(), Seq<char>>(
            (),
        )),
        c matches Call::Execute { outcome, .. } ==> (outcome is Ok ==> outcome == Ok::<
            (),
            Seq<char>,
        >(())),
        c matches Call::PragmaText { outcome, .. } ==> (outcome is Ok ==> outcome == Ok::<
            (),
            Seq<char>,
        >(())),
        c matches Call::PragmaTextChecked { outcome, .. } ==> (outcome is Ok ==> outcome == Ok::<
            (),
            Seq<char>,
        >(())),
        c matches Call::PragmaInt { outcome, .. } ==> (outcome is Ok ==> outcome == Ok::<
            (),
            Seq<char>,
        >(())),
        c matches Call::BusyTimeout { outcome, .. } ==> (outcome is Ok ==> outcome == Ok::<
            (),
            Seq<char>,
        >(())),
{
    let outcome = match c {
        Call::Batch { outcome, .. } => outcome,
        Call::Execute { outcome, .. } => outcome,
        Call::PragmaText { outcome, .. } => outcome,
        Call::PragmaTextChecked { outcome, .. } => outcome,
        Call::PragmaInt { outcome, .. } => outcome,
        Call::BusyTimeout { outcome, .. } => outcome,
        _ => Ok(()),
    };
    if let Ok(x) = outcome {
        assert(x == ());
    }
}

/// The calls that are left after the first ones.
proof fn calls_dropped(t: Seq<Call>)
    ensures
        t.len() >= 1 ==> t.drop_first().len() == t.len() - 1,
        t.len() >= 2 ==> t.drop_first()[0] == t[1],
        t.len() >= 3 ==> t.drop_first().drop_first()[0] == t[2],
        t.len() >= 4 ==> t.drop_first().drop_first().drop_first()[0] == t[3],
        t.len() >= 5 ==> t.drop_first().drop_first().drop_first().drop_first()[0] == t[4],
        t.len() >= 6 ==> t.drop_first().drop_first().drop_first().drop_first().drop_first()[0]
            == t[5],
        t.len() >= 6 ==> t.drop_first().drop_first().drop_first().drop_first().drop_first().len()
            == t.len() - 5,
{
}

/// Operations that all succeed are executed in order, each once, with its statement as
/// it is and the values of its parameters.
proof fn operations_are_executed(ops: Seq<OperationView>, t: Seq<Call>, rest: Seq<Call>)
    requires
        script::run_operations(ops, t) == Some((Ok::<(), Seq<char>>(()), rest)),
    ensures
        t.len() == ops.len() + rest.len(),
        rest == t.skip(ops.len() as int),
        forall|i: int|
            0 <= i < ops.len() ==> (#[trigger] t[i]) == (Call::Execute {
                sql: ops[i].sql,
                params: params::sql_values_of(ops[i].params)->Ok_0,
                outcome: Ok(()),
            }) && params::sql_values_of(ops[i].params) is Ok,
    decreases ops.len(),
{
    if ops.len() == 0 {
        assert(rest =~= t.skip(0));
    } else {
        success(t[0]);
        operations_are_executed(ops.drop_first(), t.drop_first(), rest);
        assert forall|i: int| 0 <= i < ops.len() implies (#[trigger] t[i]) == (Call::Execute {
            sql: ops[i].sql,
            params: params::sql_values_of(ops[i].params)->Ok_0,
            outcome: Ok(()),
        }) && params::sql_values_of(ops[i].params) is Ok by {
            if i > 0 {
                assert(t.drop_first()[i - 1] == t[i]);
                assert(ops.drop_first()[i - 1] == ops[i]);
            }
        }
        assert(rest =~= t.skip(ops.len() as int));
    }
}

/// Whether the calls of `t` from `k` on are the work of a request: each operation
/// once, in order; the record of the commit with the request, the actor and the run,
/// and the number that SQLite gave it; and the record of the response under the key
/// and hash.
#[verifier::opaque]
pub open spec fn is_work(
    r: RequestView,
    track: bool,
    record: Option<(Seq<char>, Seq<char>)>,
    commit_seq: Option<i64>,
    t: Seq<Call>,
    k: int,
) -> bool {
    let n = r.operations.len();
    let m = k + n + (if track {
        2int
    } else {
        0
    });
    &&& forall|i: int|
        k <= i < k + n ==> (#[trigger] t[i]) == (Call::Execute {
            sql: r.operations[i - k].sql,
            params: params::sql_values_of(r.operations[i - k].params)->Ok_0,
            outcome: Ok(()),
        }) && params::sql_values_of(r.operations[i - k].params) is Ok
    &&& commit_seq is Some <==> track
    &&& track ==> t[k + n] == (Call::Execute {
        sql: "INSERT INTO squeuelite_commits(request_id, actor_id, run_id) VALUES (?, ?, ?)"@,
        params: seq![
            SqlView::Text(r.request_id),
            SqlView::Text(r.actor_id),
            match r.run_id {
                Some(run) => SqlView::Text(run),
                None => SqlView::Null,
            },
        ],
        outcome: Ok(()),
    })
    &&& track ==> t[k + n + 1] == (Call::RowId { id: commit_seq->0 })
    &&& record matches Some((key, hash)) ==> t[m] == (Call::Execute {
        sql: "INSERT OR IGNORE INTO squeuelite_requests (idempotency_key, request_hash, status, response_json, commit_seq) VALUES (?1, ?2, 'committed', ?3, ?4)"@,
        params: seq![
            SqlView::Text(key),
            SqlView::Text(hash),
            SqlView::Text(
                json::json_text(
                    request::response_json(
                        (ResponseView {
                            request_id: r.request_id,
                            status: WriteStatus::Committed,
                            commit_seq,
                            error: None,
                        }),
                    ),
                ),
            ),
            match commit_seq {
                Some(number) => SqlView::Integer(number),
                None => SqlView::Null,
            },
        ],
        outcome: Ok(()),
    })
}

/// How many calls the work of a request takes.
pub open spec fn work_len(r: RequestView, track: bool, recorded: bool) -> int {
    r.operations.len() + (if track {
        2int
    } else {
        0
    }) + (if recorded {
        1int
    } else {
        0
    })
}

proof fn body_is_work(
    r: RequestView,
    track: bool,
    record: Option<(Seq<char>, Seq<char>)>,
    commit_seq: Option<i64>,
    t: Seq<Call>,
    rest: Seq<Call>,
)
    requires
        script::run_body(r, track, record, t) == Some((Ok::<Option<i64>, Seq<char>>(commit_seq), rest)),
    ensures
        is_work(r, track, record, commit_seq, t, 0),
        t.len() == work_len(r, track, record is Some) + rest.len(),
        rest == t.skip(work_len(r, track, record is Some)),
{
    reveal(is_work);
    let (executed, t1) = script::run_operations(r.operations, t)->0;
    if let Ok(x) = executed {
        assert(x == ());
    }
    operations_are_executed(r.operations, t, t1);
    let n = r.operations.len() as int;
    if track {
        assert(t1[0] == t[n]);
        success(t[n]);
        assert(t1.drop_first()[0] == t[n + 1]);
        assert(script::commit_values(r) =~= seq![
            SqlView::Text(r.request_id),
            SqlView::Text(r.actor_id),
            match r.run_id {
                Some(run) => SqlView::Text(run),
                None => SqlView::Null,
            },
        ]);
    }
    let (_, t2) = script::record_commit(r, track, t1)->0;
    if track {
        assert(t2 =~= t.skip(n + 2));
    }
    if let Some((key, hash)) = record {
        let m = if track {
            n + 2
        } else {
            n
        };
        assert(t2[0] == t[m]);
        success(t[m]);
        assert(script::response_values(key, hash, r.request_id, commit_seq) =~= seq![
            SqlView::Text(key),
            SqlView::Text(hash),
            SqlView::Text(
                json::json_text(
                    request::response_json(
                        (ResponseView {
                            request_id: r.request_id,
                            status: WriteStatus::Committed,
                            commit_seq,
                            error: None,
                        }),
                    ),
                ),
            ),
            match commit_seq {
                Some(number) => SqlView::Integer(number),
                None => SqlView::Null,
            },
        ]);
    }
    assert(rest =~= t.skip(work_len(r, track, record is Some)));
}

/// Calls that stand behind others are the same work.
proof fn work_behind(
    r: RequestView,
    track: bool,
    record: Option<(Seq<char>, Seq<char>)>,
    commit_seq: Option<i64>,
    t: Seq<Call>,
    k: int,
)
    requires
        0 <= k,
        k + work_len(r, track, record is Some) <= t.len(),
        is_work(r, track, record, commit_seq, t.skip(k), 0),
    ensures
        is_work(r, track, record, commit_seq, t, k),
{
    reveal(is_work);
    let u = t.skip(k);
    let n = r.operations.len() as int;
    assert forall|i: int| k <= i < k + n implies (#[trigger] t[i]) == (Call::Execute {
        sql: r.operations[i - k].sql,
        params: params::sql_values_of(r.operations[i - k].params)->Ok_0,
        outcome: Ok(()),
    }) && params::sql_values_of(r.operations[i - k].params) is Ok by {
        assert(u[i - k] == t[i]);
    }
    if track {
        assert(u[n] == t[k + n] && u[n + 1] == t[k + n + 1]);
    }
    if record is Some {
        let m = if track {
            n + 2
        } else {
            n
        };
        assert(u[m] == t[k + m]);
    }
}

/// The key and hash under which the response to a request is recorded.
pub open spec fn recorded_under(r: RequestView, idempotency: bool) -> Option<
    (Seq<char>, Seq<char>),
> {
    match r.idempotency_key {
        Some(key) if idempotency => Some((key, request::request_hash(r.operations))),
        _ => None,
    }
}

/// How many calls look a request up.
pub open spec fn lookups(r: RequestView, idempotency: bool) -> int {
    if idempotency && r.idempotency_key is Some {
        1
    } else {
        0
    }
}

/// The lookup that decides on a request with a key selects by that key alone: of a
/// query for the row whose key equals the one that is bound, and of no other, it is
/// taken that it is answered from what is in effect. Where no record stands under the
/// key the request is executed, and its response will be recorded under the key.
pub proof fn lookup_is_by_the_key(
    r: RequestView,
    config: GatewayConfig,
    key: Seq<char>,
    t: Seq<Call>,
    l: Ledger,
)
    requires
        script::first_refusal(r.operations, config) is None,
        r.idempotency_key == Some(key),
        script::consider(r, config, true, t) is Some,
        t.len() > 0 && (t[0] matches Call::Lookup { sql, key: bound, found } ==> (sql
            == "SELECT request_hash, response_json FROM squeuelite_requests WHERE idempotency_key = ?1"@
            ==> found == Ok::<Option<(Seq<char>, Option<Seq<char>>)>, Seq<char>>(
            ledger::record_under(ledger::in_effect(l), bound),
        ))),
    ensures
        t[0] == (Call::Lookup {
            sql: "SELECT request_hash, response_json FROM squeuelite_requests WHERE idempotency_key = ?1"@,
            key,
            found: Ok(ledger::record_under(ledger::in_effect(l), key)),
        }),
        match ledger::record_under(ledger::in_effect(l), key) {
            None => script::consider(r, config, true, t) == Some(
                (
                    Standing::New(Some((key, request::request_hash(r.operations)))),
                    t.drop_first(),
                ),
            ),
            Some((hash, json)) => script::consider(r, config, true, t) == Some(
                (
                    Standing::Answered(script::recorded_answer(r, key, hash, json)),
                    t.drop_first(),
                ),
            ),
        },
{
}

/// Records under other keys do not count: after any history of them the lookup finds
/// nothing, and the request is executed, alone or in a batch.
pub proof fn records_under_other_keys_do_not_count(
    r: RequestView,
    index: nat,
    config: GatewayConfig,
    track: bool,
    key: Seq<char>,
    t: Seq<Call>,
    l: Ledger,
)
    requires
        script::first_refusal(r.operations, config) is None,
        r.idempotency_key == Some(key),
        script::consider(r, config, true, t) is Some,
        t.len() > 0 && (t[0] matches Call::Lookup { sql, key: bound, found } ==> (sql
            == "SELECT request_hash, response_json FROM squeuelite_requests WHERE idempotency_key = ?1"@
            ==> found == Ok::<Option<(Seq<char>, Option<Seq<char>>)>, Seq<char>>(
            ledger::record_under(ledger::in_effect(l), bound),
        ))),
        forall|i: int|
            0 <= i < ledger::in_effect(l).len() ==> ((#[trigger] ledger::in_effect(l)[i]).sql
                == "INSERT OR IGNORE INTO squeuelite_requests (idempotency_key, request_hash, status, response_json, commit_seq) VALUES (?1, ?2, 'committed', ?3, ?4)"@
                ==> ledger::in_effect(l)[i].params[0] != SqlView::Text(key)),
    ensures
        t[0] == (Call::Lookup {
            sql: "SELECT request_hash, response_json FROM squeuelite_requests WHERE idempotency_key = ?1"@,
            key,
            found: Ok(None),
        }),
        ({
            let record = Some((key, request::request_hash(r.operations)));
            &&& script::run_request(r, config, track, true, t) == script::run_transaction(
                r,
                track,
                record,
                t.drop_first(),
            )
            &&& script::run_member(r, index, config, track, true, t) == script::run_savepoint(
                r,
                index,
                track,
                record,
                t.drop_first(),
            )
        }),
{
    let ss = ledger::in_effect(l);
    assert forall|i: int| 0 <= i < ss.len() implies !ledger::is_record(#[trigger] ss[i], key) by {}
    ledger::no_record_among(ss, key);
    lookup_is_by_the_key(r, config, key, t, l);
}

/// Where keys are not looked at, or a request has none, nothing is looked up and
/// nothing is recorded under a key.
pub proof fn request_without_a_key_is_not_looked_up(
    r: RequestView,
    config: GatewayConfig,
    idempotency: bool,
    t: Seq<Call>,
)
    requires
        script::first_refusal(r.operations, config) is None,
        !idempotency || r.idempotency_key is None,
    ensures
        script::consider(r, config, idempotency, t) == Some((Standing::New(None), t)),
{
}

/// A request is refused if and only if one of its statements is, and the first of these
/// says why.
pub proof fn first_refused_statement_says_why(ops: Seq<OperationView>, config: GatewayConfig)
    ensures
        match script::first_refusal(ops, config) {
            None => forall|i: int|
                0 <= i < ops.len() ==> sql::refusal((#[trigger] ops[i]).sql, config) is None,
            Some(why) => exists|i: int|
                0 <= i < ops.len() && sql::refusal((#[trigger] ops[i]).sql, config) == Some(why)
                    && forall|j: int|
                    0 <= j < i ==> sql::refusal((#[trigger] ops[j]).sql, config) is None,
        },
    decreases ops.len(),
{
    if ops.len() > 0 {
        let rest = ops.drop_first();
        first_refused_statement_says_why(rest, config);
        assert(forall|i: int| 1 <= i < ops.len() ==> ops[i] == #[trigger] rest[i - 1]);
        match sql::refusal(ops[0].sql, config) {
            Some(why) => {
                assert(sql::refusal(ops[0].sql, config) == Some(why));
            },
            None => match script::first_refusal(rest, config) {
                None => {
                    assert forall|i: int| 0 <= i < ops.len() implies sql::refusal(
                        (#[trigger] ops[i]).sql,
                        config,
                    ) is None by {
                        if i > 0 {
                            assert(rest[i - 1] == ops[i]);
                        }
                    }
                },
                Some(why) => {
                    let i = choose|i: int|
                        0 <= i < rest.len() && sql::refusal((#[trigger] rest[i]).sql, config)
                            == Some(why) && forall|j: int|
                            0 <= j < i ==> sql::refusal((#[trigger] rest[j]).sql, config) is None;
                    assert(ops[i + 1] == rest[i]);
                    assert forall|j: int| 0 <= j < i + 1 implies sql::refusal(
                        (#[trigger] ops[j]).sql,
                        config,
                    ) is None by {
                        if j > 0 {
                            assert(rest[j - 1] == ops[j]);
                        }
                    }
                },
            },
        }
    }
}

/// A refused request is answered with its identifier and the reason, without a call.
pub proof fn refused_request_is_told_why(
    r: RequestView,
    config: GatewayConfig,
    idempotency: bool,
    t: Seq<Call>,
    why: Seq<char>,
)
    requires
        script::first_refusal(r.operations, config) == Some(why),
    ensures
        script::consider(r, config, idempotency, t) == Some(
            (
                Standing::Answered(
                    ResponseView {
                        request_id: r.request_id,
                        status: WriteStatus::Failed,
                        commit_seq: None,
                        error: Some("sql rejected: "@ + why),
                    },
                ),
                t,
            ),
        ),
{
}

/// What a request gets whose key is recorded: the very response that was recorded with
/// the same operations; a failure that names the key where the operations are others;
/// and a commit without a number where the record cannot be read.
pub proof fn recorded_key_is_answered_so(
    r: RequestView,
    key: Seq<char>,
    hash: Seq<char>,
    json: Option<Seq<char>>,
)
    ensures
        ({
            let answer = script::recorded_answer(r, key, hash, json);
            let same = hash == request::request_hash(r.operations);
            let read = match json {
                Some(s) => request::stored_response(s),
                None => None,
            };
            &&& same && read is Some ==> answer == read->0
            &&& same && read is None ==> answer == (ResponseView {
                request_id: r.request_id,
                status: WriteStatus::Committed,
                commit_seq: None,
                error: None,
            })
            &&& !same ==> answer == (ResponseView {
                request_id: r.request_id,
                status: WriteStatus::Failed,
                commit_seq: None,
                error: Some(
                    "idempotency conflict: key '"@ + key
                        + "' already used with a different request hash"@,
                ),
            })
        }),
{
}

/// What is answered before a request is executed is its response, alone and in a batch,
/// and nothing more is called for it.
pub proof fn answered_request_is_not_executed(
    r: RequestView,
    index: nat,
    config: GatewayConfig,
    track: bool,
    idempotency: bool,
    t: Seq<Call>,
    response: ResponseView,
    rest: Seq<Call>,
)
    requires
        script::consider(r, config, idempotency, t) == Some((Standing::Answered(response), rest)),
    ensures
        script::run_request(r, config, track, idempotency, t) == Some((response, rest)),
        script::run_member(r, index, config, track, idempotency, t) == Some(
            (MemberRun { response, lost: None }, rest),
        ),
{
}

/// A lookup that fails is not passed over: the request fails with its error.
pub proof fn failed_lookup_fails_the_request(
    r: RequestView,
    config: GatewayConfig,
    key: Seq<char>,
    t: Seq<Call>,
    e: Seq<char>,
)
    requires
        script::first_refusal(r.operations, config) is None,
        r.idempotency_key == Some(key),
        t.len() > 0,
        t[0] == (Call::Lookup {
            sql: "SELECT request_hash, response_json FROM squeuelite_requests WHERE idempotency_key = ?1"@,
            key,
            found: Err(e),
        }),
    ensures
        script::consider(r, config, true, t) == Some(
            (
                Standing::Answered(
                    ResponseView {
                        request_id: r.request_id,
                        status: WriteStatus::Failed,
                        commit_seq: None,
                        error: Some(e),
                    },
                ),
                t.drop_first(),
            ),
        ),
{
}

/// Whether the work of a request, in the calls of `t` from `k` to `m`, breaks off with
/// the error `e`: what was executed are its operations as they are, in order; all calls
/// but the last succeed; and either the last fails with this error, or the next
/// operation has a parameter without a value, and the error says so.
#[verifier::opaque]
pub open spec fn breaks_off(r: RequestView, t: Seq<Call>, k: int, m: int, e: Seq<char>) -> bool {
    let n = r.operations.len();
    &&& k <= m
    &&& forall|i: int|
        k <= i < m && i < k + n ==> ((#[trigger] t[i]) matches Call::Execute { sql, params, .. }
            && sql == r.operations[i - k].sql && params::sql_values_of(r.operations[i - k].params)
            == Ok::<Seq<SqlView>, ErrorView>(params))
    &&& forall|i: int| k <= i < m - 1 ==> succeeded(#[trigger] t[i])
    &&& {
        ||| k < m && (t[m - 1] matches Call::Execute { outcome, .. } && outcome == Err::<
            (),
            Seq<char>,
        >(e))
        ||| m < k + n && (k < m ==> succeeded(t[m - 1])) && (params::sql_values_of(
            r.operations[m - k].params,
        ) matches Err(x) && e == error::error_text(x))
    }
}

/// The same of operations alone.
spec fn operations_break_off(ops: Seq<OperationView>, t: Seq<Call>, m: int, e: Seq<char>) -> bool {
    &&& 0 <= m <= ops.len()
    &&& forall|i: int|
        0 <= i < m ==> ((#[trigger] t[i]) matches Call::Execute { sql, params, .. } && sql
            == ops[i].sql && params::sql_values_of(ops[i].params) == Ok::<Seq<SqlView>, ErrorView>(
            params,
        ))
    &&& forall|i: int| 0 <= i < m - 1 ==> succeeded(#[trigger] t[i])
    &&& {
        ||| 0 < m && (t[m - 1] matches Call::Execute { outcome, .. } && outcome == Err::<
            (),
            Seq<char>,
        >(e))
        ||| m < ops.len() && (0 < m ==> succeeded(t[m - 1])) && (params::sql_values_of(
            ops[m].params,
        ) matches Err(x) && e == error::error_text(x))
    }
}

proof fn operations_stop(ops: Seq<OperationView>, t: Seq<Call>, e: Seq<char>, rest: Seq<Call>) -> (m:
    int)
    requires
        script::run_operations(ops, t) == Some((Err::<(), Seq<char>>(e), rest)),
    ensures
        operations_break_off(ops, t, m, e),
        m <= t.len(),
        rest == t.skip(m),
    decreases ops.len(),
{
    assert(t =~= t.skip(0));
    match params::sql_values_of(ops[0].params) {
        Err(_) => 0,
        Ok(values) => {
            let (outcome, left) = script::after_execute(t, ops[0].sql, values)->0;
            match outcome {
                Err(_) => {
                    assert(rest =~= t.skip(1));
                    1
                },
                Ok(_) => {
                    let n = operations_stop(ops.drop_first(), left, e, rest);
                    let m = n + 1;
                    assert forall|i: int| 0 <= i < m implies ((
                    #[trigger] t[i]) matches Call::Execute { sql, params, .. } && sql == ops[i].sql
                        && params::sql_values_of(ops[i].params) == Ok::<Seq<SqlView>, ErrorView>(
                        params,
                    )) by {
                        if i > 0 {
                            assert(left[i - 1] == t[i]);
                            assert(ops.drop_first()[i - 1] == ops[i]);
                        }
                    }
                    assert forall|i: int| 0 <= i < m - 1 implies succeeded(#[trigger] t[i]) by {
                        if i > 0 {
                            assert(left[i - 1] == t[i]);
                        }
                    }
                    if n > 0 {
                        assert(left[n - 1] == t[m - 1]);
                    }
                    if n < ops.drop_first().len() {
                        assert(ops.drop_first()[n] == ops[m]);
                    }
                    assert(rest =~= t.skip(m));
                    m
                },
            }
        },
    }
}

proof fn body_stops(
    r: RequestView,
    track: bool,
    record: Option<(Seq<char>, Seq<char>)>,
    t: Seq<Call>,
    e: Seq<char>,
    rest: Seq<Call>,
) -> (m: int)
    requires
        script::run_body(r, track, record, t) == Some((Err::<Option<i64>, Seq<char>>(e), rest)),
    ensures
        breaks_off(r, t, 0, m, e),
        m <= t.len(),
        rest == t.skip(m),
{
    reveal(breaks_off);
    let ops = r.operations;
    let n = ops.len() as int;
    let (executed, t1) = script::run_operations(ops, t)->0;
    match executed {
        Err(_) => operations_stop(ops, t, e, rest),
        Ok(x) => {
            assert(x == ());
            operations_are_executed(ops, t, t1);
            assert forall|i: int| 0 <= i < n implies succeeded(#[trigger] t[i]) by {}
            let (recorded, t2) = script::record_commit(r, track, t1)->0;
            let m = if recorded is Err {
                n + 1
            } else if track {
                n + 3
            } else {
                n + 1
            };
            assert(t1[0] == t[n]);
            if m == n + 3 {
                assert(t1.drop_first()[0] == t[n + 1]);
                assert(t2 =~= t.skip(n + 2));
                assert(t2[0] == t[n + 2]);
            }
            assert(rest =~= t.skip(m));
            m
        },
    }
}

proof fn break_behind(r: RequestView, t: Seq<Call>, k: int, m: int, e: Seq<char>)
    requires
        0 <= k,
        k + m <= t.len(),
        breaks_off(r, t.skip(k), 0, m, e),
    ensures
        breaks_off(r, t, k, k + m, e),
{
    reveal(breaks_off);
    let u = t.skip(k);
    let n = r.operations.len();
    assert forall|i: int| k <= i < k + m && i < k + n implies ((
    #[trigger] t[i]) matches Call::Execute { sql, params, .. } && sql == r.operations[i - k].sql
        && params::sql_values_of(r.operations[i - k].params) == Ok::<Seq<SqlView>, ErrorView>(
        params,
    )) by {
        assert(u[i - k] == t[i]);
    }
    assert forall|i: int| k <= i < k + m - 1 implies succeeded(#[trigger] t[i]) by {
        assert(u[i - k] == t[i]);
    }
    if m > 0 {
        assert(u[m - 1] == t[k + m - 1]);
    }
}

/// Whether the last calls of `t`, from `m` on, undo the transaction: SQLite is asked
/// whether one is still open, and it is rolled back if it is.
pub open spec fn undoes(t: Seq<Call>, m: int) -> bool {
    ||| m + 1 == t.len() && t[m] == (Call::Autocommit { on: true })
    ||| m + 2 == t.len() && t[m] == (Call::Autocommit { on: false }) && (
    t[m + 1] matches Call::Batch { sql, .. } && sql == "ROLLBACK"@)
}

/// Whether a response tells of a failure with the error `e`.
pub open spec fn failed_with(response: ResponseView, r: RequestView, e: Seq<char>) -> bool {
    response == (ResponseView {
        request_id: r.request_id,
        status: WriteStatus::Failed,
        commit_seq: None,
        error: Some(e),
    })
}

/// Whether the calls of `t` from `k` on are the transaction of a request, and the
/// response is what it came to. The transaction is begun, and nothing more is called if
/// that fails. If it is committed, all of the work stands between, and the response has
/// the number of the commit and no error. Else the work breaks off before the call at
/// `m`, or the commit fails there, and the transaction is undone from there on.
pub open spec fn is_transaction(
    r: RequestView,
    track: bool,
    record: Option<(Seq<char>, Seq<char>)>,
    t: Seq<Call>,
    k: int,
    m: int,
    response: ResponseView,
) -> bool {
    let n = k + 1 + work_len(r, track, record is Some);
    &&& 0 <= k < t.len()
    &&& t[k] matches Call::Batch { sql, outcome } && sql == "BEGIN IMMEDIATE"@ && match outcome {
        Err(x) => t.len() == k + 1 && failed_with(response, r, x),
        Ok(_) => match response.status {
            WriteStatus::Committed => {
                &&& is_work(r, track, record, response.commit_seq, t, k + 1)
                &&& t.len() == n + 1
                &&& t[n] == (Call::Batch { sql: "COMMIT"@, outcome: Ok(()) })
                &&& response.request_id == r.request_id
                &&& response.error is None
            },
            WriteStatus::Failed => {
                &&& response.error is Some
                &&& failed_with(response, r, response.error->0)
                &&& undoes(t, m)
                &&& {
                    ||| breaks_off(r, t, k + 1, m, response.error->0)
                    ||| m == n + 1 && t[n] == (Call::Batch {
                        sql: "COMMIT"@,
                        outcome: Err(response.error->0),
                    }) && exists|seq: Option<i64>| #[trigger]
                        is_work(r, track, record, seq, t, k + 1)
                }
            },
        },
    }
}

/// Whether the calls of `t` from `k` on, up to `rest`, are the savepoint of the request
/// at `index` of a batch, and the run is what it came to. The savepoint is named by the
/// place. If it cannot be opened, nothing more is called. If it is released, all of the
/// work stands between. Else the work breaks off before the call at `m`, or the release
/// fails there, and that call undoes what was done; where it fails too, the batch cannot
/// go on.
pub open spec fn is_savepoint(
    r: RequestView,
    index: nat,
    track: bool,
    record: Option<(Seq<char>, Seq<char>)>,
    t: Seq<Call>,
    k: int,
    m: int,
    run: MemberRun,
    rest: Seq<Call>,
) -> bool {
    let n = k + 1 + work_len(r, track, record is Some);
    let name = "sp_"@ + text::decimal(index);
    let response = run.response;
    &&& 0 <= k < t.len()
    &&& t[k] matches Call::Batch { sql, outcome } && sql == "SAVEPOINT "@ + name + ";"@
        && match outcome {
        Err(x) => rest == t.skip(k + 1) && failed_with(response, r, x) && run.lost is None,
        Ok(_) => match response.status {
            WriteStatus::Committed => {
                &&& is_work(r, track, record, response.commit_seq, t, k + 1)
                &&& n < t.len()
                &&& t[n] == (Call::Batch { sql: "RELEASE "@ + name + ";"@, outcome: Ok(()) })
                &&& rest == t.skip(n + 1)
                &&& response.request_id == r.request_id
                &&& response.error is None
                &&& run.lost is None
            },
            WriteStatus::Failed => {
                &&& response.error is Some
                &&& failed_with(response, r, response.error->0)
                &&& k < m < t.len()
                &&& t[m] matches Call::Batch { sql, outcome } && sql == "ROLLBACK TO "@ + name
                    + "; RELEASE "@ + name + ";"@ && run.lost == (match outcome {
                    Ok(_) => None,
                    Err(x) => Some(x),
                })
                &&& rest == t.skip(m + 1)
                &&& {
                    ||| breaks_off(r, t, k + 1, m, response.error->0)
                    ||| m == n + 1 && t[n] == (Call::Batch {
                        sql: "RELEASE "@ + name + ";"@,
                        outcome: Err(response.error->0),
                    }) && exists|seq: Option<i64>| #[trigger]
                        is_work(r, track, record, seq, t, k + 1)
                }
            },
        },
    }
}

/// Where undoing the transaction takes all the calls from `m` on, these undo it.
proof fn undone_at(t: Seq<Call>, m: int)
    requires
        0 <= m <= t.len(),
        script::roll_back(t.skip(m)) matches Some(left) && left.len() == 0,
    ensures
        undoes(t, m),
{
    let u = t.skip(m);
    assert(u[0] == t[m]);
    if !u[0]->Autocommit_on {
        assert(u.drop_first()[0] == t[m + 1]);
        assert(u.drop_first().drop_first().len() == 0);
    } else {
        assert(u.drop_first().len() == 0);
    }
}

/// The work of a request, in the calls from `k` on: what it came to and where it ended.
proof fn work_came_to(
    r: RequestView,
    track: bool,
    record: Option<(Seq<char>, Seq<char>)>,
    t: Seq<Call>,
    k: int,
) -> (m: int)
    requires
        0 <= k <= t.len(),
        script::run_body(r, track, record, t.skip(k)) is Some,
    ensures
        ({
            let (result, rest) = script::run_body(r, track, record, t.skip(k))->0;
            &&& k <= m <= t.len()
            &&& rest == t.skip(m)
            &&& result matches Ok(seq) ==> is_work(r, track, record, seq, t, k) && m == k
                + work_len(r, track, record is Some)
            &&& result matches Err(e) ==> breaks_off(r, t, k, m, e)
        }),
{
    let (result, rest) = script::run_body(r, track, record, t.skip(k))->0;
    match result {
        Ok(seq) => {
            let n = work_len(r, track, record is Some);
            body_is_work(r, track, record, seq, t.skip(k), rest);
            work_behind(r, track, record, seq, t, k);
            assert(rest =~= t.skip(k + n));
            k + n
        },
        Err(e) => {
            let m = body_stops(r, track, record, t.skip(k), e, rest);
            assert(0 <= m) by {
                reveal(breaks_off);
            }
            break_behind(r, t, k, m, e);
            assert(rest =~= t.skip(k + m));
            k + m
        },
    }
}

proof fn transaction_came_to(
    r: RequestView,
    track: bool,
    record: Option<(Seq<char>, Seq<char>)>,
    t: Seq<Call>,
    k: int,
    response: ResponseView,
) -> (m: int)
    requires
        0 <= k <= t.len(),
        script::run_transaction(r, track, record, t.skip(k)) == script::ended(response),
    ensures
        is_transaction(r, track, record, t, k, m, response),
{
    let u = t.skip(k);
    assert(u[0] == t[k]);
    if u[0]->Batch_outcome is Err {
        assert(u.drop_first().len() == 0);
        return k;
    }
    assert(u.drop_first() =~= t.skip(k + 1));
    let m = work_came_to(r, track, record, t, k + 1);
    let (worked, w) = script::run_body(r, track, record, t.skip(k + 1))->0;
    if worked is Err {
        undone_at(t, m);
        return m;
    }
    assert(w[0] == t[m]);
    success(t[m]);
    assert(w.drop_first() =~= t.skip(m + 1));
    if w[0]->Batch_outcome is Ok {
        assert(w.drop_first().len() == 0);
        return m;
    }
    undone_at(t, m + 1);
    m + 1
}

proof fn savepoint_came_to(
    r: RequestView,
    index: nat,
    track: bool,
    record: Option<(Seq<char>, Seq<char>)>,
    t: Seq<Call>,
    k: int,
    run: MemberRun,
    rest: Seq<Call>,
) -> (m: int)
    requires
        0 <= k <= t.len(),
        script::run_savepoint(r, index, track, record, t.skip(k)) == Some((run, rest)),
    ensures
        is_savepoint(r, index, track, record, t, k, m, run, rest),
{
    let u = t.skip(k);
    assert(u[0] == t[k]);
    assert(u.drop_first() =~= t.skip(k + 1));
    if u[0]->Batch_outcome is Err {
        return k;
    }
    let m = work_came_to(r, track, record, t, k + 1);
    let (worked, w) = script::run_body(r, track, record, t.skip(k + 1))->0;
    assert(w[0] == t[m]);
    assert(w.drop_first() =~= t.skip(m + 1));
    if worked is Err {
        return m;
    }
    success(t[m]);
    if w[0]->Batch_outcome is Ok {
        return m;
    }
    assert(w.drop_first()[0] == t[m + 1]);
    assert(w.drop_first().drop_first() =~= t.skip(m + 2));
    m + 1
}

/// What is looked up before a request is executed, and what is left then.
proof fn considered(r: RequestView, config: GatewayConfig, idempotency: bool, t: Seq<Call>)
    requires
        script::consider(r, config, idempotency, t) is Some,
    ensures
        ({
            let (standing, u) = script::consider(r, config, idempotency, t)->0;
            let k = lookups(r, idempotency);
            &&& u.len() <= t.len() <= u.len() + k
            &&& u == t.skip(t.len() - u.len())
            &&& standing matches Standing::New(record) ==> {
                &&& record == recorded_under(r, idempotency)
                &&& t.len() == u.len() + k
                &&& k == 1 ==> t[0] == (Call::Lookup {
                    sql: "SELECT request_hash, response_json FROM squeuelite_requests WHERE idempotency_key = ?1"@,
                    key: r.idempotency_key->0,
                    found: Ok(None),
                })
            }
        }),
{
    let (_, u) = script::consider(r, config, idempotency, t)->0;
    assert(u =~= t.skip(t.len() - u.len()));
}

/// A request that is executed alone takes these calls and no others: the lookup of its
/// key, where it has one, which found nothing, and its transaction. The result tells
/// where it failed, if it did.
pub proof fn request_takes_these_calls(
    r: RequestView,
    config: GatewayConfig,
    track: bool,
    idempotency: bool,
    t: Seq<Call>,
    response: ResponseView,
) -> (m: int)
    requires
        script::run_request(r, config, track, idempotency, t) == script::ended(response),
        t.len() > lookups(r, idempotency),
    ensures
        lookups(r, idempotency) == 1 ==> t[0] == (Call::Lookup {
            sql: "SELECT request_hash, response_json FROM squeuelite_requests WHERE idempotency_key = ?1"@,
            key: r.idempotency_key->0,
            found: Ok(None),
        }),
        is_transaction(
            r,
            track,
            recorded_under(r, idempotency),
            t,
            lookups(r, idempotency),
            m,
            response,
        ),
{
    considered(r, config, idempotency, t);
    let k = lookups(r, idempotency);
    assert(script::run_transaction(r, track, recorded_under(r, idempotency), t.skip(k))
        == script::ended(response));
    transaction_came_to(r, track, recorded_under(r, idempotency), t, k, response)
}

/// A request of a batch that is executed takes these calls: the lookup of its key, where
/// it has one, which found nothing, and its savepoint. The result tells where it failed,
/// if it did.
pub proof fn member_takes_these_calls(
    r: RequestView,
    index: nat,
    config: GatewayConfig,
    track: bool,
    idempotency: bool,
    t: Seq<Call>,
    run: MemberRun,
    rest: Seq<Call>,
) -> (m: int)
    requires
        script::run_member(r, index, config, track, idempotency, t) == Some((run, rest)),
        t.len() > rest.len() + lookups(r, idempotency),
    ensures
        lookups(r, idempotency) == 1 ==> t[0] == (Call::Lookup {
            sql: "SELECT request_hash, response_json FROM squeuelite_requests WHERE idempotency_key = ?1"@,
            key: r.idempotency_key->0,
            found: Ok(None),
        }),
        is_savepoint(
            r,
            index,
            track,
            recorded_under(r, idempotency),
            t,
            lookups(r, idempotency),
            m,
            run,
            rest,
        ),
{
    considered(r, config, idempotency, t);
    let k = lookups(r, idempotency);
    assert(script::run_savepoint(r, index, track, recorded_under(r, idempotency), t.skip(k))
        == Some((run, rest)));
    savepoint_came_to(r, index, track, recorded_under(r, idempotency), t, k, run, rest)
}

/// A batch that was not committed takes back what it answered: a request that was
/// answered as committed fails for the given reason, and one that failed keeps its error.
pub proof fn answers_are_taken_back(response: ResponseView, why: Seq<char>)
    ensures
        script::withdrawn(response, why) == (match response.status {
            WriteStatus::Committed => ResponseView {
                request_id: response.request_id,
                status: WriteStatus::Failed,
                commit_seq: None,
                error: Some(why),
            },
            WriteStatus::Failed => response,
        }),
{
}

/// Whether the request at `index` of a batch is handled by the calls of `t` up to
/// `rest`, as [`script::run_member`] says, and comes to `run`.
#[verifier::opaque]
pub open spec fn is_handled(
    r: RequestView,
    index: nat,
    config: GatewayConfig,
    track: bool,
    idempotency: bool,
    t: Seq<Call>,
    run: MemberRun,
    rest: Seq<Call>,
) -> bool {
    script::run_member(r, index, config, track, idempotency, t) == Some((run, rest))
}

/// A request of a batch leaves the last of the calls.
proof fn member_leaves_the_last_calls(
    r: RequestView,
    index: nat,
    config: GatewayConfig,
    track: bool,
    idempotency: bool,
    t: Seq<Call>,
    run: MemberRun,
    rest: Seq<Call>,
)
    requires
        is_handled(r, index, config, track, idempotency, t, run, rest),
    ensures
        rest.len() <= t.len(),
        rest == t.skip(t.len() - rest.len()),
{
    reveal(is_handled);
    considered(r, config, idempotency, t);
    let (standing, u) = script::consider(r, config, idempotency, t)->0;
    if standing is New {
        let k = lookups(r, idempotency);
        let _ = savepoint_came_to(
            r,
            index,
            track,
            recorded_under(r, idempotency),
            t,
            k,
            run,
            rest,
        );
    }
}

/// Whether the `i`-th request from `index` on is handled by the calls from `cuts[i]` to
/// `cuts[i + 1]`.
pub open spec fn is_handled_at(
    rs: Seq<RequestView>,
    index: nat,
    config: GatewayConfig,
    track: bool,
    idempotency: bool,
    run: BatchRun,
    cuts: Seq<Seq<Call>>,
    i: int,
) -> bool {
    is_handled(
        rs[index + i],
        (index + i) as nat,
        config,
        track,
        idempotency,
        cuts[i],
        (MemberRun {
            response: run.responses[index + i],
            lost: if i == cuts.len() - 2 {
                run.lost
            } else {
                None
            },
        }),
        cuts[i + 1],
    )
}

/// Whether the requests of a batch from `index` on are handled one after the other, each
/// with its own place and from where the one before it left off: `cuts` holds the calls
/// that are left before each, and after the last. All but the last can be followed.
pub open spec fn are_handled_in_order(
    rs: Seq<RequestView>,
    index: nat,
    config: GatewayConfig,
    track: bool,
    idempotency: bool,
    run: BatchRun,
    cuts: Seq<Seq<Call>>,
) -> bool {
    forall|i: int|
        0 <= i < cuts.len() - 1 ==> #[trigger] is_handled_at(
            rs,
            index,
            config,
            track,
            idempotency,
            run,
            cuts,
            i,
        )
}

/// Whether the first of the requests from `index` on is handled, and how the batch goes
/// on.
#[verifier::opaque]
spec fn goes_on(
    rs: Seq<RequestView>,
    index: nat,
    config: GatewayConfig,
    track: bool,
    idempotency: bool,
    done: Seq<ResponseView>,
    t: Seq<Call>,
    run: BatchRun,
    rest: Seq<Call>,
) -> bool {
    script::run_members(rs, index, config, track, idempotency, done, t) == Some((run, rest))
}

proof fn one_more_is_handled(
    rs: Seq<RequestView>,
    index: nat,
    config: GatewayConfig,
    track: bool,
    idempotency: bool,
    done: Seq<ResponseView>,
    t: Seq<Call>,
    run: BatchRun,
    rest: Seq<Call>,
) -> (first: (MemberRun, Seq<Call>))
    requires
        index < rs.len(),
        goes_on(rs, index, config, track, idempotency, done, t, run, rest),
    ensures
        ({
            let (member, left) = first;
            &&& is_handled(
                rs[index as int],
                index,
                config,
                track,
                idempotency,
                t,
                member,
                left,
            )
            &&& member.lost is None ==> goes_on(
                rs,
                index + 1,
                config,
                track,
                idempotency,
                done.push(member.response),
                left,
                run,
                rest,
            )
            &&& member.lost matches Some(e) ==> run == (BatchRun {
                responses: done.push(member.response) + script::not_executed(rs, index + 1, e),
                lost: Some(e),
            }) && left == rest
        }),
{
    reveal(goes_on);
    reveal(is_handled);
    script::run_member(rs[index as int], index, config, track, idempotency, t)->0
}

proof fn handled_in_order(
    rs: Seq<RequestView>,
    index: nat,
    config: GatewayConfig,
    track: bool,
    idempotency: bool,
    done: Seq<ResponseView>,
    t: Seq<Call>,
    run: BatchRun,
    rest: Seq<Call>,
) -> (cuts: Seq<Seq<Call>>)
    requires
        index <= rs.len(),
        done.len() == index,
        goes_on(rs, index, config, track, idempotency, done, t, run, rest),
    ensures
        cuts.len() > 0,
        cuts[0] == t,
        cuts.last() == rest,
        run.responses.len() == rs.len(),
        forall|i: int| 0 <= i < index ==> (#[trigger] run.responses[i]) == done[i],
        index + cuts.len() - 1 <= rs.len(),
        run.lost is None ==> index + cuts.len() - 1 == rs.len(),
        are_handled_in_order(rs, index, config, track, idempotency, run, cuts),
        run.lost is Some ==> cuts.len() > 1,
        run.lost matches Some(why) ==> forall|i: int|
            index + cuts.len() - 1 <= i < rs.len() ==> failed_with(
                #[trigger] run.responses[i],
                rs[i],
                why,
            ),
        rest.len() <= t.len(),
        rest == t.skip(t.len() - rest.len()),
    decreases rs.len() - index,
{
    if index >= rs.len() {
        reveal(goes_on);
        assert(t =~= t.skip(0));
        return seq![t];
    }
    let (member, left) = one_more_is_handled(
        rs,
        index,
        config,
        track,
        idempotency,
        done,
        t,
        run,
        rest,
    );
    member_leaves_the_last_calls(
        rs[index as int],
        index,
        config,
        track,
        idempotency,
        t,
        member,
        left,
    );
    if member.lost is Some {
        assert(run.responses[index as int] == member.response);
        let cuts = seq![t, left];
        assert(member == (MemberRun { response: run.responses[index as int], lost: run.lost }));
        assert(are_handled_in_order(rs, index, config, track, idempotency, run, cuts));
        cuts
    } else {
        let more = handled_in_order(
            rs,
            index + 1,
            config,
            track,
            idempotency,
            done.push(member.response),
            left,
            run,
            rest,
        );
        let cuts = seq![t] + more;
        assert(run.responses[index as int] == member.response);
        assert forall|i: int| 0 <= i < cuts.len() - 1 implies #[trigger] is_handled_at(
            rs,
            index,
            config,
            track,
            idempotency,
            run,
            cuts,
            i,
        ) by {
            if i == 0 {
                assert(cuts[1] == more[0]);
                if more.len() == 1 {
                    assert(run.lost is None);
                }
                assert(member == (MemberRun { response: run.responses[index as int], lost: None }));
            } else {
                assert(cuts[i] == more[i - 1] && cuts[i + 1] == more[i]);
                assert(is_handled_at(
                    rs,
                    index + 1,
                    config,
                    track,
                    idempotency,
                    run,
                    more,
                    i - 1,
                ));
            }
        }
        assert forall|i: int| 0 <= i < index implies (#[trigger] run.responses[i]) == done[i] by {
            assert(done.push(member.response)[i] == done[i]);
        }
        assert(rest =~= t.skip(t.len() - rest.len()));
        cuts
    }
}

/// A batch is one transaction. If it cannot be begun, every request fails with that
/// error and nothing else is called. Else its requests are handled in order, from the
/// first on, up to one after which the transaction cannot go on; those behind it are not
/// executed, and fail for the same reason. Then the transaction is committed, and the
/// responses are those of the requests; or it is undone, and what they were answered is
/// taken back. The result holds the calls that are left before each request that was
/// handled, and after the last, and what came of them.
pub proof fn batch_takes_these_calls(
    rs: Seq<RequestView>,
    config: GatewayConfig,
    track: bool,
    idempotency: bool,
    t: Seq<Call>,
    responses: Seq<ResponseView>,
) -> (parts: (Seq<Seq<Call>>, BatchRun))
    requires
        script::run_batch(rs, config, track, idempotency, t) == script::ended(responses),
    ensures
        responses.len() == rs.len(),
        t.len() > 0,
        t[0] matches Call::Batch { sql, outcome } && sql == "BEGIN IMMEDIATE"@ && match outcome {
            Err(e) => t.len() == 1 && forall|i: int|
                0 <= i < rs.len() ==> failed_with(#[trigger] responses[i], rs[i], e),
            Ok(_) => {
                let (cuts, run) = parts;
                let n = cuts.len() - 1;
                let d = t.len() - cuts.last().len();
                &&& 0 <= n <= rs.len()
                &&& cuts[0] == t.drop_first()
                &&& 0 < d < t.len() && cuts.last() == t.skip(d)
                &&& are_handled_in_order(rs, 0, config, track, idempotency, run, cuts)
                &&& run.responses.len() == rs.len()
                &&& match run.lost {
                    Some(why) => {
                        &&& n > 0
                        &&& forall|i: int|
                            n <= i < rs.len() ==> failed_with(
                                #[trigger] run.responses[i],
                                rs[i],
                                why,
                            )
                        &&& undoes(t, d)
                        &&& are_taken_back(run.responses, why, responses)
                    },
                    None => n == rs.len() && (t[d] matches Call::Batch { sql, outcome } && sql
                        == "COMMIT"@ && match outcome {
                        Ok(_) => t.len() == d + 1 && responses == run.responses,
                        Err(why) => undoes(t, d + 1) && are_taken_back(
                            run.responses,
                            why,
                            responses,
                        ),
                    }),
                }
            },
        },
{
    let none = Seq::<ResponseView>::empty();
    let (begun, t1) = script::after_batch(t, script::begin_sql())->0;
    if begun is Err {
        return (Seq::empty(), BatchRun { responses: none, lost: None });
    }
    let (run, t2) = script::run_members(rs, 0, config, track, idempotency, none, t1)->0;
    assert(goes_on(rs, 0, config, track, idempotency, none, t1, run, t2)) by {
        reveal(goes_on);
    }
    let cuts = handled_in_order(rs, 0, config, track, idempotency, none, t1, run, t2);
    let d = t.len() - t2.len();
    assert(t1 =~= t.skip(1));
    assert(t2 =~= t.skip(d));
    match run.lost {
        Some(why) => {
            undone_at(t, d);
        },
        None => {
            assert(t2[0] == t[d]);
            assert(t2.drop_first() =~= t.skip(d + 1));
            if t2[0]->Batch_outcome is Ok {
                assert(t2.drop_first().len() == 0);
            } else {
                undone_at(t, d + 1);
            }
        },
    }
    (cuts, run)
}

/// Whether `after` are the responses `before`, with those of a commit turned into
/// failures for the given reason.
pub open spec fn are_taken_back(
    before: Seq<ResponseView>,
    why: Seq<char>,
    after: Seq<ResponseView>,
) -> bool {
    after.len() == before.len() && forall|i: int|
        0 <= i < before.len() ==> (#[trigger] after[i]) == (match before[i].status {
            WriteStatus::Committed => ResponseView {
                request_id: before[i].request_id,
                status: WriteStatus::Failed,
                commit_seq: None,
                error: Some(why),
            },
            WriteStatus::Failed => before[i],
        })
}

/// The log is moved to the database file by one call, and the result is its outcome.
/// Nothing else changes.
pub proof fn checkpoint_takes_this_call(before: Writer, after: Writer, result: Result<(), Error>)
    requires
        writer::checkpointed(before, after, result),
    ensures
        after.calls().len() == before.calls().len() + 1,
        after.calls().drop_last() == before.calls(),
        after.calls().last() matches Call::Batch { sql, outcome } && sql
            == "PRAGMA wal_checkpoint(TRUNCATE);"@ && match (outcome, result) {
            (Ok(_), Ok(_)) => true,
            (Err(x), Err(e)) => e@ == ErrorView::Sqlite(x),
            _ => false,
        },
        after.latencies() == before.latencies(),
        after.settings() == before.settings(),
        after.tracks_commits() == before.tracks_commits(),
        after.keeps_responses() == before.keeps_responses(),
{
    assert(after.calls().drop_last() =~= before.calls());
}

/// A request that commits adds one measurement to the latencies, behind those that are
/// kept; one that does not adds none. The settings stay.
pub proof fn commits_alone_are_measured(
    before: Writer,
    after: Writer,
    r: RequestView,
    response: ResponseView,
)
    requires
        writer::applied(before, after, r, response),
        before.latencies().len() < 1024,
    ensures
        ({
            let t = after.calls().skip(before.calls().len() as int);
            let n = before.latencies().len();
            &&& before.calls().is_prefix_of(after.calls())
            &&& script::run_request(
                r,
                before.settings(),
                before.tracks_commits(),
                before.keeps_responses(),
                t,
            ) == Some((response, Seq::<Call>::empty()))
            &&& if t.len() > 0 && (t.last() matches Call::Batch { sql, outcome } && sql
                == "COMMIT"@ && outcome is Ok) {
                &&& after.latencies().len() == n + 1
                &&& after.latencies().drop_last() == before.latencies()
            } else {
                after.latencies() == before.latencies()
            }
        }),
        after.settings() == before.settings(),
        after.tracks_commits() == before.tracks_commits(),
        after.keeps_responses() == before.keeps_responses(),
{
    let t = after.calls().skip(before.calls().len() as int);
    assert(t =~= crate::store::made(before.calls(), after.calls()));
    if writer::ends_in_commit(t) {
        assert(after.latencies().drop_last() =~= before.latencies());
    }
}

/// The same of requests in one transaction.
pub proof fn batches_that_commit_are_measured(
    before: Writer,
    after: Writer,
    rs: Seq<RequestView>,
    responses: Seq<ResponseView>,
)
    requires
        writer::batch_applied(before, after, rs, responses),
        before.latencies().len() < 1024,
    ensures
        ({
            let t = after.calls().skip(before.calls().len() as int);
            let n = before.latencies().len();
            &&& before.calls().is_prefix_of(after.calls())
            &&& script::run_batch(
                rs,
                before.settings(),
                before.tracks_commits(),
                before.keeps_responses(),
                t,
            ) == Some((responses, Seq::<Call>::empty()))
            &&& if t.len() > 0 && (t.last() matches Call::Batch { sql, outcome } && sql
                == "COMMIT"@ && outcome is Ok) {
                &&& after.latencies().len() == n + 1
                &&& after.latencies().drop_last() == before.latencies()
            } else {
                after.latencies() == before.latencies()
            }
        }),
        after.settings() == before.settings(),
        after.tracks_commits() == before.tracks_commits(),
        after.keeps_responses() == before.keeps_responses(),
{
    let t = after.calls().skip(before.calls().len() as int);
    assert(t =~= crate::store::made(before.calls(), after.calls()));
    if writer::ends_in_commit(t) {
        assert(after.latencies().drop_last() =~= before.latencies());
    }
}

/// Each response goes to whoever sent the request at the same place.
pub proof fn replies_go_to_their_senders<T>(
    batch: Seq<(request::WriteRequest, T)>,
    replies: Seq<(T, request::WriteResponse)>,
    i: int,
)
    requires
        writer::addressed(batch, replies),
        0 <= i < batch.len(),
    ensures
        replies.len() == batch.len(),
        replies[i].0 == batch[i].1,
        writer::batch_requests(batch).len() == batch.len(),
        writer::batch_requests(batch)[i] == batch[i].0@,
        writer::batch_responses(replies).len() == replies.len(),
        writer::batch_responses(replies)[i] == replies[i].1@,
{
}

} // verus!
