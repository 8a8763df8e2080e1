//! The writer: it owns the connection and turns requests into transactions.
use rusqlite::Connection;
use vstd::prelude::*;

use crate::config::GatewayConfig;
use crate::error::{joined, Error, ErrorView};
use crate::latency;
use crate::latency::LatencyBuffer;
use crate::params;
use crate::params::{params_from, SqlValue};
use crate::request;
use crate::request::{
    hash_operations, read_response, write_response, SqlOperation, WriteRequest, WriteResponse,
    WriteStatus,
};
use crate::script;
use crate::sql::validate_sql;
use crate::store;
use crate::store::Call;
use crate::text::decimal_text;

verus! {

/// Whether the calls `t` are those of executing the operations `ops`, with the
/// result `r`.
spec fn ran_operations(
    ops: Seq<request::OperationView>,
    t: Seq<Call>,
    r: Result<(), Seq<char>>,
) -> bool {
    forall|rest: Seq<Call>| #[trigger] script::run_operations(ops, t + rest) == Some((r, rest))
}

/// Executes operations, in order, up to the first that fails.
fn execute_operations(conn: &mut Connection, ops: &Vec<SqlOperation>) -> (r: Result<(), String>)
    ensures
        store::grew(store::history(*old(conn)), store::history(*final(conn))),
        ran_operations(
            request::operation_views(ops@),
            store::made(store::history(*old(conn)), store::history(*final(conn))),
            store::outcome_view(r),
        ),
{
    let ghost h0 = store::history(*conn);
    let ghost all = request::operation_views(ops@);
    let n = ops.len();
    proof {
        store::made_none(h0);
        assert forall|rest: Seq<Call>|
            #[trigger] script::run_operations(all, store::made(h0, h0) + rest)
                == script::run_operations(all.skip(0), rest) by {
            assert(store::made(h0, h0) + rest =~= rest);
            assert(all.skip(0) =~= all);
        }
    }
    for i in 0..n
        invariant
            n == ops@.len(),
            h0 == store::history(*old(conn)),
            all == request::operation_views(ops@),
            store::grew(h0, store::history(*conn)),
            forall|rest: Seq<Call>|
                #[trigger] script::run_operations(all, store::made(h0, store::history(*conn)) + rest)
                    == script::run_operations(all.skip(i as int), rest),
    {
        let ghost h1 = store::history(*conn);
        let ghost left = all.skip(i as int);
        assert(left[0] == ops@[i as int]@);
        assert(left.drop_first() =~= all.skip(i + 1));
        let values = match params_from(&ops[i].params) {
            Ok(v) => v,
            Err(e) => {
                return Err(e.message());
            },
        };
        let done = store::execute(conn, &ops[i].sql, &values);
        let ghost call = store::history(*conn).last();
        proof {
            store::made_one(h1, call);
            store::made_join(h0, h1, store::history(*conn));
            assert forall|rest: Seq<Call>|
                #[trigger] script::run_operations(
                    all,
                    store::made(h0, store::history(*conn)) + rest,
                ) == script::run_operations(left, seq![call] + rest) by {
                assert(store::made(h0, store::history(*conn)) + rest =~= store::made(h0, h1) + (
                seq![call] + rest));
            }
            assert forall|rest: Seq<Call>| true implies #[trigger] script::run_operations(
                left,
                seq![call] + rest,
            ) == (match done {
                Ok(_) => script::run_operations(left.drop_first(), rest),
                Err(e) => Some((Err(e@), rest)),
            }) by {
                store::front(call, rest);
            }
        }
        if let Err(e) = done {
            return Err(e);
        }
    }
    assert(all.skip(n as int) =~= Seq::<request::OperationView>::empty());
    Ok(())
}

/// The SQLite value of an optional text.
fn opt_text_value(s: &Option<String>) -> (r: SqlValue)
    ensures
        r@ == script::opt_text_value(request::opt_text(*s)),
{
    match s {
        Some(x) => SqlValue::Text(x.clone()),
        None => SqlValue::Null,
    }
}

/// The SQLite value of an optional integer.
fn opt_int_value(i: Option<i64>) -> (r: SqlValue)
    ensures
        r@ == script::opt_int_value(i),
{
    match i {
        Some(x) => SqlValue::Integer(x),
        None => SqlValue::Null,
    }
}

/// Whether the calls `t` are those of recording a commit, with the result `r`.
spec fn ran_record_commit(
    request: request::RequestView,
    track: bool,
    t: Seq<Call>,
    r: Result<Option<i64>, Seq<char>>,
) -> bool {
    forall|rest: Seq<Call>|
        #[trigger] script::record_commit(request, track, t + rest) == Some((r, rest))
}

/// Records a commit and takes its number, if commits are tracked.
fn record_commit(conn: &mut Connection, request: &WriteRequest, track_commits: bool) -> (r: Result<
    Option<i64>,
    String,
>)
    ensures
        store::grew(store::history(*old(conn)), store::history(*final(conn))),
        ran_record_commit(
            request@,
            track_commits,
            store::made(store::history(*old(conn)), store::history(*final(conn))),
            store::outcome_view(r),
        ),
{
    let ghost h0 = store::history(*conn);
    proof {
        store::made_none(h0);
        assert forall|rest: Seq<Call>| store::made(h0, h0) + rest == rest by {
            assert(store::made(h0, h0) + rest =~= rest);
        }
    }
    if !track_commits {
        return Ok(None);
    }
    let values = vec![
        SqlValue::Text(request.request_id.clone()),
        SqlValue::Text(request.actor_id.clone()),
        opt_text_value(&request.run_id),
    ];
    assert(params::sql_values(values@) =~= script::commit_values(request@));
    let inserted = store::execute(
        conn,
        "INSERT INTO squeuelite_commits(request_id, actor_id, run_id) VALUES (?, ?, ?)",
        &values,
    );
    let ghost h1 = store::history(*conn);
    proof {
        store::made_one(h0, h1.last());
    }
    if let Err(e) = inserted {
        proof {
            assert forall|rest: Seq<Call>|
                #[trigger] script::record_commit(request@, true, store::made(h0, h1) + rest)
                    == Some((store::outcome_view::<Option<i64>>(Err(e)), rest)) by {
                store::front(h1.last(), rest);
            }
        }
        return Err(e);
    }
    let id = store::last_insert_rowid(conn);
    let ghost h2 = store::history(*conn);
    proof {
        store::made_one(h1, h2.last());
        store::made_join(h0, h1, h2);
        assert forall|rest: Seq<Call>|
            #[trigger] script::record_commit(request@, true, store::made(h0, h2) + rest) == Some(
                (store::outcome_view(Ok(Some(id))), rest),
            ) by {
            assert(store::made(h0, h2) + rest =~= seq![h1.last()] + (seq![h2.last()] + rest));
            store::front(h1.last(), seq![h2.last()] + rest);
            store::front(h2.last(), rest);
        }
    }
    Ok(Some(id))
}

/// The key and hash under which a response is recorded, as mathematical values.
spec fn record_view(record: Option<(String, String)>) -> Option<(Seq<char>, Seq<char>)> {
    match record {
        Some((key, hash)) => Some((key@, hash@)),
        None => None,
    }
}

/// Whether the calls `t` are those of the work of a request inside its
/// transaction, with the result `r`.
spec fn ran_body(
    request: request::RequestView,
    track: bool,
    record: Option<(Seq<char>, Seq<char>)>,
    t: Seq<Call>,
    r: Result<Option<i64>, Seq<char>>,
) -> bool {
    forall|rest: Seq<Call>|
        #[trigger] script::run_body(request, track, record, t + rest) == Some((r, rest))
}

/// The work of a request inside its transaction: its operations, the record of
/// the commit, and the record of the response. A recorded response can be read
/// back.
fn run_body(
    conn: &mut Connection,
    request: &WriteRequest,
    track_commits: bool,
    record: &Option<(String, String)>,
) -> (r: Result<Option<i64>, String>)
    ensures
        store::grew(store::history(*old(conn)), store::history(*final(conn))),
        ran_body(
            request@,
            track_commits,
            record_view(*record),
            store::made(store::history(*old(conn)), store::history(*final(conn))),
            store::outcome_view(r),
        ),
        match r {
            Ok(seq) => record is Some ==> script::reads_back(
                request::committed(request.request_id@, seq),
            ),
            Err(_) => true,
        },
{
    let ghost h0 = store::history(*conn);
    let executed = execute_operations(conn, &request.operations);
    let ghost h1 = store::history(*conn);
    if let Err(e) = executed {
        proof {
            assert forall|rest: Seq<Call>|
                #[trigger] script::run_body(
                    request@,
                    track_commits,
                    record_view(*record),
                    store::made(h0, h1) + rest,
                ) == Some((store::outcome_view::<Option<i64>>(Err(e)), rest)) by {
                let _ = script::run_operations(request@.operations, store::made(h0, h1) + rest);
            }
        }
        return Err(e);
    }
    let recorded = record_commit(conn, request, track_commits);
    let ghost h2 = store::history(*conn);
    proof {
        store::made_join(h0, h1, h2);
        assert forall|rest: Seq<Call>|
            script::run_operations(request@.operations, #[trigger] (store::made(h0, h2) + rest))
                == Some((store::done(), store::made(h1, h2) + rest)) && script::record_commit(
                request@,
                track_commits,
                store::made(h1, h2) + rest,
            ) == Some((store::outcome_view(recorded), rest)) by {
            assert(store::made(h0, h2) + rest =~= store::made(h0, h1) + (store::made(h1, h2) + rest));
        }
    }
    let commit_seq = match recorded {
        Ok(seq) => seq,
        Err(e) => {
            return Err(e);
        },
    };
    if let Some((key, hash)) = record {
        let response = WriteResponse::committed(request.request_id.clone(), commit_seq);
        let text = write_response(&response);
        let values = vec![
            SqlValue::Text(key.clone()),
            SqlValue::Text(hash.clone()),
            SqlValue::Text(text),
            opt_int_value(commit_seq),
        ];
        assert(params::sql_values(values@) =~= script::response_values(
            key@,
            hash@,
            request@.request_id,
            commit_seq,
        ));
        let inserted = store::execute(
            conn,
            "INSERT OR IGNORE INTO squeuelite_requests (idempotency_key, request_hash, status, response_json, commit_seq) VALUES (?1, ?2, 'committed', ?3, ?4)",
            &values,
        );
        let ghost h3 = store::history(*conn);
        proof {
            store::made_one(h2, h3.last());
            store::made_join(h0, h2, h3);
            assert forall|rest: Seq<Call>|
                #[trigger] script::run_body(
                    request@,
                    track_commits,
                    record_view(*record),
                    store::made(h0, h3) + rest,
                ) == Some(
                    (
                        (match inserted {
                            Ok(_) => Ok(commit_seq),
                            Err(e) => Err(e@),
                        }),
                        rest,
                    ),
                ) by {
                assert(store::made(h0, h3) + rest =~= store::made(h0, h2) + (seq![h3.last()] + rest));
                store::front(h3.last(), rest);
            }
        }
        if let Err(e) = inserted {
            return Err(e);
        }
    }
    Ok(commit_seq)
}

/// Whether the calls `t` are those of undoing a transaction.
spec fn rolled_back(t: Seq<Call>) -> bool {
    &&& t.len() > 0
    &&& !ends_in_commit(t)
    &&& forall|rest: Seq<Call>| script::roll_back(#[trigger] (t + rest)) == Some(rest)
}

/// Undoes the open transaction, if there is one. Its outcome is not looked at.
fn roll_back(conn: &mut Connection)
    ensures
        store::grew(store::history(*old(conn)), store::history(*final(conn))),
        rolled_back(store::made(store::history(*old(conn)), store::history(*final(conn)))),
{
    let ghost h0 = store::history(*conn);
    let ended = store::is_autocommit(conn);
    let ghost h1 = store::history(*conn);
    proof {
        store::made_one(h0, h1.last());
        reveal_strlit("ROLLBACK");
        reveal_strlit("COMMIT");
        assert("ROLLBACK"@.len() != "COMMIT"@.len());
    }
    if !ended {
        let _ = store::execute_batch(conn, "ROLLBACK");
        let ghost h2 = store::history(*conn);
        proof {
            store::made_one(h1, h2.last());
            store::made_join(h0, h1, h2);
            assert forall|rest: Seq<Call>|
                script::roll_back(#[trigger] (store::made(h0, h2) + rest)) == Some(rest) by {
                assert(store::made(h0, h2) + rest =~= seq![h1.last()] + (seq![h2.last()] + rest));
                store::front(h1.last(), seq![h2.last()] + rest);
                store::front(h2.last(), rest);
            }
        }
    } else {
        proof {
            assert forall|rest: Seq<Call>|
                script::roll_back(#[trigger] (store::made(h0, h1) + rest)) == Some(rest) by {
                store::front(h1.last(), rest);
            }
        }
    }
}

/// Whether the calls `t` are those of a request in a transaction of its own,
/// with the response `r`.
spec fn ran_transaction(
    request: request::RequestView,
    track: bool,
    record: Option<(Seq<char>, Seq<char>)>,
    t: Seq<Call>,
    r: request::ResponseView,
) -> bool {
    forall|rest: Seq<Call>|
        #[trigger] script::run_transaction(request, track, record, t + rest) == Some((r, rest))
}

/// The transaction could not be opened.
proof fn transaction_not_begun(
    request: request::RequestView,
    track: bool,
    record: Option<(Seq<char>, Seq<char>)>,
    begin: Call,
    e: Seq<char>,
)
    requires
        begin == (Call::Batch { sql: script::begin_sql(), outcome: store::broken(e) }),
    ensures
        ran_transaction(request, track, record, seq![begin], request::failed(request.request_id, e)),
{
    assert forall|rest: Seq<Call>|
        #[trigger] script::run_transaction(request, track, record, seq![begin] + rest) == Some(
            (request::failed(request.request_id, e), rest),
        ) by {
        store::front(begin, rest);
    }
}

/// The transaction was opened, and its work failed.
proof fn transaction_work_failed(
    request: request::RequestView,
    track: bool,
    record: Option<(Seq<char>, Seq<char>)>,
    begin: Call,
    work: Seq<Call>,
    undo: Seq<Call>,
    e: Seq<char>,
)
    requires
        begin == (Call::Batch { sql: script::begin_sql(), outcome: store::done() }),
        ran_body(request, track, record, work, Err(e)),
        rolled_back(undo),
    ensures
        ran_transaction(
            request,
            track,
            record,
            seq![begin] + work + undo,
            request::failed(request.request_id, e),
        ),
{
    assert forall|rest: Seq<Call>|
        #[trigger] script::run_transaction(
            request,
            track,
            record,
            seq![begin] + work + undo + rest,
        ) == Some((request::failed(request.request_id, e), rest)) by {
        assert(seq![begin] + work + undo + rest =~= seq![begin] + (work + (undo + rest)));
        store::front(begin, work + (undo + rest));
    }
}

/// The transaction was opened, its work was done, and it was committed.
proof fn transaction_committed(
    request: request::RequestView,
    track: bool,
    record: Option<(Seq<char>, Seq<char>)>,
    begin: Call,
    work: Seq<Call>,
    commit: Call,
    commit_seq: Option<i64>,
)
    requires
        begin == (Call::Batch { sql: script::begin_sql(), outcome: store::done() }),
        ran_body(request, track, record, work, Ok(commit_seq)),
        commit == (Call::Batch { sql: script::commit_sql(), outcome: store::done() }),
    ensures
        ran_transaction(
            request,
            track,
            record,
            seq![begin] + work + seq![commit],
            request::committed(request.request_id, commit_seq),
        ),
{
    assert forall|rest: Seq<Call>|
        #[trigger] script::run_transaction(
            request,
            track,
            record,
            seq![begin] + work + seq![commit] + rest,
        ) == Some((request::committed(request.request_id, commit_seq), rest)) by {
        assert(seq![begin] + work + seq![commit] + rest =~= seq![begin] + (work + (seq![commit]
            + rest)));
        store::front(begin, work + (seq![commit] + rest));
        store::front(commit, rest);
    }
}

/// The transaction was opened, its work was done, and it could not be committed.
proof fn transaction_not_committed(
    request: request::RequestView,
    track: bool,
    record: Option<(Seq<char>, Seq<char>)>,
    begin: Call,
    work: Seq<Call>,
    commit_seq: Option<i64>,
    commit: Call,
    undo: Seq<Call>,
    e: Seq<char>,
)
    requires
        begin == (Call::Batch { sql: script::begin_sql(), outcome: store::done() }),
        ran_body(request, track, record, work, Ok(commit_seq)),
        commit == (Call::Batch { sql: script::commit_sql(), outcome: store::broken(e) }),
        rolled_back(undo),
    ensures
        ran_transaction(
            request,
            track,
            record,
            seq![begin] + work + seq![commit] + undo,
            request::failed(request.request_id, e),
        ),
{
    assert forall|rest: Seq<Call>|
        #[trigger] script::run_transaction(
            request,
            track,
            record,
            seq![begin] + work + seq![commit] + undo + rest,
        ) == Some((request::failed(request.request_id, e), rest)) by {
        assert(seq![begin] + work + seq![commit] + undo + rest =~= seq![begin] + (work + (
        seq![commit] + (undo + rest))));
        store::front(begin, work + (seq![commit] + (undo + rest)));
        store::front(commit, undo + rest);
    }
}

/// The name of the savepoint of the request at `index`.
fn savepoint_name(index: usize) -> (r: String)
    ensures
        r@ == script::savepoint_name(index as nat),
{
    joined("sp_", &decimal_text(index as u64))
}

/// The statement that opens a savepoint.
fn savepoint_text(index: usize) -> (r: String)
    ensures
        r@ == script::savepoint_sql(index as nat),
{
    joined(&joined("SAVEPOINT ", &savepoint_name(index)), ";")
}

/// The statement that keeps what was done since a savepoint.
fn release_text(index: usize) -> (r: String)
    ensures
        r@ == script::release_sql(index as nat),
{
    joined(&joined("RELEASE ", &savepoint_name(index)), ";")
}

/// The statements that undo what was done since a savepoint.
fn undo_text(index: usize) -> (r: String)
    ensures
        r@ == script::undo_sql(index as nat),
{
    let name = savepoint_name(index);
    joined(&joined(&joined(&joined("ROLLBACK TO ", &name), "; RELEASE "), &name), ";")
}

/// What came of a request of a batch, as a mathematical value.
spec fn run_view(run: (WriteResponse, Option<String>)) -> script::MemberRun {
    script::MemberRun { response: run.0@, lost: request::opt_text(run.1) }
}

/// Whether the calls `t` are those of a request of a batch in its savepoint, with
/// the result `r`.
spec fn ran_savepoint(
    request: request::RequestView,
    index: nat,
    track: bool,
    record: Option<(Seq<char>, Seq<char>)>,
    t: Seq<Call>,
    r: script::MemberRun,
) -> bool {
    forall|rest: Seq<Call>|
        #[trigger] script::run_savepoint(request, index, track, record, t + rest) == Some((r, rest))
}

/// The savepoint could not be opened.
proof fn savepoint_not_begun(
    request: request::RequestView,
    index: nat,
    track: bool,
    record: Option<(Seq<char>, Seq<char>)>,
    begin: Call,
    e: Seq<char>,
)
    requires
        begin == (Call::Batch { sql: script::savepoint_sql(index), outcome: store::broken(e) }),
    ensures
        ran_savepoint(
            request,
            index,
            track,
            record,
            seq![begin],
            script::went_on(request::failed(request.request_id, e)),
        ),
{
    assert forall|rest: Seq<Call>|
        #[trigger] script::run_savepoint(request, index, track, record, seq![begin] + rest) == Some(
            (script::went_on(request::failed(request.request_id, e)), rest),
        ) by {
        store::front(begin, rest);
    }
}

/// The savepoint was opened, and its work failed.
proof fn savepoint_work_failed(
    request: request::RequestView,
    index: nat,
    track: bool,
    record: Option<(Seq<char>, Seq<char>)>,
    begin: Call,
    work: Seq<Call>,
    undo: Call,
    e: Seq<char>,
)
    requires
        begin == (Call::Batch { sql: script::savepoint_sql(index), outcome: store::done() }),
        ran_body(request, track, record, work, Err(e)),
        undo is Batch,
        undo->Batch_sql == script::undo_sql(index),
    ensures
        ran_savepoint(
            request,
            index,
            track,
            record,
            seq![begin] + work + seq![undo],
            script::undone(request::failed(request.request_id, e), undo->Batch_outcome),
        ),
{
    assert forall|rest: Seq<Call>|
        #[trigger] script::run_savepoint(
            request,
            index,
            track,
            record,
            seq![begin] + work + seq![undo] + rest,
        ) == Some(
            (
                script::undone(request::failed(request.request_id, e), undo->Batch_outcome),
                rest,
            ),
        ) by {
        assert(seq![begin] + work + seq![undo] + rest =~= seq![begin] + (work + (seq![undo] + rest)));
        store::front(begin, work + (seq![undo] + rest));
        store::front(undo, rest);
    }
}

/// The savepoint was opened, its work was done, and it was released.
proof fn savepoint_released(
    request: request::RequestView,
    index: nat,
    track: bool,
    record: Option<(Seq<char>, Seq<char>)>,
    begin: Call,
    work: Seq<Call>,
    release: Call,
    commit_seq: Option<i64>,
)
    requires
        begin == (Call::Batch { sql: script::savepoint_sql(index), outcome: store::done() }),
        ran_body(request, track, record, work, Ok(commit_seq)),
        release == (Call::Batch { sql: script::release_sql(index), outcome: store::done() }),
    ensures
        ran_savepoint(
            request,
            index,
            track,
            record,
            seq![begin] + work + seq![release],
            script::went_on(request::committed(request.request_id, commit_seq)),
        ),
{
    assert forall|rest: Seq<Call>|
        #[trigger] script::run_savepoint(
            request,
            index,
            track,
            record,
            seq![begin] + work + seq![release] + rest,
        ) == Some((script::went_on(request::committed(request.request_id, commit_seq)), rest)) by {
        assert(seq![begin] + work + seq![release] + rest =~= seq![begin] + (work + (seq![release]
            + rest)));
        store::front(begin, work + (seq![release] + rest));
        store::front(release, rest);
    }
}

/// The savepoint was opened, its work was done, and it could not be released.
proof fn savepoint_not_released(
    request: request::RequestView,
    index: nat,
    track: bool,
    record: Option<(Seq<char>, Seq<char>)>,
    begin: Call,
    work: Seq<Call>,
    commit_seq: Option<i64>,
    release: Call,
    undo: Call,
    e: Seq<char>,
)
    requires
        begin == (Call::Batch { sql: script::savepoint_sql(index), outcome: store::done() }),
        ran_body(request, track, record, work, Ok(commit_seq)),
        release == (Call::Batch { sql: script::release_sql(index), outcome: store::broken(e) }),
        undo is Batch,
        undo->Batch_sql == script::undo_sql(index),
    ensures
        ran_savepoint(
            request,
            index,
            track,
            record,
            seq![begin] + work + seq![release] + seq![undo],
            script::undone(request::failed(request.request_id, e), undo->Batch_outcome),
        ),
{
    assert forall|rest: Seq<Call>|
        #[trigger] script::run_savepoint(
            request,
            index,
            track,
            record,
            seq![begin] + work + seq![release] + seq![undo] + rest,
        ) == Some(
            (
                script::undone(request::failed(request.request_id, e), undo->Batch_outcome),
                rest,
            ),
        ) by {
        assert(seq![begin] + work + seq![release] + seq![undo] + rest =~= seq![begin] + (work + (
        seq![release] + (seq![undo] + rest))));
        store::front(begin, work + (seq![release] + (seq![undo] + rest)));
        store::front(release, seq![undo] + rest);
        store::front(undo, rest);
    }
}

/// Executes a request of a batch in its savepoint. Where `record` is given, the
/// response is recorded under that key and hash, in the same savepoint. Gives the
/// response and, where what was done could not be undone, why.
fn apply_savepoint(
    conn: &mut Connection,
    request: &WriteRequest,
    index: usize,
    track_commits: bool,
    record: &Option<(String, String)>,
) -> (r: (WriteResponse, Option<String>))
    ensures
        store::grew(store::history(*old(conn)), store::history(*final(conn))),
        ran_savepoint(
            request@,
            index as nat,
            track_commits,
            record_view(*record),
            store::made(store::history(*old(conn)), store::history(*final(conn))),
            run_view(r),
        ),
        record is Some && r.0@.status is Committed ==> script::reads_back(r.0@),
{
    let ghost h0 = store::history(*conn);
    let ghost at = index as nat;
    let ghost rec = record_view(*record);
    let begun = store::execute_batch(conn, &savepoint_text(index));
    let ghost h1 = store::history(*conn);
    let ghost begin = h1.last();
    proof {
        store::made_one(h0, begin);
    }
    if let Err(e) = begun {
        proof {
            savepoint_not_begun(request@, at, track_commits, rec, begin, e@);
        }
        return (WriteResponse::failed(request.request_id.clone(), e), None);
    }
    let worked = run_body(conn, request, track_commits, record);
    let ghost h2 = store::history(*conn);
    let ghost work = store::made(h1, h2);
    proof {
        store::made_join(h0, h1, h2);
    }
    let commit_seq = match worked {
        Ok(seq) => seq,
        Err(e) => {
            let undone = store::execute_batch(conn, &undo_text(index));
            proof {
                let undo = store::history(*conn).last();
                store::made_one(h2, undo);
                store::made_join(h0, h2, store::history(*conn));
                savepoint_work_failed(request@, at, track_commits, rec, begin, work, undo, e@);
            }
            return (WriteResponse::failed(request.request_id.clone(), e), undone.err());
        },
    };
    let released = store::execute_batch(conn, &release_text(index));
    let ghost h3 = store::history(*conn);
    let ghost release = h3.last();
    proof {
        store::made_one(h2, release);
        store::made_join(h0, h2, h3);
    }
    match released {
        Ok(_) => {
            proof {
                savepoint_released(
                    request@,
                    at,
                    track_commits,
                    rec,
                    begin,
                    work,
                    release,
                    commit_seq,
                );
            }
            (WriteResponse::committed(request.request_id.clone(), commit_seq), None)
        },
        Err(e) => {
            let undone = store::execute_batch(conn, &undo_text(index));
            proof {
                let undo = store::history(*conn).last();
                store::made_one(h3, undo);
                store::made_join(h0, h3, store::history(*conn));
                savepoint_not_released(
                    request@,
                    at,
                    track_commits,
                    rec,
                    begin,
                    work,
                    commit_seq,
                    release,
                    undo,
                    e@,
                );
            }
            (WriteResponse::failed(request.request_id.clone(), e), undone.err())
        },
    }
}

/// The refusal of the first operation that may not run, if there is one.
fn check_operations(ops: &Vec<SqlOperation>, config: &GatewayConfig) -> (r: Option<Error>)
    ensures
        match r {
            Some(e) => {
                let why = script::first_refusal(request::operation_views(ops@), *config);
                why is Some && e@ == ErrorView::SqlRejected(why->0)
            },
            None => script::first_refusal(request::operation_views(ops@), *config) is None,
        },
{
    let ghost all = request::operation_views(ops@);
    let n = ops.len();
    assert(all.skip(0) =~= all);
    for i in 0..n
        invariant
            n == ops@.len(),
            all == request::operation_views(ops@),
            script::first_refusal(all, *config) == script::first_refusal(all.skip(i as int), *config),
    {
        assert(all.skip(i as int)[0] == ops@[i as int]@);
        assert(all.skip(i as int).drop_first() =~= all.skip(i + 1));
        if let Err(e) = validate_sql(&ops[i].sql, config) {
            return Some(e);
        }
    }
    None
}

/// What is known of a request before any of its operations is executed.
enum Standing {
    Answered(WriteResponse),
    New(Option<(String, String)>),
}

spec fn standing_view(s: Standing) -> script::Standing {
    match s {
        Standing::Answered(r) => script::Standing::Answered(r@),
        Standing::New(record) => script::Standing::New(record_view(record)),
    }
}

/// The response to a request whose idempotency key was used before.
fn recorded_answer(
    request: &WriteRequest,
    key: &String,
    same_operations: bool,
    json: &Option<String>,
) -> (r: WriteResponse)
    ensures
        forall|hash: Seq<char>|
            same_operations == (hash == request::request_hash(request@.operations)) ==> r@
                == #[trigger] script::recorded_answer(
                request@,
                key@,
                hash,
                request::opt_text(*json),
            ),
{
    if !same_operations {
        let conflict = Error::IdempotencyConflict(key.clone());
        return WriteResponse::failed(request.request_id.clone(), conflict.message());
    }
    if let Some(text) = json {
        if let Some(response) = read_response(text) {
            return response;
        }
    }
    WriteResponse::committed(request.request_id.clone(), None)
}

/// Whether the calls `t` are those of deciding about a request, with the result
/// `r`.
spec fn considered(
    request: request::RequestView,
    config: GatewayConfig,
    idempotency: bool,
    t: Seq<Call>,
    r: script::Standing,
) -> bool {
    forall|rest: Seq<Call>|
        #[trigger] script::consider(request, config, idempotency, t + rest) == Some((r, rest))
}

/// Decides whether a request is executed. No transaction needs to be open.
fn consider(
    conn: &mut Connection,
    request: &WriteRequest,
    config: &GatewayConfig,
    idempotency: bool,
) -> (r: Standing)
    ensures
        store::grew(store::history(*old(conn)), store::history(*final(conn))),
        considered(
            request@,
            *config,
            idempotency,
            store::made(store::history(*old(conn)), store::history(*final(conn))),
            standing_view(r),
        ),
        !ends_in_commit(store::made(store::history(*old(conn)), store::history(*final(conn)))),
{
    let ghost h0 = store::history(*conn);
    proof {
        store::made_none(h0);
        assert forall|rest: Seq<Call>| #[trigger] (store::made(h0, h0) + rest) == rest by {
            assert(store::made(h0, h0) + rest =~= rest);
        }
    }
    if let Some(e) = check_operations(&request.operations, config) {
        return Standing::Answered(WriteResponse::failed(request.request_id.clone(), e.message()));
    }
    if !idempotency {
        return Standing::New(None);
    }
    let key = match &request.idempotency_key {
        Some(key) => key,
        None => {
            return Standing::New(None);
        },
    };
    let hash = hash_operations(&request.operations);
    let found = store::lookup(
        conn,
        "SELECT request_hash, response_json FROM squeuelite_requests WHERE idempotency_key = ?1",
        key,
    );
    let ghost h1 = store::history(*conn);
    let ghost call = h1.last();
    proof {
        store::made_one(h0, call);
        assert forall|rest: Seq<Call>|
            script::after_lookup(
                #[trigger] (seq![call] + rest),
                script::find_response_sql(),
                key@,
            ) == Some((store::lookup_view(found), rest)) by {
            store::front(call, rest);
        }
    }
    match found {
        Ok(Some((stored_hash, json))) => {
            let same = stored_hash == hash;
            let answer = recorded_answer(request, key, same, &json);
            assert(answer@ == script::recorded_answer(
                request@,
                key@,
                stored_hash@,
                request::opt_text(json),
            ));
            Standing::Answered(answer)
        },
        Ok(None) => Standing::New(Some((key.clone(), hash))),
        Err(e) => Standing::Answered(WriteResponse::failed(request.request_id.clone(), e)),
    }
}

/// The microseconds from `start` to the instant of the call.
fn micros_since(start: &std::time::Instant) -> (r: u64)
    ensures
        exists|now: std::time::Instant| r == #[trigger] latency::micros_between(*start, now),
{
    let passed = start.elapsed();
    let ghost now = choose|now: std::time::Instant|
        passed == #[trigger] latency::time_between(*start, now);
    let micros: u64 = passed.as_micros() as u64;
    assert(micros == latency::micros_between(*start, now));
    micros
}

/// Owns the connection and executes requests on it.
pub struct Writer {
    conn: Connection,
    track_commits: bool,
    idempotency: bool,
    config: GatewayConfig,
    latency: LatencyBuffer,
}

/// Whether the last of some calls is a commit that succeeded.
pub open spec fn ends_in_commit(t: Seq<Call>) -> bool {
    t.len() > 0 && (t.last() matches Call::Batch { sql, outcome } && sql == "COMMIT"@
        && outcome is Ok)
}

/// Whether the measurements `after` are those of `before` and, where something
/// was committed, one more, in microseconds.
pub open spec fn measured(t: Seq<Call>, before: Seq<u64>, after: Seq<u64>) -> bool {
    if ends_in_commit(t) {
        exists|micros: u64|
            latency::is_measurement(micros) && after == #[trigger] latency::pushed(before, micros)
    } else {
        after == before
    }
}

/// The call that moves the write-ahead log to the database file, with its
/// outcome.
pub open spec fn checkpoint_call(r: Result<(), Error>) -> Call {
    Call::Batch {
        sql: "PRAGMA wal_checkpoint(TRUNCATE);"@,
        outcome: match r {
            Ok(_) => Ok(()),
            Err(e) => Err(e@->Sqlite_0),
        },
    }
}

/// The requests of a batch.
pub open spec fn batch_requests<T>(batch: Seq<(WriteRequest, T)>) -> Seq<request::RequestView> {
    Seq::new(batch.len(), |i: int| batch[i].0@)
}

/// The responses of a batch.
pub open spec fn batch_responses<T>(replies: Seq<(T, WriteResponse)>) -> Seq<
    request::ResponseView,
> {
    Seq::new(replies.len(), |i: int| replies[i].1@)
}

/// Whether each reply goes to whoever sent the request at the same place.
pub open spec fn addressed<T>(batch: Seq<(WriteRequest, T)>, replies: Seq<(T, WriteResponse)>) -> bool {
    replies.len() == batch.len() && forall|i: int|
        0 <= i < batch.len() ==> (#[trigger] replies[i]).0 == batch[i].1
}

/// Fails every request of a batch for the same reason.
fn fail_all<T>(batch: Vec<(WriteRequest, T)>, e: &String) -> (r: Vec<(T, WriteResponse)>)
    ensures
        addressed(batch@, r@),
        batch_responses(r@) == Seq::new(
            batch@.len(),
            |i: int| request::failed(batch_requests(batch@)[i].request_id, e@),
        ),
{
    let ghost parts = batch@;
    let mut out: Vec<(T, WriteResponse)> = Vec::new();
    for x in it: batch
        invariant
            it.seq() == parts,
            out@.len() == it.index(),
            forall|k: int|
                0 <= k < it.index() ==> (#[trigger] out@[k]).0 == parts[k].1 && out@[k].1@
                    == request::failed(parts[k].0@.request_id, e@),
    {
        let (request, reply_to) = x;
        out.push((reply_to, WriteResponse::failed(request.request_id, e.clone())));
    }
    assert(batch_responses(out@) =~= Seq::new(
        parts.len(),
        |i: int| request::failed(batch_requests(parts)[i].request_id, e@),
    ));
    out
}

/// Turns every response that reports a commit into a failure: the batch's
/// transaction could not be committed.
fn withdraw_all<T>(replies: Vec<(T, WriteResponse)>, e: &String) -> (r: Vec<(T, WriteResponse)>)
    ensures
        r@.len() == replies@.len(),
        forall|i: int| 0 <= i < r@.len() ==> (#[trigger] r@[i]).0 == replies@[i].0,
        batch_responses(r@) == Seq::new(
            replies@.len(),
            |i: int| script::withdrawn(batch_responses(replies@)[i], e@),
        ),
{
    let ghost parts = replies@;
    let mut out: Vec<(T, WriteResponse)> = Vec::new();
    for x in it: replies
        invariant
            it.seq() == parts,
            out@.len() == it.index(),
            forall|k: int|
                0 <= k < it.index() ==> (#[trigger] out@[k]).0 == parts[k].0 && out@[k].1@
                    == script::withdrawn(parts[k].1@, e@),
    {
        let (reply_to, response) = x;
        let answer = match response.status {
            WriteStatus::Committed => WriteResponse::failed(response.request_id, e.clone()),
            WriteStatus::Failed => response,
        };
        out.push((reply_to, answer));
    }
    assert(batch_responses(out@) =~= Seq::new(
        parts.len(),
        |i: int| script::withdrawn(batch_responses(parts)[i], e@),
    ));
    out
}

/// Whether the calls `t` are those of the requests of a batch, with this result.
spec fn ran_members(
    rs: Seq<request::RequestView>,
    config: GatewayConfig,
    track: bool,
    idempotency: bool,
    t: Seq<Call>,
    run: script::BatchRun,
) -> bool {
    forall|rest: Seq<Call>|
        #[trigger] script::run_members(
            rs,
            0,
            config,
            track,
            idempotency,
            Seq::empty(),
            t + rest,
        ) == Some((run, rest))
}

/// Whether, after the calls `t` of the requests of a batch, the responses that were
/// recorded can be read back.
spec fn recorded_members(
    rs: Seq<request::RequestView>,
    config: GatewayConfig,
    track: bool,
    idempotency: bool,
    t: Seq<Call>,
) -> bool {
    forall|rest: Seq<Call>|
        #[trigger] script::records_read_back(rs, 0, config, track, idempotency, t + rest)
}

/// Whether the calls `t` are those of the request at `index` of a batch, with the
/// result `r`, whose response can be read back if it was recorded.
spec fn ran_member(
    request: request::RequestView,
    index: nat,
    config: GatewayConfig,
    track: bool,
    idempotency: bool,
    t: Seq<Call>,
    r: script::MemberRun,
) -> bool {
    &&& forall|rest: Seq<Call>|
        #[trigger] script::run_member(request, index, config, track, idempotency, t + rest) == Some(
            (r, rest),
        )
    &&& forall|rest: Seq<Call>|
        #[trigger] script::record_reads_back(request, config, idempotency, t + rest, r.response)
}

/// A request of a batch was answered before anything was executed.
proof fn member_answered(
    request: request::RequestView,
    index: nat,
    config: GatewayConfig,
    track: bool,
    idempotency: bool,
    decided: Seq<Call>,
    r: request::ResponseView,
)
    requires
        considered(request, config, idempotency, decided, script::Standing::Answered(r)),
    ensures
        ran_member(request, index, config, track, idempotency, decided, script::went_on(r)),
{
    assert forall|rest: Seq<Call>|
        #[trigger] script::record_reads_back(request, config, idempotency, decided + rest, r) by {
        assert(script::consider(request, config, idempotency, decided + rest) == Some(
            (script::Standing::Answered(r), rest),
        ));
    }
}

/// A request of a batch was executed in its savepoint.
proof fn member_executed(
    request: request::RequestView,
    index: nat,
    config: GatewayConfig,
    track: bool,
    idempotency: bool,
    decided: Seq<Call>,
    record: Option<(Seq<char>, Seq<char>)>,
    work: Seq<Call>,
    r: script::MemberRun,
)
    requires
        considered(request, config, idempotency, decided, script::Standing::New(record)),
        ran_savepoint(request, index, track, record, work, r),
        record is Some && r.response.status is Committed ==> script::reads_back(r.response),
    ensures
        ran_member(request, index, config, track, idempotency, decided + work, r),
{
    assert forall|rest: Seq<Call>|
        #[trigger] script::run_member(
            request,
            index,
            config,
            track,
            idempotency,
            decided + work + rest,
        ) == Some((r, rest)) by {
        assert(decided + work + rest =~= decided + (work + rest));
    }
    assert forall|rest: Seq<Call>|
        #[trigger] script::record_reads_back(
            request,
            config,
            idempotency,
            decided + work + rest,
            r.response,
        ) by {
        assert(decided + work + rest =~= decided + (work + rest));
    }
}

/// Executes one request of a batch, whose transaction is open. Gives the response and,
/// where the transaction cannot go on, why.
fn apply_member(
    conn: &mut Connection,
    request: &WriteRequest,
    index: usize,
    config: &GatewayConfig,
    track_commits: bool,
    idempotency: bool,
) -> (r: (WriteResponse, Option<String>))
    ensures
        store::grew(store::history(*old(conn)), store::history(*final(conn))),
        ran_member(
            request@,
            index as nat,
            *config,
            track_commits,
            idempotency,
            store::made(store::history(*old(conn)), store::history(*final(conn))),
            run_view(r),
        ),
{
    let ghost h0 = store::history(*conn);
    let ghost at = index as nat;
    let standing = consider(conn, request, config, idempotency);
    let ghost h1 = store::history(*conn);
    let ghost decided = store::made(h0, h1);
    match standing {
        Standing::Answered(response) => {
            proof {
                member_answered(
                    request@,
                    at,
                    *config,
                    track_commits,
                    idempotency,
                    decided,
                    response@,
                );
            }
            (response, None)
        },
        Standing::New(record) => {
            let run = apply_savepoint(conn, request, index, track_commits, &record);
            let ghost h2 = store::history(*conn);
            proof {
                store::made_join(h0, h1, h2);
                member_executed(
                    request@,
                    at,
                    *config,
                    track_commits,
                    idempotency,
                    decided,
                    record_view(record),
                    store::made(h1, h2),
                    run_view(run),
                );
            }
            run
        },
    }
}

/// Whether the calls `t` are those of the first `done.len()` requests of a batch,
/// with the responses `done`; those that were recorded can be read back.
spec fn ran_first_members(
    rs: Seq<request::RequestView>,
    config: GatewayConfig,
    track: bool,
    idempotency: bool,
    t: Seq<Call>,
    done: Seq<request::ResponseView>,
) -> bool {
    &&& forall|rest: Seq<Call>|
        #[trigger] script::run_members(
            rs,
            0,
            config,
            track,
            idempotency,
            Seq::empty(),
            t + rest,
        ) == script::run_members(rs, done.len(), config, track, idempotency, done, rest)
    &&& forall|rest: Seq<Call>|
        #[trigger] script::records_read_back(rs, 0, config, track, idempotency, t + rest)
            == script::records_read_back(rs, done.len(), config, track, idempotency, rest)
}

/// No request of a batch was looked at yet.
proof fn no_members(
    rs: Seq<request::RequestView>,
    config: GatewayConfig,
    track: bool,
    idempotency: bool,
)
    ensures
        ran_first_members(rs, config, track, idempotency, Seq::empty(), Seq::empty()),
{
    assert forall|rest: Seq<Call>| #[trigger] (Seq::<Call>::empty() + rest) == rest by {
        assert(Seq::<Call>::empty() + rest =~= rest);
    }
}

/// One more request of a batch was executed, and the transaction goes on.
proof fn one_more_member(
    rs: Seq<request::RequestView>,
    config: GatewayConfig,
    track: bool,
    idempotency: bool,
    t: Seq<Call>,
    done: Seq<request::ResponseView>,
    work: Seq<Call>,
    response: request::ResponseView,
)
    requires
        done.len() < rs.len(),
        ran_first_members(rs, config, track, idempotency, t, done),
        ran_member(
            rs[done.len() as int],
            done.len(),
            config,
            track,
            idempotency,
            work,
            script::went_on(response),
        ),
    ensures
        ran_first_members(rs, config, track, idempotency, t + work, done.push(response)),
{
    let at = done.len();
    assert forall|rest: Seq<Call>|
        #[trigger] script::run_members(
            rs,
            0,
            config,
            track,
            idempotency,
            Seq::empty(),
            t + work + rest,
        ) == script::run_members(
            rs,
            at + 1,
            config,
            track,
            idempotency,
            done.push(response),
            rest,
        ) by {
        assert(t + work + rest =~= t + (work + rest));
        assert(script::run_member(rs[at as int], at, config, track, idempotency, work + rest)
            == Some((script::went_on(response), rest)));
    }
    assert forall|rest: Seq<Call>|
        #[trigger] script::records_read_back(rs, 0, config, track, idempotency, t + work + rest)
            == script::records_read_back(rs, at + 1, config, track, idempotency, rest) by {
        assert(t + work + rest =~= t + (work + rest));
        assert(script::run_member(rs[at as int], at, config, track, idempotency, work + rest)
            == Some((script::went_on(response), rest)));
        assert(script::record_reads_back(
            rs[at as int],
            config,
            idempotency,
            work + rest,
            response,
        ));
    }
}

/// Whether the calls `t` are those of a batch up to a request after which the
/// transaction cannot go on. `done` holds the first responses; the others are those
/// to requests that are not executed.
spec fn ran_until_lost(
    rs: Seq<request::RequestView>,
    config: GatewayConfig,
    track: bool,
    idempotency: bool,
    t: Seq<Call>,
    done: Seq<request::ResponseView>,
    why: Seq<char>,
) -> bool {
    ran_members(
        rs,
        config,
        track,
        idempotency,
        t,
        script::BatchRun {
            responses: done + script::not_executed(rs, done.len(), why),
            lost: Some(why),
        },
    )
}

/// One more request of a batch was executed, and the transaction cannot go on.
proof fn last_member(
    rs: Seq<request::RequestView>,
    config: GatewayConfig,
    track: bool,
    idempotency: bool,
    t: Seq<Call>,
    done: Seq<request::ResponseView>,
    work: Seq<Call>,
    run: script::MemberRun,
)
    requires
        done.len() < rs.len(),
        run.lost is Some,
        ran_first_members(rs, config, track, idempotency, t, done),
        ran_member(rs[done.len() as int], done.len(), config, track, idempotency, work, run),
    ensures
        ran_until_lost(
            rs,
            config,
            track,
            idempotency,
            t + work,
            done.push(run.response),
            run.lost->0,
        ),
{
    let at = done.len();
    assert forall|rest: Seq<Call>|
        #[trigger] script::run_members(
            rs,
            0,
            config,
            track,
            idempotency,
            Seq::empty(),
            t + work + rest,
        ) == Some(
            (
                script::BatchRun {
                    responses: done.push(run.response) + script::not_executed(
                        rs,
                        at + 1,
                        run.lost->0,
                    ),
                    lost: run.lost,
                },
                rest,
            ),
        ) by {
        assert(t + work + rest =~= t + (work + rest));
        assert(script::run_member(rs[at as int], at, config, track, idempotency, work + rest)
            == Some((run, rest)));
    }
}

/// One more request of a batch is not executed.
proof fn one_more_left_out(
    rs: Seq<request::RequestView>,
    config: GatewayConfig,
    track: bool,
    idempotency: bool,
    t: Seq<Call>,
    done: Seq<request::ResponseView>,
    why: Seq<char>,
)
    requires
        done.len() < rs.len(),
        ran_until_lost(rs, config, track, idempotency, t, done, why),
    ensures
        ran_until_lost(
            rs,
            config,
            track,
            idempotency,
            t,
            done.push(request::failed(rs[done.len() as int].request_id, why)),
            why,
        ),
{
    let more = done.push(request::failed(rs[done.len() as int].request_id, why));
    assert(done + script::not_executed(rs, done.len(), why) =~= more + script::not_executed(
        rs,
        more.len(),
        why,
    ));
}

/// What is known of a batch after the first `done.len()` of its requests.
spec fn ran_so_far(
    rs: Seq<request::RequestView>,
    config: GatewayConfig,
    track: bool,
    idempotency: bool,
    t: Seq<Call>,
    done: Seq<request::ResponseView>,
    lost: Option<Seq<char>>,
) -> bool {
    match lost {
        None => ran_first_members(rs, config, track, idempotency, t, done),
        Some(why) => ran_until_lost(rs, config, track, idempotency, t, done, why),
    }
}

/// All requests of a batch were looked at.
proof fn all_members(
    rs: Seq<request::RequestView>,
    config: GatewayConfig,
    track: bool,
    idempotency: bool,
    t: Seq<Call>,
    done: Seq<request::ResponseView>,
    lost: Option<Seq<char>>,
)
    requires
        done.len() == rs.len(),
        ran_so_far(rs, config, track, idempotency, t, done, lost),
    ensures
        ran_members(
            rs,
            config,
            track,
            idempotency,
            t,
            (script::BatchRun { responses: done, lost }),
        ),
        lost is None ==> recorded_members(rs, config, track, idempotency, t),
{
    if let Some(why) = lost {
        assert(done + script::not_executed(rs, done.len(), why) =~= done);
    }
}

/// Executes the requests of a batch, whose transaction is open, one after the
/// other, up to the first after which the transaction cannot go on. Gives all
/// responses and, where the transaction cannot go on, why.
fn apply_members<T>(
    conn: &mut Connection,
    batch: Vec<(WriteRequest, T)>,
    config: &GatewayConfig,
    track_commits: bool,
    idempotency: bool,
) -> (r: (Vec<(T, WriteResponse)>, Option<String>))
    ensures
        store::grew(store::history(*old(conn)), store::history(*final(conn))),
        addressed(batch@, r.0@),
        ran_members(
            batch_requests(batch@),
            *config,
            track_commits,
            idempotency,
            store::made(store::history(*old(conn)), store::history(*final(conn))),
            (script::BatchRun { responses: batch_responses(r.0@), lost: request::opt_text(r.1) }),
        ),
        r.1 is None ==> recorded_members(
            batch_requests(batch@),
            *config,
            track_commits,
            idempotency,
            store::made(store::history(*old(conn)), store::history(*final(conn))),
        ),
{
    let ghost h0 = store::history(*conn);
    let ghost parts = batch@;
    let ghost rs = batch_requests(batch@);
    let mut out: Vec<(T, WriteResponse)> = Vec::new();
    let mut lost: Option<String> = None;
    proof {
        store::made_none(h0);
        no_members(rs, *config, track_commits, idempotency);
        assert(batch_responses(out@) =~= Seq::empty());
    }
    for x in it: batch
        invariant
            it.seq() == parts,
            rs == batch_requests(parts),
            h0 == store::history(*old(conn)),
            store::grew(h0, store::history(*conn)),
            out@.len() == it.index(),
            forall|k: int| 0 <= k < it.index() ==> (#[trigger] out@[k]).0 == parts[k].1,
            ran_so_far(
                rs,
                *config,
                track_commits,
                idempotency,
                store::made(h0, store::history(*conn)),
                batch_responses(out@),
                request::opt_text(lost),
            ),
    {
        let ghost h1 = store::history(*conn);
        let ghost t1 = store::made(h0, h1);
        let ghost before = batch_responses(out@);
        let (request, reply_to) = x;
        let index: usize = out.len();
        assert(rs[index as int] == request@);
        match lost {
            Some(why) => {
                let response = WriteResponse::failed(request.request_id.clone(), why.clone());
                out.push((reply_to, response));
                proof {
                    one_more_left_out(
                        rs,
                        *config,
                        track_commits,
                        idempotency,
                        t1,
                        before,
                        why@,
                    );
                    assert(batch_responses(out@) =~= before.push(response@));
                }
                lost = Some(why);
            },
            None => {
                let run = apply_member(
                    conn,
                    &request,
                    index,
                    config,
                    track_commits,
                    idempotency,
                );
                let ghost h2 = store::history(*conn);
                let ghost work = store::made(h1, h2);
                let (response, failure) = run;
                out.push((reply_to, response));
                proof {
                    store::made_join(h0, h1, h2);
                    assert(batch_responses(out@) =~= before.push(response@));
                    if failure is None {
                        assert(run_view(run) == script::went_on(response@));
                        one_more_member(
                            rs,
                            *config,
                            track_commits,
                            idempotency,
                            t1,
                            before,
                            work,
                            response@,
                        );
                    } else {
                        last_member(
                            rs,
                            *config,
                            track_commits,
                            idempotency,
                            t1,
                            before,
                            work,
                            run_view(run),
                        );
                    }
                }
                lost = failure;
            },
        }
    }
    proof {
        all_members(
            rs,
            *config,
            track_commits,
            idempotency,
            store::made(h0, store::history(*conn)),
            batch_responses(out@),
            request::opt_text(lost),
        );
    }
    (out, lost)
}

/// The transaction of a batch could not be opened.
proof fn batch_not_begun(
    rs: Seq<request::RequestView>,
    config: GatewayConfig,
    track: bool,
    idempotency: bool,
    begin: Call,
    e: Seq<char>,
)
    requires
        begin == (Call::Batch { sql: script::begin_sql(), outcome: store::broken(e) }),
    ensures
        script::run_batch(rs, config, track, idempotency, seq![begin]) == script::ended(
            Seq::new(rs.len(), |i: int| request::failed(rs[i].request_id, e)),
        ),
{
    assert(seq![begin].drop_first() =~= Seq::<Call>::empty());
}

/// The transaction of a batch was opened, its requests were executed, and it was
/// committed.
proof fn batch_committed(
    rs: Seq<request::RequestView>,
    config: GatewayConfig,
    track: bool,
    idempotency: bool,
    begin: Call,
    work: Seq<Call>,
    responses: Seq<request::ResponseView>,
    commit: Call,
)
    requires
        begin == (Call::Batch { sql: script::begin_sql(), outcome: store::done() }),
        ran_members(
            rs,
            config,
            track,
            idempotency,
            work,
            (script::BatchRun { responses, lost: None }),
        ),
        recorded_members(rs, config, track, idempotency, work),
        commit == (Call::Batch { sql: script::commit_sql(), outcome: store::done() }),
    ensures
        script::run_batch(rs, config, track, idempotency, seq![begin] + work + seq![commit])
            == script::ended(responses),
        script::records_read_back(
            rs,
            0,
            config,
            track,
            idempotency,
            (seq![begin] + work + seq![commit]).drop_first(),
        ),
{
    assert(seq![begin] + work + seq![commit] =~= seq![begin] + (work + seq![commit]));
    store::front(begin, work + seq![commit]);
    assert(seq![commit].drop_first() =~= Seq::<Call>::empty());
}

/// The transaction of a batch was opened, its requests were executed, and it could
/// not be committed.
proof fn batch_not_committed(
    rs: Seq<request::RequestView>,
    config: GatewayConfig,
    track: bool,
    idempotency: bool,
    begin: Call,
    work: Seq<Call>,
    responses: Seq<request::ResponseView>,
    commit: Call,
    undo: Seq<Call>,
    e: Seq<char>,
)
    requires
        begin == (Call::Batch { sql: script::begin_sql(), outcome: store::done() }),
        ran_members(
            rs,
            config,
            track,
            idempotency,
            work,
            (script::BatchRun { responses, lost: None }),
        ),
        commit == (Call::Batch { sql: script::commit_sql(), outcome: store::broken(e) }),
        rolled_back(undo),
    ensures
        script::run_batch(rs, config, track, idempotency, seq![begin] + work + seq![commit] + undo)
            == script::ended(
            Seq::new(responses.len(), |i: int| script::withdrawn(responses[i], e)),
        ),
{
    let none = Seq::<Call>::empty();
    assert(seq![begin] + work + seq![commit] + undo =~= seq![begin] + (work + (seq![commit] + (undo
        + none))));
    store::front(begin, work + (seq![commit] + (undo + none)));
    store::front(commit, undo + none);
}

/// The transaction of a batch was opened, and could not go on.
proof fn batch_lost(
    rs: Seq<request::RequestView>,
    config: GatewayConfig,
    track: bool,
    idempotency: bool,
    begin: Call,
    work: Seq<Call>,
    responses: Seq<request::ResponseView>,
    undo: Seq<Call>,
    e: Seq<char>,
)
    requires
        begin == (Call::Batch { sql: script::begin_sql(), outcome: store::done() }),
        ran_members(
            rs,
            config,
            track,
            idempotency,
            work,
            (script::BatchRun { responses, lost: Some(e) }),
        ),
        rolled_back(undo),
    ensures
        script::run_batch(rs, config, track, idempotency, seq![begin] + work + undo)
            == script::ended(
            Seq::new(responses.len(), |i: int| script::withdrawn(responses[i], e)),
        ),
{
    let none = Seq::<Call>::empty();
    assert(seq![begin] + work + undo =~= seq![begin] + (work + (undo + none)));
    store::front(begin, work + (undo + none));
}

/// Whether a writer went from `before` to `after` by executing one request, with
/// the response `r`. A response that was recorded can be read back.
pub open spec fn applied(
    before: Writer,
    after: Writer,
    request: request::RequestView,
    r: request::ResponseView,
) -> bool {
    let t = store::made(before.calls(), after.calls());
    &&& store::grew(before.calls(), after.calls())
    &&& script::run_request(
        request,
        before.settings(),
        before.tracks_commits(),
        before.keeps_responses(),
        t,
    ) == script::ended(r)
    &&& ends_in_commit(t) && before.keeps_responses() && request.idempotency_key is Some
        ==> script::reads_back(r)
    &&& after.set_up_like(&before)
    &&& measured(t, before.latencies(), after.latencies())
}

/// Whether a writer went from `before` to `after` by executing requests in one
/// transaction, with these responses. Those that were recorded can be read back.
pub open spec fn batch_applied(
    before: Writer,
    after: Writer,
    rs: Seq<request::RequestView>,
    responses: Seq<request::ResponseView>,
) -> bool {
    let t = store::made(before.calls(), after.calls());
    &&& store::grew(before.calls(), after.calls())
    &&& script::run_batch(
        rs,
        before.settings(),
        before.tracks_commits(),
        before.keeps_responses(),
        t,
    ) == script::ended(responses)
    &&& ends_in_commit(t) ==> script::records_read_back(
        rs,
        0,
        before.settings(),
        before.tracks_commits(),
        before.keeps_responses(),
        t.drop_first(),
    )
    &&& after.set_up_like(&before)
    &&& measured(t, before.latencies(), after.latencies())
}

/// Whether a writer went from `before` to `after` by moving the write-ahead log
/// to the database file, with the result `r`.
pub open spec fn checkpointed(before: Writer, after: Writer, r: Result<(), Error>) -> bool {
    &&& after.calls() == before.calls().push(checkpoint_call(r))
    &&& r matches Err(e) ==> e@ is Sqlite
    &&& after.set_up_like(&before)
    &&& after.latencies() == before.latencies()
}

impl Writer {
    /// The calls that were made on the connection.
    pub closed spec fn calls(&self) -> Seq<Call> {
        store::history(self.conn)
    }

    /// The configuration.
    pub closed spec fn settings(&self) -> GatewayConfig {
        self.config
    }

    /// Whether commits are recorded and numbered.
    pub closed spec fn tracks_commits(&self) -> bool {
        self.track_commits
    }

    /// Whether idempotency keys are looked at.
    pub closed spec fn keeps_responses(&self) -> bool {
        self.idempotency
    }

    /// The measured times of the last commits.
    pub closed spec fn latencies(&self) -> Seq<u64> {
        self.latency@
    }

    /// Whether two writers are set up alike.
    pub open spec fn set_up_like(&self, other: &Writer) -> bool {
        &&& self.settings() == other.settings()
        &&& self.tracks_commits() == other.tracks_commits()
        &&& self.keeps_responses() == other.keeps_responses()
    }

    /// A writer on a connection that has been set up.
    pub fn new(conn: Connection, track_commits: bool, idempotency: bool, config: GatewayConfig) -> (r:
        Self)
        ensures
            r.calls() == store::history(conn),
            r.tracks_commits() == track_commits,
            r.keeps_responses() == idempotency,
            r.settings() == config,
            r.latencies() == Seq::<u64>::empty(),
    {
        Writer { conn, track_commits, idempotency, config, latency: LatencyBuffer::new() }
    }

    /// Sets a new connection up and makes a writer on it: the settings are
    /// applied, and the gateway's own tables are created where they are missing.
    pub fn open(conn: Connection, config: GatewayConfig) -> (r: Result<Self, Error>)
        requires
            config.busy_timeout_ms <= i32::MAX,
        ensures
            match r {
                Ok(w) => {
                    &&& store::grew(store::history(conn), w.calls())
                    &&& script::set_up(config, store::made(store::history(conn), w.calls()))
                        == script::ended(Ok::<(), ErrorView>(()))
                    &&& w.settings() == config
                    &&& w.tracks_commits() == config.track_commits
                    &&& w.keeps_responses() == config.idempotency
                    &&& w.latencies() == Seq::<u64>::empty()
                },
                Err(e) => exists|after: Connection|
                    store::grew(store::history(conn), #[trigger] store::history(after))
                        && script::set_up(
                        config,
                        store::made(store::history(conn), store::history(after)),
                    ) == script::ended(Err::<(), ErrorView>(e@)),
            },
    {
        let mut conn = conn;
        let ghost none = Seq::<Call>::empty();
        let ghost h0 = store::history(conn);
        let applied = store::apply_pragmas(&mut conn, &config);
        let ghost h1 = store::history(conn);
        let ghost t1 = store::made(h0, h1);
        if let Err(e) = applied {
            assert(script::set_up(config, t1) == script::ended(Err::<(), ErrorView>(e@)));
            return Err(e);
        }
        let created = store::run_migrations(&mut conn, config.track_commits, config.idempotency);
        let ghost h2 = store::history(conn);
        let ghost t2 = store::made(h1, h2);
        proof {
            store::made_join(h0, h1, h2);
            script::set_pragmas_then(config, t1, t2);
            assert(none + t2 =~= t2);
        }
        if let Err(e) = created {
            assert(script::set_up(config, t1 + t2) == script::ended(Err::<(), ErrorView>(e@)));
            return Err(e);
        }
        let track_commits = config.track_commits;
        let idempotency = config.idempotency;
        Ok(Writer::new(conn, track_commits, idempotency, config))
    }

    /// Executes a request in a transaction of its own. Where `record` is given,
    /// the response is recorded under that key and hash, in the same transaction.
    fn apply_inner(&mut self, request: &WriteRequest, record: &Option<(String, String)>) -> (r:
        WriteResponse)
        ensures
            store::grew(old(self).calls(), final(self).calls()),
            ran_transaction(
                request@,
                old(self).tracks_commits(),
                record_view(*record),
                store::made(old(self).calls(), final(self).calls()),
                r@,
            ),
            final(self).set_up_like(old(self)),
            measured(
                store::made(old(self).calls(), final(self).calls()),
                old(self).latencies(),
                final(self).latencies(),
            ),
            ends_in_commit(store::made(old(self).calls(), final(self).calls())) && record is Some
                ==> script::reads_back(r@),
    {
        let ghost h0 = self.calls();
        let ghost track = self.track_commits;
        let ghost rec = record_view(*record);
        let start = std::time::Instant::now();
        let begun = store::execute_batch(&mut self.conn, "BEGIN IMMEDIATE");
        let ghost h1 = self.calls();
        let ghost begin = h1.last();
        proof {
            store::made_one(h0, begin);
        }
        if let Err(e) = begun {
            proof {
                transaction_not_begun(request@, track, rec, begin, e@);
            }
            return WriteResponse::failed(request.request_id.clone(), e);
        }
        let worked = run_body(&mut self.conn, request, self.track_commits, record);
        let ghost h2 = self.calls();
        let ghost work = store::made(h1, h2);
        proof {
            store::made_join(h0, h1, h2);
        }
        let commit_seq = match worked {
            Ok(seq) => seq,
            Err(e) => {
                roll_back(&mut self.conn);
                proof {
                    store::made_join(h0, h2, self.calls());
                    transaction_work_failed(
                        request@,
                        track,
                        rec,
                        begin,
                        work,
                        store::made(h2, self.calls()),
                        e@,
                    );
                }
                return WriteResponse::failed(request.request_id.clone(), e);
            },
        };
        let committed = store::execute_batch(&mut self.conn, "COMMIT");
        let ghost h3 = self.calls();
        let ghost commit = h3.last();
        proof {
            store::made_one(h2, commit);
            store::made_join(h0, h2, h3);
        }
        match committed {
            Ok(_) => {
                let micros: u64 = micros_since(&start);
                self.latency.push(micros);
                proof {
                    transaction_committed(request@, track, rec, begin, work, commit, commit_seq);
                }
                WriteResponse::committed(request.request_id.clone(), commit_seq)
            },
            Err(e) => {
                roll_back(&mut self.conn);
                proof {
                    store::made_join(h0, h3, self.calls());
                    transaction_not_committed(
                        request@,
                        track,
                        rec,
                        begin,
                        work,
                        commit_seq,
                        commit,
                        store::made(h3, self.calls()),
                        e@,
                    );
                }
                WriteResponse::failed(request.request_id.clone(), e)
            },
        }
    }

    /// Executes one request and gives its response.
    ///
    /// The statements are checked first. A request whose idempotency key was used
    /// before is answered from the record. Any other is executed in a transaction
    /// of its own: either all of its operations are committed, with the records
    /// of the commit and of the response, or none is.
    pub fn apply(&mut self, request: WriteRequest) -> (r: WriteResponse)
        ensures
            applied(*old(self), *final(self), request@, r@),
    {
        let ghost h0 = self.calls();
        let standing = consider(&mut self.conn, &request, &self.config, self.idempotency);
        let ghost h1 = self.calls();
        let ghost decided = store::made(h0, h1);
        match standing {
            Standing::Answered(response) => {
                assert(decided + Seq::<Call>::empty() =~= decided);
                response
            },
            Standing::New(record) => {
                let response = self.apply_inner(&request, &record);
                proof {
                    let ran = store::made(h1, self.calls());
                    store::made_join(h0, h1, self.calls());
                    assert(ran + Seq::<Call>::empty() =~= ran);
                    assert(script::run_transaction(
                        request@,
                        self.track_commits,
                        record_view(record),
                        ran + Seq::<Call>::empty(),
                    ) == script::ended(response@));
                    if ran.len() == 0 {
                        assert(decided + ran =~= decided);
                    }
                }
                response
            },
        }
    }

    /// Executes requests together in one transaction, each in a savepoint of its
    /// own, so that one that fails leaves the others alone. Each response goes
    /// with what was given beside its request, in the same order. Where one that
    /// failed cannot be undone, as after a statement that ended the transaction, no
    /// other is executed, and all fail.
    ///
    /// The requests are checked, and those with an idempotency key looked up, as
    /// [`Writer::apply`] does it.
    pub fn apply_batch<T>(&mut self, batch: Vec<(WriteRequest, T)>) -> (r: Vec<(T, WriteResponse)>)
        ensures
            addressed(batch@, r@),
            batch_applied(*old(self), *final(self), batch_requests(batch@), batch_responses(r@)),
    {
        let ghost h0 = self.calls();
        let ghost rs = batch_requests(batch@);
        let start = std::time::Instant::now();
        let begun = store::execute_batch(&mut self.conn, "BEGIN IMMEDIATE");
        let ghost h1 = self.calls();
        let ghost begin = h1.last();
        proof {
            store::made_one(h0, begin);
        }
        if let Err(e) = begun {
            proof {
                batch_not_begun(rs, self.config, self.track_commits, self.idempotency, begin, e@);
            }
            return fail_all(batch, &e);
        }
        let (replies, lost) = apply_members(
            &mut self.conn,
            batch,
            &self.config,
            self.track_commits,
            self.idempotency,
        );
        let ghost h2 = self.calls();
        let ghost work = store::made(h1, h2);
        let ghost responses = batch_responses(replies@);
        proof {
            store::made_join(h0, h1, h2);
        }
        if let Some(e) = lost {
            roll_back(&mut self.conn);
            proof {
                let undo = store::made(h2, self.calls());
                store::made_join(h0, h2, self.calls());
                batch_lost(
                    rs,
                    self.config,
                    self.track_commits,
                    self.idempotency,
                    begin,
                    work,
                    responses,
                    undo,
                    e@,
                );
            }
            return withdraw_all(replies, &e);
        }
        let committed = store::execute_batch(&mut self.conn, "COMMIT");
        let ghost h3 = self.calls();
        let ghost commit = h3.last();
        proof {
            store::made_one(h2, commit);
            store::made_join(h0, h2, h3);
        }
        match committed {
            Ok(_) => {
                let micros: u64 = micros_since(&start);
                self.latency.push(micros);
                proof {
                    batch_committed(
                        rs,
                        self.config,
                        self.track_commits,
                        self.idempotency,
                        begin,
                        work,
                        responses,
                        commit,
                    );
                }
                replies
            },
            Err(e) => {
                roll_back(&mut self.conn);
                let ghost undo = store::made(h3, self.calls());
                proof {
                    store::made_join(h0, h3, self.calls());
                    batch_not_committed(
                        rs,
                        self.config,
                        self.track_commits,
                        self.idempotency,
                        begin,
                        work,
                        responses,
                        commit,
                        undo,
                        e@,
                    );
                }
                withdraw_all(replies, &e)
            },
        }
    }

    /// Moves what is in the write-ahead log to the database file.
    pub fn checkpoint(&mut self) -> (r: Result<(), Error>)
        ensures
            checkpointed(*old(self), *final(self), r),
    {
        match store::execute_batch(&mut self.conn, "PRAGMA wal_checkpoint(TRUNCATE);") {
            Ok(_) => Ok(()),
            Err(e) => Err(Error::Sqlite(e)),
        }
    }

    /// The configuration.
    pub fn config(&self) -> (r: &GatewayConfig)
        ensures
            *r == self.settings(),
    {
        &self.config
    }

    /// The connection, for reading.
    pub fn connection(&self) -> (r: &Connection)
        ensures
            store::history(*r) == self.calls(),
    {
        &self.conn
    }

    /// The measured times of the last commits.
    pub fn latency(&self) -> (r: &LatencyBuffer)
        ensures
            r@ == self.latencies(),
    {
        &self.latency
    }
}

} // verus!
