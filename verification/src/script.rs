//! What the writer asks of SQLite, call by call.
//!
//! Each function here reads the calls of a history from the front. It follows
//! what the writer does, takes each call that it expects together with the
//! outcome that the call had, and gives the result and the calls that are left.
//! It gives `None` where the next call is not the one that the writer makes.
use vstd::prelude::*;

use crate::config::GatewayConfig;
use crate::error;
use crate::error::ErrorView;
use crate::json;
use crate::params;
use crate::params::SqlView;
use crate::request;
use crate::request::{OperationView, RequestView, ResponseView, WriteStatus};
use crate::sql;
use crate::store::Call;
use crate::text;

verus! {

/// A result after which no calls are left.
pub open spec fn ended<T>(result: T) -> Option<(T, Seq<Call>)> {
    Some((result, Seq::empty()))
}

/// The statement that opens a transaction.
pub open spec fn begin_sql() -> Seq<char> {
    "BEGIN IMMEDIATE"@
}

/// The statement that commits a transaction.
pub open spec fn commit_sql() -> Seq<char> {
    "COMMIT"@
}

/// The statement that undoes a transaction.
pub open spec fn rollback_sql() -> Seq<char> {
    "ROLLBACK"@
}

/// The name of the savepoint of the request at `index` in a batch.
pub open spec fn savepoint_name(index: nat) -> Seq<char> {
    "sp_"@ + text::decimal(index)
}

/// The statement that opens a savepoint.
pub open spec fn savepoint_sql(index: nat) -> Seq<char> {
    "SAVEPOINT "@ + savepoint_name(index) + ";"@
}

/// The statement that keeps what was done since a savepoint.
pub open spec fn release_sql(index: nat) -> Seq<char> {
    "RELEASE "@ + savepoint_name(index) + ";"@
}

/// The statements that undo what was done since a savepoint.
pub open spec fn undo_sql(index: nat) -> Seq<char> {
    "ROLLBACK TO "@ + savepoint_name(index) + "; RELEASE "@ + savepoint_name(index) + ";"@
}

/// The statement that records a commit.
pub open spec fn record_commit_sql() -> Seq<char> {
    "INSERT INTO squeuelite_commits(request_id, actor_id, run_id) VALUES (?, ?, ?)"@
}

/// The statement that records the response to a request with an idempotency
/// key.
pub open spec fn record_response_sql() -> Seq<char> {
    "INSERT OR IGNORE INTO squeuelite_requests (idempotency_key, request_hash, status, response_json, commit_seq) VALUES (?1, ?2, 'committed', ?3, ?4)"@
}

/// The query for the recorded response to a request with an idempotency key.
pub open spec fn find_response_sql() -> Seq<char> {
    "SELECT request_hash, response_json FROM squeuelite_requests WHERE idempotency_key = ?1"@
}

/// The outcome of running `sql` without parameters, and the calls that are left.
pub open spec fn after_batch(t: Seq<Call>, sql: Seq<char>) -> Option<
    (Result<(), Seq<char>>, Seq<Call>),
> {
    if t.len() == 0 {
        None
    } else {
        match t[0] {
            Call::Batch { sql: asked, outcome } => if asked == sql {
                Some((outcome, t.drop_first()))
            } else {
                None
            },
            _ => None,
        }
    }
}

/// The outcome of executing `sql` with these values, and the calls that are
/// left.
pub open spec fn after_execute(t: Seq<Call>, sql: Seq<char>, params: Seq<SqlView>) -> Option<
    (Result<(), Seq<char>>, Seq<Call>),
> {
    if t.len() == 0 {
        None
    } else {
        match t[0] {
            Call::Execute { sql: asked, params: bound, outcome } => if asked == sql && bound
                == params {
                Some((outcome, t.drop_first()))
            } else {
                None
            },
            _ => None,
        }
    }
}

/// The outcome of looking `key` up with `sql`, and the calls that are left.
pub open spec fn after_lookup(t: Seq<Call>, sql: Seq<char>, key: Seq<char>) -> Option<
    (Result<Option<(Seq<char>, Option<Seq<char>>)>, Seq<char>>, Seq<Call>),
> {
    if t.len() == 0 {
        None
    } else {
        match t[0] {
            Call::Lookup { sql: asked, key: wanted, found } => if asked == sql && wanted == key {
                Some((found, t.drop_first()))
            } else {
                None
            },
            _ => None,
        }
    }
}

/// The row identifier of the last insert, and the calls that are left.
pub open spec fn after_row_id(t: Seq<Call>) -> Option<(i64, Seq<Call>)> {
    if t.len() == 0 {
        None
    } else {
        match t[0] {
            Call::RowId { id } => Some((id, t.drop_first())),
            _ => None,
        }
    }
}

/// Whether no transaction is open, and the calls that are left.
pub open spec fn after_autocommit(t: Seq<Call>) -> Option<(bool, Seq<Call>)> {
    if t.len() == 0 {
        None
    } else {
        match t[0] {
            Call::Autocommit { on } => Some((on, t.drop_first())),
            _ => None,
        }
    }
}

/// Executes the operations of a request, in order, up to the first that fails.
pub open spec fn run_operations(ops: Seq<OperationView>, t: Seq<Call>) -> Option<
    (Result<(), Seq<char>>, Seq<Call>),
>
    decreases ops.len(),
{
    if ops.len() == 0 {
        Some((Ok(()), t))
    } else {
        match params::sql_values_of(ops[0].params) {
            Err(e) => Some((Err(error::error_text(e)), t)),
            Ok(values) => match after_execute(t, ops[0].sql, values) {
                Some((Ok(_), rest)) => run_operations(ops.drop_first(), rest),
                Some((Err(e), rest)) => Some((Err(e), rest)),
                None => None,
            },
        }
    }
}

/// The SQLite value of an optional text.
pub open spec fn opt_text_value(s: Option<Seq<char>>) -> SqlView {
    match s {
        Some(x) => SqlView::Text(x),
        None => SqlView::Null,
    }
}

/// The SQLite value of an optional integer.
pub open spec fn opt_int_value(i: Option<i64>) -> SqlView {
    match i {
        Some(x) => SqlView::Integer(x),
        None => SqlView::Null,
    }
}

/// What is recorded of a commit.
pub open spec fn commit_values(r: RequestView) -> Seq<SqlView> {
    seq![SqlView::Text(r.request_id), SqlView::Text(r.actor_id), opt_text_value(r.run_id)]
}

/// Records a commit and takes its number, if commits are tracked.
pub open spec fn record_commit(r: RequestView, track: bool, t: Seq<Call>) -> Option<
    (Result<Option<i64>, Seq<char>>, Seq<Call>),
> {
    if !track {
        Some((Ok(None), t))
    } else {
        match after_execute(t, record_commit_sql(), commit_values(r)) {
            Some((Ok(_), rest)) => match after_row_id(rest) {
                Some((id, left)) => Some((Ok(Some(id)), left)),
                None => None,
            },
            Some((Err(e), rest)) => Some((Err(e), rest)),
            None => None,
        }
    }
}

/// The text that is recorded of a response.
pub open spec fn response_text(r: ResponseView) -> Seq<char> {
    json::json_text(request::response_json(r))
}

/// Whether a recorded response can be read back.
pub open spec fn reads_back(r: ResponseView) -> bool {
    request::stored_response(response_text(r)) == Some(r)
}

/// What is recorded of the response to a request with an idempotency key.
pub open spec fn response_values(
    key: Seq<char>,
    hash: Seq<char>,
    request_id: Seq<char>,
    commit_seq: Option<i64>,
) -> Seq<SqlView> {
    seq![
        SqlView::Text(key),
        SqlView::Text(hash),
        SqlView::Text(response_text(request::committed(request_id, commit_seq))),
        opt_int_value(commit_seq),
    ]
}

/// The work of a request inside its transaction: its operations, the record of
/// the commit, and, for a request with an idempotency key, the record of the
/// response under that key and hash. Gives the commit's number.
pub open spec fn run_body(
    r: RequestView,
    track: bool,
    record: Option<(Seq<char>, Seq<char>)>,
    t: Seq<Call>,
) -> Option<(Result<Option<i64>, Seq<char>>, Seq<Call>)> {
    match run_operations(r.operations, t) {
        None => None,
        Some((Err(e), rest)) => Some((Err(e), rest)),
        Some((Ok(_), rest)) => match record_commit(r, track, rest) {
            None => None,
            Some((Err(e), rest)) => Some((Err(e), rest)),
            Some((Ok(seq), rest)) => match record {
                None => Some((Ok(seq), rest)),
                Some((key, hash)) => match after_execute(
                    rest,
                    record_response_sql(),
                    response_values(key, hash, r.request_id, seq),
                ) {
                    None => None,
                    Some((Err(e), rest)) => Some((Err(e), rest)),
                    Some((Ok(_), rest)) => Some((Ok(seq), rest)),
                },
            },
        },
    }
}

/// Undoes the open transaction, if there is one, and does not look at the
/// outcome.
pub open spec fn roll_back(t: Seq<Call>) -> Option<Seq<Call>> {
    match after_autocommit(t) {
        None => None,
        Some((true, rest)) => Some(rest),
        Some((false, rest)) => match after_batch(rest, rollback_sql()) {
            None => None,
            Some((_, left)) => Some(left),
        },
    }
}

/// One request in a transaction of its own.
pub open spec fn run_transaction(
    r: RequestView,
    track: bool,
    record: Option<(Seq<char>, Seq<char>)>,
    t: Seq<Call>,
) -> Option<(ResponseView, Seq<Call>)> {
    match after_batch(t, begin_sql()) {
        None => None,
        Some((Err(e), rest)) => Some((request::failed(r.request_id, e), rest)),
        Some((Ok(_), rest)) => match run_body(r, track, record, rest) {
            None => None,
            Some((Err(e), rest)) => match roll_back(rest) {
                None => None,
                Some(left) => Some((request::failed(r.request_id, e), left)),
            },
            Some((Ok(seq), rest)) => match after_batch(rest, commit_sql()) {
                None => None,
                Some((Ok(_), left)) => Some((request::committed(r.request_id, seq), left)),
                Some((Err(e), rest)) => match roll_back(rest) {
                    None => None,
                    Some(left) => Some((request::failed(r.request_id, e), left)),
                },
            },
        },
    }
}

/// What came of one request of a batch.
pub struct MemberRun {
    /// The response to it.
    pub response: ResponseView,
    /// Why the batch's transaction cannot go on, if it cannot.
    pub lost: Option<Seq<char>>,
}

/// A request of a batch after which the transaction goes on.
pub open spec fn went_on(response: ResponseView) -> MemberRun {
    MemberRun { response, lost: None }
}

/// A request of a batch that failed, and what undoing it came to. Where it could not be
/// undone, the transaction cannot go on.
pub open spec fn undone(response: ResponseView, outcome: Result<(), Seq<char>>) -> MemberRun {
    match outcome {
        Ok(_) => went_on(response),
        Err(e) => MemberRun { response, lost: Some(e) },
    }
}

/// One request of a batch, in a savepoint of the batch's transaction.
pub open spec fn run_savepoint(
    r: RequestView,
    index: nat,
    track: bool,
    record: Option<(Seq<char>, Seq<char>)>,
    t: Seq<Call>,
) -> Option<(MemberRun, Seq<Call>)> {
    match after_batch(t, savepoint_sql(index)) {
        None => None,
        Some((Err(e), rest)) => Some((went_on(request::failed(r.request_id, e)), rest)),
        Some((Ok(_), rest)) => match run_body(r, track, record, rest) {
            None => None,
            Some((Err(e), rest)) => match after_batch(rest, undo_sql(index)) {
                None => None,
                Some((outcome, left)) => Some(
                    (undone(request::failed(r.request_id, e), outcome), left),
                ),
            },
            Some((Ok(seq), rest)) => match after_batch(rest, release_sql(index)) {
                None => None,
                Some((Ok(_), left)) => Some(
                    (went_on(request::committed(r.request_id, seq)), left),
                ),
                Some((Err(e), rest)) => match after_batch(rest, undo_sql(index)) {
                    None => None,
                    Some((outcome, left)) => Some(
                        (undone(request::failed(r.request_id, e), outcome), left),
                    ),
                },
            },
        },
    }
}

/// Why the first operation that may not run is refused, if there is one.
pub open spec fn first_refusal(ops: Seq<OperationView>, config: GatewayConfig) -> Option<Seq<char>>
    decreases ops.len(),
{
    if ops.len() == 0 {
        None
    } else {
        match sql::refusal(ops[0].sql, config) {
            Some(why) => Some(why),
            None => first_refusal(ops.drop_first(), config),
        }
    }
}

/// What is known of a request before any of its operations is executed.
pub enum Standing {
    /// It is answered without being executed.
    Answered(ResponseView),
    /// It is executed. With an idempotency key, its response is recorded under
    /// that key and the hash of its operations.
    New(Option<(Seq<char>, Seq<char>)>),
}

/// The response to a request whose idempotency key was used before: the recorded
/// response if the operations are the same, an error if they are not. Where the
/// recorded response cannot be read, the request is taken as committed.
pub open spec fn recorded_answer(
    r: RequestView,
    key: Seq<char>,
    hash: Seq<char>,
    json: Option<Seq<char>>,
) -> ResponseView {
    if hash == request::request_hash(r.operations) {
        match json {
            Some(s) => match request::stored_response(s) {
                Some(response) => response,
                None => request::committed(r.request_id, None),
            },
            None => request::committed(r.request_id, None),
        }
    } else {
        request::failed(r.request_id, error::error_text(ErrorView::IdempotencyConflict(key)))
    }
}

/// Decides whether a request is executed: its statements have to be allowed, and
/// its idempotency key, where keys are looked at, has to be new.
pub open spec fn consider(
    r: RequestView,
    config: GatewayConfig,
    idempotency: bool,
    t: Seq<Call>,
) -> Option<(Standing, Seq<Call>)> {
    match first_refusal(r.operations, config) {
        Some(why) => Some(
            (
                Standing::Answered(
                    request::failed(r.request_id, error::error_text(ErrorView::SqlRejected(why))),
                ),
                t,
            ),
        ),
        None => match r.idempotency_key {
            Some(key) if idempotency => match after_lookup(t, find_response_sql(), key) {
                None => None,
                Some((Err(e), rest)) => Some(
                    (Standing::Answered(request::failed(r.request_id, e)), rest),
                ),
                Some((Ok(None), rest)) => Some(
                    (Standing::New(Some((key, request::request_hash(r.operations)))), rest),
                ),
                Some((Ok(Some((hash, json))), rest)) => Some(
                    (Standing::Answered(recorded_answer(r, key, hash, json)), rest),
                ),
            },
            _ => Some((Standing::New(None), t)),
        },
    }
}

/// One request, from its check to its response.
pub open spec fn run_request(
    r: RequestView,
    config: GatewayConfig,
    track: bool,
    idempotency: bool,
    t: Seq<Call>,
) -> Option<(ResponseView, Seq<Call>)> {
    match consider(r, config, idempotency, t) {
        None => None,
        Some((Standing::Answered(response), rest)) => Some((response, rest)),
        Some((Standing::New(record), rest)) => run_transaction(r, track, record, rest),
    }
}

/// One request of a batch, from its check to its response.
pub open spec fn run_member(
    r: RequestView,
    index: nat,
    config: GatewayConfig,
    track: bool,
    idempotency: bool,
    t: Seq<Call>,
) -> Option<(MemberRun, Seq<Call>)> {
    match consider(r, config, idempotency, t) {
        None => None,
        Some((Standing::Answered(response), rest)) => Some((went_on(response), rest)),
        Some((Standing::New(record), rest)) => run_savepoint(r, index, track, record, rest),
    }
}

/// What came of the requests of a batch.
#[verifier::ext_equal]
pub struct BatchRun {
    /// The responses, in the order of the requests.
    pub responses: Seq<ResponseView>,
    /// Why the transaction could not go on, if it could not.
    pub lost: Option<Seq<char>>,
}

/// The responses to the requests of a batch from `index` on, none of which is executed.
pub open spec fn not_executed(rs: Seq<RequestView>, index: nat, why: Seq<char>) -> Seq<
    ResponseView,
> {
    Seq::new(
        (rs.len() - index) as nat,
        |i: int| request::failed(rs[index + i].request_id, why),
    )
}

/// The requests of a batch from `index` on, in order, up to the first after which the
/// transaction cannot go on. `done` holds the responses to those before.
pub open spec fn run_members(
    rs: Seq<RequestView>,
    index: nat,
    config: GatewayConfig,
    track: bool,
    idempotency: bool,
    done: Seq<ResponseView>,
    t: Seq<Call>,
) -> Option<(BatchRun, Seq<Call>)>
    decreases rs.len() - index,
{
    if index >= rs.len() {
        Some((BatchRun { responses: done, lost: None }, t))
    } else {
        match run_member(rs[index as int], index, config, track, idempotency, t) {
            None => None,
            Some((run, rest)) => match run.lost {
                Some(e) => Some(
                    (
                        BatchRun {
                            responses: done.push(run.response) + not_executed(rs, index + 1, e),
                            lost: Some(e),
                        },
                        rest,
                    ),
                ),
                None => run_members(
                    rs,
                    index + 1,
                    config,
                    track,
                    idempotency,
                    done.push(run.response),
                    rest,
                ),
            },
        }
    }
}

/// Whether `response` can be read back, if it is that of a commit and was recorded
/// under the request's idempotency key.
pub open spec fn record_reads_back(
    r: RequestView,
    config: GatewayConfig,
    idempotency: bool,
    t: Seq<Call>,
    response: ResponseView,
) -> bool {
    match consider(r, config, idempotency, t) {
        Some((Standing::New(Some(_)), _)) => response.status is Committed ==> reads_back(response),
        _ => true,
    }
}

/// Whether all responses can be read back that were recorded for the requests of a
/// batch from `index` on.
pub open spec fn records_read_back(
    rs: Seq<RequestView>,
    index: nat,
    config: GatewayConfig,
    track: bool,
    idempotency: bool,
    t: Seq<Call>,
) -> bool
    decreases rs.len() - index,
{
    if index >= rs.len() {
        true
    } else {
        match run_member(rs[index as int], index, config, track, idempotency, t) {
            None => true,
            Some((run, rest)) => {
                &&& record_reads_back(rs[index as int], config, idempotency, t, run.response)
                &&& run.lost is None ==> records_read_back(
                    rs,
                    index + 1,
                    config,
                    track,
                    idempotency,
                    rest,
                )
            },
        }
    }
}

/// The response to a request of a batch whose transaction was not committed.
pub open spec fn withdrawn(response: ResponseView, why: Seq<char>) -> ResponseView {
    match response.status {
        WriteStatus::Committed => request::failed(response.request_id, why),
        WriteStatus::Failed => response,
    }
}

/// A batch of requests in one transaction. The responses are in the order of the
/// requests. Where the transaction cannot go on, it is undone as a whole.
pub open spec fn run_batch(
    rs: Seq<RequestView>,
    config: GatewayConfig,
    track: bool,
    idempotency: bool,
    t: Seq<Call>,
) -> Option<(Seq<ResponseView>, Seq<Call>)> {
    match after_batch(t, begin_sql()) {
        None => None,
        Some((Err(e), rest)) => Some(
            (Seq::new(rs.len(), |i: int| request::failed(rs[i].request_id, e)), rest),
        ),
        Some((Ok(_), rest)) => match run_members(
            rs,
            0,
            config,
            track,
            idempotency,
            Seq::empty(),
            rest,
        ) {
            None => None,
            Some((run, rest)) => match run.lost {
                Some(e) => withdrawn_batch(run.responses, e, rest),
                None => match after_batch(rest, commit_sql()) {
                    None => None,
                    Some((Ok(_), left)) => Some((run.responses, left)),
                    Some((Err(e), rest)) => withdrawn_batch(run.responses, e, rest),
                },
            },
        },
    }
}

/// Undoes the transaction of a batch: no request of it is committed.
pub open spec fn withdrawn_batch(
    responses: Seq<ResponseView>,
    why: Seq<char>,
    t: Seq<Call>,
) -> Option<(Seq<ResponseView>, Seq<Call>)> {
    match roll_back(t) {
        None => None,
        Some(left) => Some(
            (Seq::new(responses.len(), |i: int| withdrawn(responses[i], why)), left),
        ),
    }
}

/// The outcome of setting `name` to a text, and the calls that are left.
pub open spec fn after_pragma_text(t: Seq<Call>, name: Seq<char>, value: Seq<char>) -> Option<
    (Result<(), Seq<char>>, Seq<Call>),
> {
    if t.len() == 0 {
        None
    } else {
        match t[0] {
            Call::PragmaText { name: asked, value: given, outcome } => if asked == name && given
                == value {
                Some((outcome, t.drop_first()))
            } else {
                None
            },
            _ => None,
        }
    }
}

/// The outcome of setting `name` to a text and reading it back, and the calls
/// that are left.
pub open spec fn after_pragma_checked(t: Seq<Call>, name: Seq<char>, value: Seq<char>) -> Option<
    (Result<(), Seq<char>>, Seq<Call>),
> {
    if t.len() == 0 {
        None
    } else {
        match t[0] {
            Call::PragmaTextChecked { name: asked, value: given, outcome } => if asked == name
                && given == value {
                Some((outcome, t.drop_first()))
            } else {
                None
            },
            _ => None,
        }
    }
}

/// The outcome of setting `name` to a number, and the calls that are left.
pub open spec fn after_pragma_int(t: Seq<Call>, name: Seq<char>, value: i64) -> Option<
    (Result<(), Seq<char>>, Seq<Call>),
> {
    if t.len() == 0 {
        None
    } else {
        match t[0] {
            Call::PragmaInt { name: asked, number: given, outcome } => if asked == name && given
                == value {
                Some((outcome, t.drop_first()))
            } else {
                None
            },
            _ => None,
        }
    }
}

/// The outcome of setting the time that SQLite waits for a lock, and the calls
/// that are left.
pub open spec fn after_busy_timeout(t: Seq<Call>, millis: u64) -> Option<
    (Result<(), Seq<char>>, Seq<Call>),
> {
    if t.len() == 0 {
        None
    } else {
        match t[0] {
            Call::BusyTimeout { millis: given, outcome } => if given == millis {
                Some((outcome, t.drop_first()))
            } else {
                None
            },
            _ => None,
        }
    }
}

/// The settings of a connection, in order, up to the first that fails.
pub open spec fn set_pragmas(config: GatewayConfig, t: Seq<Call>) -> Option<
    (Result<(), Seq<char>>, Seq<Call>),
> {
    match after_pragma_checked(t, "journal_mode"@, config.journal_mode.pragma_value()) {
        Some((Ok(_), t)) => match after_busy_timeout(t, config.busy_timeout_ms) {
            Some((Ok(_), t)) => match after_pragma_text(
                t,
                "synchronous"@,
                config.synchronous.pragma_value(),
            ) {
                Some((Ok(_), t)) => after_pragma_int(
                    t,
                    "foreign_keys"@,
                    if config.foreign_keys { 1 } else { 0 },
                ),
                other => other,
            },
            other => other,
        },
        other => other,
    }
}

/// The definition of the table of commits.
pub open spec fn commits_table_sql() -> Seq<char> {
    "CREATE TABLE IF NOT EXISTS squeuelite_commits (
                seq          INTEGER PRIMARY KEY AUTOINCREMENT,
                request_id   TEXT NOT NULL,
                actor_id     TEXT NOT NULL,
                run_id       TEXT,
                committed_at TEXT NOT NULL DEFAULT CURRENT_TIMESTAMP
            );"@
}

/// The definition of the table of recorded responses.
pub open spec fn requests_table_sql() -> Seq<char> {
    "CREATE TABLE IF NOT EXISTS squeuelite_requests (
                idempotency_key TEXT PRIMARY KEY,
                request_hash    TEXT NOT NULL,
                status          TEXT NOT NULL,
                response_json   TEXT,
                commit_seq      INTEGER,
                created_at      TEXT NOT NULL DEFAULT CURRENT_TIMESTAMP,
                updated_at      TEXT NOT NULL DEFAULT CURRENT_TIMESTAMP
            );"@
}

/// The gateway's own tables, as far as they are wanted, up to the first that
/// cannot be created.
pub open spec fn create_tables(track: bool, idempotency: bool, t: Seq<Call>) -> Option<
    (Result<(), Seq<char>>, Seq<Call>),
> {
    let first = if track {
        after_batch(t, commits_table_sql())
    } else {
        Some((Ok(()), t))
    };
    match first {
        Some((Ok(_), rest)) => if idempotency {
            after_batch(rest, requests_table_sql())
        } else {
            Some((Ok(()), rest))
        },
        other => other,
    }
}

/// What is done with a new connection before the first request: its settings, then
/// the gateway's own tables.
pub open spec fn set_up(config: GatewayConfig, t: Seq<Call>) -> Option<
    (Result<(), ErrorView>, Seq<Call>),
> {
    match set_pragmas(config, t) {
        None => None,
        Some((Err(e), rest)) => Some((Err(ErrorView::Sqlite(e)), rest)),
        Some((Ok(_), rest)) => match create_tables(config.track_commits, config.idempotency, rest) {
            None => None,
            Some((Err(e), left)) => Some((Err(ErrorView::Migration(e)), left)),
            Some((Ok(_), left)) => Some((Ok(()), left)),
        },
    }
}

/// Settings that have been applied stay applied, whatever is called later.
pub(crate) proof fn set_pragmas_then(config: GatewayConfig, t: Seq<Call>, rest: Seq<Call>)
    requires
        set_pragmas(config, t) is Some,
    ensures
        set_pragmas(config, t + rest) == Some(
            ({
                let (result, left) = set_pragmas(config, t)->0;
                (result, left + rest)
            }),
        ),
{
    assert((t + rest)[0] == t[0]);
    let t1 = t.drop_first();
    assert((t + rest).drop_first() =~= t1 + rest);
    if t1.len() > 0 {
        assert((t1 + rest)[0] == t1[0]);
        let t2 = t1.drop_first();
        assert((t1 + rest).drop_first() =~= t2 + rest);
        if t2.len() > 0 {
            assert((t2 + rest)[0] == t2[0]);
            let t3 = t2.drop_first();
            assert((t2 + rest).drop_first() =~= t3 + rest);
            if t3.len() > 0 {
                assert((t3 + rest)[0] == t3[0]);
                assert((t3 + rest).drop_first() =~= t3.drop_first() + rest);
            }
        }
    }
}

} // verus!
