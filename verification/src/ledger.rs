//! What the calls on a connection leave in the database, and what follows from it
//! for requests: that each is executed whole or not at all, and once.
//!
//! A ledger follows a history of calls. It holds the statements whose effects
//! last and those of the open transaction. Which statements of a client end a
//! transaction by themselves is left open: `ends` says so of each.
use vstd::prelude::*;

use crate::config::GatewayConfig;
use crate::error;
use crate::error::ErrorView;
use crate::json;
use crate::params;
use crate::params::SqlView;
use crate::request;
use crate::request::{OperationView, RequestView, ResponseView, WriteStatus};
use crate::script;
use crate::latency;
use crate::script::Standing;
use crate::sql;
use crate::store;
use crate::store::Call;
use crate::text;
use crate::writer;

verus! {

/// A statement with the values that were bound.
pub struct Statement {
    pub sql: Seq<char>,
    pub params: Seq<SqlView>,
}

/// The statements in effect.
#[verifier::ext_equal]
pub struct Ledger {
    /// Those whose effects last, in order.
    pub durable: Seq<Statement>,
    /// Those of the open transaction, in order, if one is open.
    pub pending: Option<Seq<Statement>>,
    /// How many statements the transaction held when each savepoint was opened.
    pub marks: Seq<nat>,
}

/// What a call without parameters asks for.
pub enum Control {
    Begin,
    Commit,
    RollBack,
    Savepoint,
    Release,
    Undo,
    Other,
}

/// What `sql` asks for.
pub open spec fn control(sql: Seq<char>) -> Control {
    if sql == "BEGIN IMMEDIATE"@ {
        Control::Begin
    } else if sql == "COMMIT"@ {
        Control::Commit
    } else if sql == "ROLLBACK"@ {
        Control::RollBack
    } else if "SAVEPOINT "@.is_prefix_of(sql) {
        Control::Savepoint
    } else if "RELEASE "@.is_prefix_of(sql) {
        Control::Release
    } else if "ROLLBACK TO "@.is_prefix_of(sql) {
        Control::Undo
    } else {
        Control::Other
    }
}

/// A ledger after its transaction was committed.
pub open spec fn after_commit(l: Ledger) -> Ledger {
    match l.pending {
        Some(p) => Ledger { durable: l.durable + p, pending: None, marks: Seq::empty() },
        None => l,
    }
}

/// A ledger after one call. A call that fails changes nothing.
pub open spec fn step(l: Ledger, c: Call, ends: spec_fn(Seq<char>) -> bool) -> Ledger {
    match c {
        Call::Batch { sql, outcome: Ok(_) } => match (control(sql), l.pending) {
            (Control::Begin, _) => Ledger {
                pending: Some(Seq::empty()),
                marks: Seq::empty(),
                ..l
            },
            (Control::Commit, _) => after_commit(l),
            (Control::RollBack, _) => Ledger { pending: None, marks: Seq::empty(), ..l },
            (Control::Savepoint, Some(p)) => Ledger { marks: l.marks.push(p.len()), ..l },
            (Control::Release, Some(_)) if l.marks.len() > 0 => Ledger {
                marks: l.marks.drop_last(),
                ..l
            },
            (Control::Undo, Some(p)) if l.marks.len() > 0 => Ledger {
                pending: Some(p.take(l.marks.last() as int)),
                marks: l.marks.drop_last(),
                ..l
            },
            _ => l,
        },
        Call::Execute { sql, params, outcome: Ok(_) } => {
            let s = Statement { sql, params };
            if ends(sql) {
                after_commit(l)
            } else {
                match l.pending {
                    Some(p) => Ledger { pending: Some(p.push(s)), ..l },
                    None => Ledger { durable: l.durable.push(s), ..l },
                }
            }
        },
        Call::Autocommit { on: true } => Ledger { pending: None, marks: Seq::empty(), ..l },
        _ => l,
    }
}

/// A ledger after some calls.
pub open spec fn replay(l: Ledger, t: Seq<Call>, ends: spec_fn(Seq<char>) -> bool) -> Ledger
    decreases t.len(),
{
    if t.len() == 0 {
        l
    } else {
        replay(step(l, t[0], ends), t.drop_first(), ends)
    }
}

/// The statements of the writer's own are what they are called.
proof fn controls()
    ensures
        control(script::begin_sql()) is Begin,
        control(script::commit_sql()) is Commit,
        control(script::rollback_sql()) is RollBack,
        forall|i: nat| control(#[trigger] script::savepoint_sql(i)) is Savepoint,
        forall|i: nat| control(#[trigger] script::release_sql(i)) is Release,
        forall|i: nat| control(#[trigger] script::undo_sql(i)) is Undo,
{
    reveal_strlit("BEGIN IMMEDIATE");
    reveal_strlit("COMMIT");
    reveal_strlit("ROLLBACK");
    reveal_strlit("SAVEPOINT ");
    reveal_strlit("RELEASE ");
    reveal_strlit("ROLLBACK TO ");
    assert(script::begin_sql()[0] == 'B' && script::commit_sql()[0] == 'C');
    assert(script::rollback_sql().len() == 8 && script::rollback_sql()[0] == 'R');
    assert forall|i: nat| control(#[trigger] script::savepoint_sql(i)) is Savepoint by {
        let sql = script::savepoint_sql(i);
        assert(sql[0] == "SAVEPOINT "@[0]);
        assert("SAVEPOINT "@ =~= sql.subrange(0, "SAVEPOINT "@.len() as int));
    }
    assert forall|i: nat| control(#[trigger] script::release_sql(i)) is Release by {
        let sql = script::release_sql(i);
        assert(sql[0] == "RELEASE "@[0] && sql[1] == "RELEASE "@[1]);
        assert(script::rollback_sql()[1] == 'O');
        assert("SAVEPOINT "@.is_prefix_of(sql) ==> sql[0] == "SAVEPOINT "@[0]);
        assert("RELEASE "@ =~= sql.subrange(0, "RELEASE "@.len() as int));
    }
    assert forall|i: nat| control(#[trigger] script::undo_sql(i)) is Undo by {
        let sql = script::undo_sql(i);
        assert(sql[0] == "ROLLBACK TO "@[0] && sql[1] == "ROLLBACK TO "@[1]);
        assert(sql.len() > 8);
        assert("SAVEPOINT "@.is_prefix_of(sql) ==> sql[0] == "SAVEPOINT "@[0]);
        assert("RELEASE "@.is_prefix_of(sql) ==> sql[1] == "RELEASE "@[1]);
        assert("ROLLBACK TO "@ =~= sql.subrange(0, "ROLLBACK TO "@.len() as int));
    }
}

/// The statements of some operations.
pub open spec fn operation_statements(ops: Seq<OperationView>) -> Seq<Statement> {
    Seq::new(
        ops.len(),
        |i: int|
            Statement { sql: ops[i].sql, params: params::sql_values_of(ops[i].params)->Ok_0 },
    )
}

/// The statement that records a commit, if commits are tracked.
pub open spec fn commit_statement(r: RequestView, track: bool) -> Seq<Statement> {
    if track {
        seq![
            Statement {
                sql: "INSERT INTO squeuelite_commits(request_id, actor_id, run_id) VALUES (?, ?, ?)"@,
                params: seq![
                    SqlView::Text(r.request_id),
                    SqlView::Text(r.actor_id),
                    match r.run_id {
                        Some(run) => SqlView::Text(run),
                        None => SqlView::Null,
                    },
                ],
            },
        ]
    } else {
        Seq::empty()
    }
}

/// The key and hash under which the response to a request is recorded, if it is.
pub open spec fn record_of(r: RequestView, idempotency: bool) -> Option<(Seq<char>, Seq<char>)> {
    match r.idempotency_key {
        Some(key) if idempotency => Some((key, request::request_hash(r.operations))),
        _ => None,
    }
}

/// The statement that records a response, if it is recorded.
pub open spec fn response_statement(
    r: RequestView,
    record: Option<(Seq<char>, Seq<char>)>,
    commit_seq: Option<i64>,
) -> Seq<Statement> {
    match record {
        Some((key, hash)) => seq![
            Statement {
                sql: "INSERT OR IGNORE INTO squeuelite_requests (idempotency_key, request_hash, status, response_json, commit_seq) VALUES (?1, ?2, 'committed', ?3, ?4)"@,
                params: seq![
                    SqlView::Text(key),
                    SqlView::Text(hash),
                    SqlView::Text(
                        json::json_text(
                            request::response_json(request::committed(r.request_id, commit_seq)),
                        ),
                    ),
                    match commit_seq {
                        Some(n) => SqlView::Integer(n),
                        None => SqlView::Null,
                    },
                ],
            },
        ],
        None => Seq::empty(),
    }
}

/// All statements of a request: its operations, the record of the commit, and
/// the record of the response.
pub open spec fn request_statements(
    r: RequestView,
    track: bool,
    idempotency: bool,
    commit_seq: Option<i64>,
) -> Seq<Statement> {
    operation_statements(r.operations) + commit_statement(r, track) + response_statement(
        r,
        record_of(r, idempotency),
        commit_seq,
    )
}

/// Whether no statement of a request ends the transaction by itself, nor one that
/// records a commit or a response.
pub open spec fn keeps_open(r: RequestView, ends: spec_fn(Seq<char>) -> bool) -> bool {
    &&& forall|i: int| 0 <= i < r.operations.len() ==> !ends(#[trigger] r.operations[i].sql)
    &&& !ends("INSERT INTO squeuelite_commits(request_id, actor_id, run_id) VALUES (?, ?, ?)"@)
    &&& !ends(
        "INSERT OR IGNORE INTO squeuelite_requests (idempotency_key, request_hash, status, response_json, commit_seq) VALUES (?1, ?2, 'committed', ?3, ?4)"@,
    )
}

/// Whether a request is refused, or no statement of it ends the transaction by
/// itself.
pub open spec fn stays_open(
    r: RequestView,
    config: GatewayConfig,
    ends: spec_fn(Seq<char>) -> bool,
) -> bool {
    script::first_refusal(r.operations, config) is Some || keeps_open(r, ends)
}

/// Whether only those statements end a transaction that begin with a word for
/// transactions. A comment before the word hides it.
pub open spec fn only_words_end(ends: spec_fn(Seq<char>) -> bool) -> bool {
    forall|s: Seq<char>| #[trigger]
        ends(s) ==> sql::controls_transaction(text::ascii_upper(text::first_token(s)))
}

proof fn allowed_operations(ops: Seq<OperationView>, config: GatewayConfig, i: int)
    requires
        script::first_refusal(ops, config) is None,
        0 <= i < ops.len(),
    ensures
        sql::refusal(ops[i].sql, config) is None,
    decreases ops.len(),
{
    if i > 0 {
        allowed_operations(ops.drop_first(), config, i - 1);
    }
}

/// A statement that begins with `I` does not begin with a word for transactions.
proof fn inserts_do_not_control(s: Seq<char>)
    requires
        s.len() > 0,
        s[0] == 'I',
    ensures
        !sql::controls_transaction(text::ascii_upper(text::first_token(s))),
{
    reveal_strlit("BEGIN");
    reveal_strlit("COMMIT");
    reveal_strlit("END");
    reveal_strlit("ROLLBACK");
    reveal_strlit("SAVEPOINT");
    reveal_strlit("RELEASE");
    reveal_strlit("PRAGMA");
    assert(text::trim_start(s) == s);
    assert(text::first_token(s)[0] == 'I');
    assert(text::ascii_upper(text::first_token(s))[0] == 'I');
    assert("BEGIN"@[0] == 'B' && "COMMIT"@[0] == 'C' && "END"@[0] == 'E');
    assert("ROLLBACK"@[0] == 'R' && "SAVEPOINT"@[0] == 'S' && "RELEASE"@[0] == 'R');
    assert("PRAGMA"@[0] == 'P');
}

/// No request ends its transaction by itself, if only statements do so that begin
/// with a word for transactions: a request that holds one is refused.
pub proof fn every_request_stays_open(
    r: RequestView,
    config: GatewayConfig,
    ends: spec_fn(Seq<char>) -> bool,
)
    requires
        only_words_end(ends),
    ensures
        stays_open(r, config, ends),
{
    if script::first_refusal(r.operations, config) is None {
        assert forall|i: int| 0 <= i < r.operations.len() implies !ends(
            #[trigger] r.operations[i].sql,
        ) by {
            allowed_operations(r.operations, config, i);
        }
        reveal_strlit("INSERT INTO squeuelite_commits(request_id, actor_id, run_id) VALUES (?, ?, ?)");
        reveal_strlit(
            "INSERT OR IGNORE INTO squeuelite_requests (idempotency_key, request_hash, status, response_json, commit_seq) VALUES (?1, ?2, 'committed', ?3, ?4)",
        );
        inserts_do_not_control(script::record_commit_sql());
        inserts_do_not_control(script::record_response_sql());
    }
}

/// The calls `rest` are the last of the calls `t`, and those before them turn the
/// ledger `l` into `l2`.
spec fn leads_to(
    l: Ledger,
    t: Seq<Call>,
    l2: Ledger,
    rest: Seq<Call>,
    ends: spec_fn(Seq<char>) -> bool,
) -> bool {
    &&& replay(l, t, ends) == replay(l2, rest, ends)
    &&& rest.is_suffix_of(t)
}

proof fn no_call(l: Ledger, t: Seq<Call>, ends: spec_fn(Seq<char>) -> bool)
    ensures
        leads_to(l, t, l, t, ends),
{
    assert(t =~= t.subrange(0, t.len() as int));
}

proof fn first_call(l: Ledger, t: Seq<Call>, ends: spec_fn(Seq<char>) -> bool)
    requires
        t.len() > 0,
    ensures
        leads_to(l, t, step(l, t[0], ends), t.drop_first(), ends),
{
    assert(t.drop_first() =~= t.subrange(1, t.len() as int));
}

proof fn further_calls(
    l: Ledger,
    t: Seq<Call>,
    l1: Ledger,
    t1: Seq<Call>,
    l2: Ledger,
    t2: Seq<Call>,
    ends: spec_fn(Seq<char>) -> bool,
)
    requires
        leads_to(l, t, l1, t1, ends),
        leads_to(l1, t1, l2, t2, ends),
    ensures
        leads_to(l, t, l2, t2, ends),
{
    let n = t.len() as int;
    assert(t2 =~= t.subrange(n - t2.len(), n)) by {
        assert(t1 =~= t.subrange(n - t1.len(), n));
        assert(t2 =~= t1.subrange(t1.len() - t2.len(), t1.len() as int));
    }
}

/// Operations inside a transaction add their statements to it, in order.
proof fn operations_add_up(
    ops: Seq<OperationView>,
    t: Seq<Call>,
    l: Ledger,
    ends: spec_fn(Seq<char>) -> bool,
) -> (l2: Ledger)
    requires
        script::run_operations(ops, t) is Some,
        l.pending is Some,
        forall|i: int| 0 <= i < ops.len() ==> !ends(#[trigger] ops[i].sql),
    ensures
        ({
            let (result, rest) = script::run_operations(ops, t)->0;
            &&& leads_to(l, t, l2, rest, ends)
            &&& l2.durable == l.durable
            &&& l2.marks == l.marks
            &&& l2.pending is Some
            &&& l.pending->0.is_prefix_of(l2.pending->0)
            &&& result is Ok ==> l2.pending->0 == l.pending->0 + operation_statements(ops)
        }),
    decreases ops.len(),
{
    let p = l.pending->0;
    assert(p =~= p.subrange(0, p.len() as int));
    no_call(l, t, ends);
    if ops.len() == 0 {
        assert(p + operation_statements(ops) =~= p);
        l
    } else {
        match params::sql_values_of(ops[0].params) {
            Err(_) => l,
            Ok(values) => {
                let (outcome, rest) = script::after_execute(t, ops[0].sql, values)->0;
                first_call(l, t, ends);
                let l1 = step(l, t[0], ends);
                match outcome {
                    Err(_) => l1,
                    Ok(_) => {
                        assert(!ends(ops[0].sql));
                        assert forall|i: int| 0 <= i < ops.drop_first().len() implies !ends(
                            #[trigger] ops.drop_first()[i].sql,
                        ) by {
                            assert(ops.drop_first()[i] == ops[i + 1]);
                        }
                        let l2 = operations_add_up(ops.drop_first(), rest, l1, ends);
                        let (_, left) = script::run_operations(ops.drop_first(), rest)->0;
                        further_calls(l, t, l1, rest, l2, left, ends);
                        let q = l2.pending->0;
                        assert(l1.pending->0 =~= q.subrange(0, 1 + p.len() as int));
                        assert(p =~= q.subrange(0, p.len() as int)) by {
                            assert(l1.pending->0.subrange(0, p.len() as int) =~= p);
                            assert(q.subrange(0, 1 + p.len() as int).subrange(0, p.len() as int)
                                =~= q.subrange(0, p.len() as int));
                        }
                        let (result, _) = script::run_operations(ops, t)->0;
                        if result is Ok {
                            assert(q =~= p + operation_statements(ops)) by {
                                assert(operation_statements(ops) =~= seq![
                                    Statement { sql: ops[0].sql, params: values },
                                ] + operation_statements(ops.drop_first()));
                            }
                        }
                        l2
                    },
                }
            },
        }
    }
}

/// The work of a request inside a transaction adds all of its statements to it.
proof fn body_adds_up(
    r: RequestView,
    track: bool,
    record: Option<(Seq<char>, Seq<char>)>,
    t: Seq<Call>,
    l: Ledger,
    ends: spec_fn(Seq<char>) -> bool,
) -> (l2: Ledger)
    requires
        script::run_body(r, track, record, t) is Some,
        l.pending is Some,
        keeps_open(r, ends),
    ensures
        ({
            let (result, rest) = script::run_body(r, track, record, t)->0;
            &&& leads_to(l, t, l2, rest, ends)
            &&& l2.durable == l.durable
            &&& l2.marks == l.marks
            &&& l2.pending is Some
            &&& l.pending->0.is_prefix_of(l2.pending->0)
            &&& result matches Ok(seq) ==> l2.pending->0 == l.pending->0 + (operation_statements(
                r.operations,
            ) + commit_statement(r, track) + response_statement(r, record, seq))
            &&& result matches Ok(seq) ==> (seq is Some <==> track)
        }),
{
    let p = l.pending->0;
    let (executed, t1) = script::run_operations(r.operations, t)->0;
    let l1 = operations_add_up(r.operations, t, l, ends);
    if executed is Err {
        return l1;
    }
    let (recorded, t2) = script::record_commit(r, track, t1)->0;
    let l2 = if !track {
        l1
    } else {
        first_call(l1, t1, ends);
        let l1a = step(l1, t1[0], ends);
        further_calls(l, t, l1, t1, l1a, t1.drop_first(), ends);
        if recorded is Ok {
            first_call(l1a, t1.drop_first(), ends);
            let l1b = step(l1a, t1.drop_first()[0], ends);
            further_calls(l, t, l1a, t1.drop_first(), l1b, t2, ends);
            l1b
        } else {
            l1a
        }
    };
    assert(p =~= l2.pending->0.subrange(0, p.len() as int)) by {
        assert(p =~= l1.pending->0.subrange(0, p.len() as int));
        assert(l1.pending->0 =~= l2.pending->0.subrange(0, l1.pending->0.len() as int));
    }
    if recorded is Err {
        return l2;
    }
    if track {
        assert(commit_statement(r, track)[0].params =~= script::commit_values(r));
    }
    assert(l2.pending->0 =~= p + (operation_statements(r.operations) + commit_statement(r, track)));
    match record {
        None => {
            assert(operation_statements(r.operations) + commit_statement(r, track)
                + response_statement(r, record, recorded->Ok_0) =~= operation_statements(
                r.operations,
            ) + commit_statement(r, track));
            l2
        },
        Some((key, hash)) => {
            first_call(l2, t2, ends);
            let l3 = step(l2, t2[0], ends);
            further_calls(l, t, l2, t2, l3, t2.drop_first(), ends);
            assert(p =~= l3.pending->0.subrange(0, p.len() as int));
            let (result, _) = script::run_body(r, track, record, t)->0;
            if result is Ok {
                assert(response_statement(r, record, recorded->Ok_0)[0].params
                    =~= script::response_values(key, hash, r.request_id, recorded->Ok_0));
                assert(l3.pending->0 =~= p + (operation_statements(r.operations) + commit_statement(
                    r,
                    track,
                ) + response_statement(r, record, recorded->Ok_0)));
            }
            l3
        },
    }
}

/// Undoing a transaction leaves what lasts as it is, and does not end in a
/// commit.
proof fn rolling_back_keeps(t: Seq<Call>, l: Ledger, ends: spec_fn(Seq<char>) -> bool) -> (l2: Ledger)
    requires
        script::roll_back(t) is Some,
    ensures
        leads_to(l, t, l2, script::roll_back(t)->0, ends),
        l2.durable == l.durable,
        script::roll_back(t)->0.len() == 0 ==> t.len() > 0 && !writer::ends_in_commit(t),
{
    controls();
    first_call(l, t, ends);
    let l1 = step(l, t[0], ends);
    let (on, t1) = script::after_autocommit(t)->0;
    if on {
        l1
    } else {
        first_call(l1, t1, ends);
        let l2 = step(l1, t1[0], ends);
        further_calls(l, t, l1, t1, l2, t1.drop_first(), ends);
        l2
    }
}

/// A transaction of one request adds all of its statements to what lasts, or
/// none.
proof fn transaction_effect(
    r: RequestView,
    track: bool,
    record: Option<(Seq<char>, Seq<char>)>,
    t: Seq<Call>,
    response: ResponseView,
    l: Ledger,
    ends: spec_fn(Seq<char>) -> bool,
)
    requires
        script::run_transaction(r, track, record, t) == script::ended(response),
        keeps_open(r, ends),
    ensures
        response.request_id == r.request_id,
        response.status is Committed <==> writer::ends_in_commit(t),
        response.status is Committed ==> (response.commit_seq is Some <==> track),
        response.status is Committed ==> response == request::committed(
            r.request_id,
            response.commit_seq,
        ) && replay(l, t, ends) == (Ledger {
            durable: l.durable + (operation_statements(r.operations) + commit_statement(r, track)
                + response_statement(r, record, response.commit_seq)),
            pending: None,
            marks: Seq::empty(),
        }),
        response.status is Failed ==> replay(l, t, ends).durable == l.durable,
{
    controls();
    let none = Seq::<Call>::empty();
    first_call(l, t, ends);
    let l1 = step(l, t[0], ends);
    let (begun, t1) = script::after_batch(t, script::begin_sql())->0;
    if begun is Ok {
        let (worked, t2) = script::run_body(r, track, record, t1)->0;
        let l2 = body_adds_up(r, track, record, t1, l1, ends);
        further_calls(l, t, l1, t1, l2, t2, ends);
        match worked {
            Err(_) => {
                let l3 = rolling_back_keeps(t2, l2, ends);
                further_calls(l, t, l2, t2, l3, none, ends);
                assert(t.last() == t2.last());
            },
            Ok(seq) => {
                first_call(l2, t2, ends);
                let l3 = step(l2, t2[0], ends);
                let (committed, t3) = script::after_batch(t2, script::commit_sql())->0;
                further_calls(l, t, l2, t2, l3, t3, ends);
                assert(t.last() == t2.last());
                match committed {
                    Ok(_) => {
                        assert(t2.drop_first().len() == 0);
                        assert(t2.last() == t2[0]);
                        assert(l1.pending->0 + (operation_statements(r.operations)
                            + commit_statement(r, track) + response_statement(r, record, seq))
                            =~= operation_statements(r.operations) + commit_statement(r, track)
                            + response_statement(r, record, seq));
                    },
                    Err(_) => {
                        let l4 = rolling_back_keeps(t3, l3, ends);
                        further_calls(l, t, l3, t3, l4, none, ends);
                        assert(t.last() == t3.last());
                    },
                }
            },
        }
    } else {
        assert(t.drop_first().len() == 0);
        assert(t.last() == t[0]);
    }
}

/// A request is executed whole or not at all.
///
/// If its transaction was committed, what lasts has grown by exactly its
/// statements, in order, with the records of the commit and of the response. If
/// it was not, nothing was added; so a request that is answered as failed has
/// left no trace, and neither has one that was answered from the record.
pub proof fn request_is_atomic(
    r: RequestView,
    config: GatewayConfig,
    track: bool,
    idempotency: bool,
    t: Seq<Call>,
    response: ResponseView,
    l: Ledger,
    ends: spec_fn(Seq<char>) -> bool,
)
    requires
        script::run_request(r, config, track, idempotency, t) == script::ended(response),
        stays_open(r, config, ends),
    ensures
        writer::ends_in_commit(t) ==> response == request::committed(
            r.request_id,
            response.commit_seq,
        ) && replay(l, t, ends) == (Ledger {
            durable: l.durable + request_statements(r, track, idempotency, response.commit_seq),
            pending: None,
            marks: Seq::empty(),
        }),
        writer::ends_in_commit(t) ==> (response.commit_seq is Some <==> track),
        !writer::ends_in_commit(t) ==> replay(l, t, ends).durable == l.durable,
        response.status is Failed ==> replay(l, t, ends).durable == l.durable,
{
    match script::consider(r, config, idempotency, t)->0 {
        (Standing::Answered(_), _) => {
            if script::first_refusal(r.operations, config) is None {
                first_call(l, t, ends);
            }
        },
        (Standing::New(record), rest) => {
            if t.len() != rest.len() {
                first_call(l, t, ends);
                let l1 = step(l, t[0], ends);
                assert(l1 == l);
            }
            transaction_effect(r, track, record, rest, response, l, ends);
            assert(rest.len() > 0);
            assert(t.last() == rest.last());
        },
    }
}

/// Some lists of statements, one after the other.
pub open spec fn flat(parts: Seq<Seq<Statement>>) -> Seq<Statement>
    decreases parts.len(),
{
    if parts.len() == 0 {
        Seq::empty()
    } else {
        parts[0] + flat(parts.drop_first())
    }
}

/// Whether `part` is what a request of a batch adds to the batch's transaction:
/// all of its statements if it is answered as committed, with a number if commits
/// are tracked, nothing if it is answered as failed, and nothing if it is answered
/// from the record.
pub open spec fn contributes(
    r: RequestView,
    track: bool,
    idempotency: bool,
    response: ResponseView,
    part: Seq<Statement>,
) -> bool {
    ||| part.len() == 0 && (response.status is Failed || record_of(r, idempotency) is Some)
    ||| response == request::committed(r.request_id, response.commit_seq) && (
    response.commit_seq is Some <==> track) && part == request_statements(
        r,
        track,
        idempotency,
        response.commit_seq,
    )
}

/// A savepoint of one request adds all of its statements to the transaction, or
/// none, if the transaction can go on.
proof fn savepoint_effect(
    r: RequestView,
    index: nat,
    track: bool,
    record: Option<(Seq<char>, Seq<char>)>,
    t: Seq<Call>,
    l: Ledger,
    ends: spec_fn(Seq<char>) -> bool,
) -> (l2: Ledger)
    requires
        script::run_savepoint(r, index, track, record, t) is Some,
        l.pending is Some,
        keeps_open(r, ends),
    ensures
        ({
            let (run, rest) = script::run_savepoint(r, index, track, record, t)->0;
            let response = run.response;
            &&& leads_to(l, t, l2, rest, ends)
            &&& l2.durable == l.durable
            &&& run.lost is None ==> l2.marks == l.marks && l2.pending is Some
            &&& run.lost is None ==> match response.status {
                WriteStatus::Committed => response == request::committed(
                    r.request_id,
                    response.commit_seq,
                ) && (response.commit_seq is Some <==> track) && l2.pending->0 == l.pending->0 + (
                operation_statements(r.operations) + commit_statement(r, track)
                    + response_statement(r, record, response.commit_seq)),
                WriteStatus::Failed => l2.pending->0 == l.pending->0,
            }
        }),
{
    controls();
    let p = l.pending->0;
    first_call(l, t, ends);
    let l1 = step(l, t[0], ends);
    let (begun, t1) = script::after_batch(t, script::savepoint_sql(index))->0;
    if begun is Err {
        return l1;
    }
    let (worked, t2) = script::run_body(r, track, record, t1)->0;
    let l2 = body_adds_up(r, track, record, t1, l1, ends);
    further_calls(l, t, l1, t1, l2, t2, ends);
    assert(l1.marks == l.marks.push(p.len()));
    assert(l1.marks.drop_last() =~= l.marks);
    assert(l2.pending->0.take(p.len() as int) =~= p);
    first_call(l2, t2, ends);
    let l3 = step(l2, t2[0], ends);
    further_calls(l, t, l2, t2, l3, t2.drop_first(), ends);
    match worked {
        Err(_) => l3,
        Ok(_) => {
            let (released, t3) = script::after_batch(t2, script::release_sql(index))->0;
            if released is Ok {
                l3
            } else {
                assert(l3 == l2);
                first_call(l3, t3, ends);
                let l4 = step(l3, t3[0], ends);
                further_calls(l, t, l3, t3, l4, t3.drop_first(), ends);
                l4
            }
        },
    }
}

/// A request of a batch adds to the transaction what it contributes, if the
/// transaction can go on.
proof fn member_effect(
    r: RequestView,
    index: nat,
    config: GatewayConfig,
    track: bool,
    idempotency: bool,
    t: Seq<Call>,
    l: Ledger,
    ends: spec_fn(Seq<char>) -> bool,
) -> (effect: (Seq<Statement>, Ledger))
    requires
        script::run_member(r, index, config, track, idempotency, t) is Some,
        l.pending is Some,
        stays_open(r, config, ends),
    ensures
        ({
            let (part, l2) = effect;
            let (run, rest) = script::run_member(r, index, config, track, idempotency, t)->0;
            &&& leads_to(l, t, l2, rest, ends)
            &&& l2.durable == l.durable
            &&& run.lost is None ==> l2.marks == l.marks && l2.pending is Some
            &&& run.lost is None ==> l2.pending->0 == l.pending->0 + part
            &&& run.lost is None ==> contributes(r, track, idempotency, run.response, part)
        }),
{
    let nothing = Seq::<Statement>::empty();
    assert(l.pending->0 + nothing =~= l.pending->0);
    no_call(l, t, ends);
    let (standing, t1) = script::consider(r, config, idempotency, t)->0;
    if t1 != t {
        first_call(l, t, ends);
        assert(step(l, t[0], ends) == l);
    }
    match standing {
        Standing::Answered(_) => (nothing, l),
        Standing::New(record) => {
            assert(record == record_of(r, idempotency));
            let l2 = savepoint_effect(r, index, track, record, t1, l, ends);
            let (run, t2) = script::run_savepoint(r, index, track, record, t1)->0;
            further_calls(l, t, l, t1, l2, t2, ends);
            match run.response.status {
                WriteStatus::Committed => (
                    request_statements(r, track, idempotency, run.response.commit_seq),
                    l2,
                ),
                WriteStatus::Failed => (nothing, l2),
            }
        },
    }
}

proof fn shorter_prefix(done: Seq<ResponseView>, response: ResponseView, responses: Seq<ResponseView>)
    requires
        done.push(response).is_prefix_of(responses),
    ensures
        done.is_prefix_of(responses),
        responses[done.len() as int] == response,
{
    let n = done.len() as int;
    assert(done.push(response) =~= responses.subrange(0, n + 1));
    assert(responses[n] == done.push(response)[n]);
    assert forall|i: int| 0 <= i < n implies responses[i] == done[i] by {
        assert(responses[i] == done.push(response)[i]);
    }
    assert(done =~= responses.subrange(0, n));
}

proof fn flat_cons(part: Seq<Statement>, parts: Seq<Seq<Statement>>)
    ensures
        flat(seq![part] + parts) == part + flat(parts),
{
    assert((seq![part] + parts).drop_first() =~= parts);
}

/// The requests of a batch from `index` on add to the transaction what they
/// contribute, in order, if the transaction can go on.
#[verifier::rlimit(40)]
proof fn members_effect(
    rs: Seq<RequestView>,
    index: nat,
    config: GatewayConfig,
    track: bool,
    idempotency: bool,
    done: Seq<ResponseView>,
    t: Seq<Call>,
    l: Ledger,
    ends: spec_fn(Seq<char>) -> bool,
) -> (effect: (Seq<Seq<Statement>>, Ledger))
    requires
        script::run_members(rs, index, config, track, idempotency, done, t) is Some,
        index <= rs.len(),
        done.len() == index,
        l.pending is Some,
        forall|i: int| 0 <= i < rs.len() ==> stays_open(#[trigger] rs[i], config, ends),
    ensures
        ({
            let (parts, l2) = effect;
            let (run, rest) = script::run_members(
                rs,
                index,
                config,
                track,
                idempotency,
                done,
                t,
            )->0;
            &&& leads_to(l, t, l2, rest, ends)
            &&& l2.durable == l.durable
            &&& run.responses.len() == rs.len()
            &&& run.lost is None ==> l2.pending is Some
            &&& run.lost is None ==> l2.pending->0 == l.pending->0 + flat(parts)
            &&& run.lost is None ==> done.is_prefix_of(run.responses)
            &&& run.lost is None ==> parts.len() == rs.len() - index
            &&& run.lost is None ==> forall|i: int|
                index <= i < rs.len() ==> contributes(
                    #[trigger] rs[i],
                    track,
                    idempotency,
                    run.responses[i],
                    parts[i - index],
                )
        }),
    decreases rs.len() - index,
{
    if index >= rs.len() {
        no_call(l, t, ends);
        assert(l.pending->0 + flat(Seq::empty()) =~= l.pending->0);
        assert(done =~= done.subrange(0, done.len() as int));
        (Seq::empty(), l)
    } else {
        let r = rs[index as int];
        let (member, t1) = script::run_member(r, index, config, track, idempotency, t)->0;
        let response = member.response;
        let (part, l1) = member_effect(r, index, config, track, idempotency, t, l, ends);
        if member.lost is Some {
            return (Seq::empty(), l1);
        }
        let (parts, l2) = members_effect(
            rs,
            index + 1,
            config,
            track,
            idempotency,
            done.push(response),
            t1,
            l1,
            ends,
        );
        let (run, t2) = script::run_members(
            rs,
            index + 1,
            config,
            track,
            idempotency,
            done.push(response),
            t1,
        )->0;
        further_calls(l, t, l1, t1, l2, t2, ends);
        let all = seq![part] + parts;
        if run.lost is None {
            flat_cons(part, parts);
            assert(l.pending->0 + part + flat(parts) =~= l.pending->0 + flat(all));
            shorter_prefix(done, response, run.responses);
            assert forall|i: int| index <= i < rs.len() implies contributes(
                #[trigger] rs[i],
                track,
                idempotency,
                run.responses[i],
                all[i - index],
            ) by {
                if i > index {
                    assert(all[i - index] == parts[i - (index + 1)]);
                }
            }
        }
        (all, l2)
    }
}

/// A batch leaves each of its requests alone with its own fate.
///
/// Every request has a response. If the batch's transaction was committed, what
/// lasts has grown by what each request contributes, in order: all of its
/// statements if it is answered as committed, and nothing if it is answered as
/// failed, whatever became of the others. If the transaction was not committed,
/// nothing was added and every request is answered as failed.
pub proof fn batch_isolates_its_requests(
    rs: Seq<RequestView>,
    config: GatewayConfig,
    track: bool,
    idempotency: bool,
    t: Seq<Call>,
    responses: Seq<ResponseView>,
    l: Ledger,
    ends: spec_fn(Seq<char>) -> bool,
) -> (parts: Seq<Seq<Statement>>)
    requires
        script::run_batch(rs, config, track, idempotency, t) == script::ended(responses),
        forall|i: int| 0 <= i < rs.len() ==> stays_open(#[trigger] rs[i], config, ends),
    ensures
        responses.len() == rs.len(),
        writer::ends_in_commit(t) ==> parts.len() == rs.len() && replay(l, t, ends).durable
            == l.durable + flat(parts) && forall|i: int|
            0 <= i < rs.len() ==> contributes(
                #[trigger] rs[i],
                track,
                idempotency,
                responses[i],
                parts[i],
            ),
        !writer::ends_in_commit(t) ==> replay(l, t, ends).durable == l.durable && forall|i: int|
            0 <= i < rs.len() ==> (#[trigger] responses[i]).status is Failed,
{
    controls();
    let none = Seq::<Call>::empty();
    first_call(l, t, ends);
    let l1 = step(l, t[0], ends);
    let (begun, t1) = script::after_batch(t, script::begin_sql())->0;
    if begun is Err {
        assert(t.drop_first().len() == 0);
        assert(t.last() == t[0]);
        return Seq::empty();
    }
    let (run, t2) = script::run_members(
        rs,
        0,
        config,
        track,
        idempotency,
        Seq::empty(),
        t1,
    )->0;
    let (parts, l2) = members_effect(
        rs,
        0,
        config,
        track,
        idempotency,
        Seq::empty(),
        t1,
        l1,
        ends,
    );
    further_calls(l, t, l1, t1, l2, t2, ends);
    if run.lost is Some {
        let l3 = rolling_back_keeps(t2, l2, ends);
        further_calls(l, t, l2, t2, l3, none, ends);
        assert(t.last() == t2.last());
        return parts;
    }
    first_call(l2, t2, ends);
    let l3 = step(l2, t2[0], ends);
    let (committed, t3) = script::after_batch(t2, script::commit_sql())->0;
    further_calls(l, t, l2, t2, l3, t3, ends);
    assert(t.last() == t2.last());
    match committed {
        Ok(_) => {
            assert(t2.drop_first().len() == 0);
            assert(t2.last() == t2[0]);
            assert(l1.pending->0 + flat(parts) =~= flat(parts));
            assert forall|i: int| 0 <= i < rs.len() implies contributes(
                #[trigger] rs[i],
                track,
                idempotency,
                responses[i],
                parts[i],
            ) by {
                assert(parts[i] == parts[i - 0]);
            }
        },
        Err(_) => {
            let l4 = rolling_back_keeps(t3, l3, ends);
            further_calls(l, t, l3, t3, l4, none, ends);
            assert(t.last() == t3.last());
        },
    }
    parts
}

/// Whether a request is answered from the calls `t` with `answer` and is not
/// executed, alone as in a batch. The calls in `rest` are not its own.
pub open spec fn only_answered(
    r: RequestView,
    config: GatewayConfig,
    track: bool,
    idempotency: bool,
    t: Seq<Call>,
    answer: ResponseView,
    rest: Seq<Call>,
) -> bool {
    &&& script::run_request(r, config, track, idempotency, t) == Some((answer, rest))
    &&& forall|index: nat| #[trigger]
        script::run_member(r, index, config, track, idempotency, t) == Some(
            (script::went_on(answer), rest),
        )
}

/// Whether the first of the calls `t` looks `key` up and finds a recorded response
/// under the hash `hash`.
pub open spec fn finds(
    t: Seq<Call>,
    key: Seq<char>,
    hash: Seq<char>,
    json: Option<Seq<char>>,
) -> bool {
    t.len() > 0 && t[0] == (Call::Lookup {
        sql: "SELECT request_hash, response_json FROM squeuelite_requests WHERE idempotency_key = ?1"@,
        key,
        found: Ok(Some((hash, json))),
    })
}

/// A request whose key is found in the record is not executed: the lookup is the
/// only call, and it changes nothing.
pub proof fn recorded_request_is_not_executed(
    r: RequestView,
    config: GatewayConfig,
    track: bool,
    key: Seq<char>,
    hash: Seq<char>,
    json: Option<Seq<char>>,
    t: Seq<Call>,
    l: Ledger,
    ends: spec_fn(Seq<char>) -> bool,
)
    requires
        script::first_refusal(r.operations, config) is None,
        r.idempotency_key == Some(key),
        finds(t, key, hash, json),
    ensures
        only_answered(
            r,
            config,
            track,
            true,
            t,
            script::recorded_answer(r, key, hash, json),
            t.drop_first(),
        ),
        step(l, t[0], ends) == l,
{
}

/// A request that is sent again, with the same key and the same operations, gets
/// the response that the first one got, and is not executed again. The first was
/// executed alone.
///
/// The record is taken to hold what the first request wrote to it.
pub proof fn repeated_request_gets_the_same_response(
    first: RequestView,
    again: RequestView,
    config: GatewayConfig,
    track: bool,
    t1: Seq<Call>,
    response: ResponseView,
    t2: Seq<Call>,
)
    requires
        script::run_request(first, config, track, true, t1) == script::ended(response),
        writer::ends_in_commit(t1),
        script::reads_back(response),
        first.idempotency_key is Some,
        again.idempotency_key == first.idempotency_key,
        again.operations == first.operations,
        finds(
            t2,
            first.idempotency_key->0,
            request::request_hash(first.operations),
            Some(script::response_text(response)),
        ),
    ensures
        only_answered(again, config, track, true, t2, response, t2.drop_first()),
{
    if script::first_refusal(first.operations, config) is Some {
        assert(t1.len() == 0);
    }
}

/// The same of a request that was first executed in a batch.
pub proof fn repeated_member_gets_the_same_response(
    first: RequestView,
    index: nat,
    again: RequestView,
    config: GatewayConfig,
    track: bool,
    t1: Seq<Call>,
    response: ResponseView,
    rest: Seq<Call>,
    t2: Seq<Call>,
)
    requires
        script::run_member(first, index, config, track, true, t1) == Some(
            (script::went_on(response), rest),
        ),
        script::record_reads_back(first, config, true, t1, response),
        response.status is Committed,
        first.idempotency_key is Some,
        t1.len() > 0,
        t1[0] == (Call::Lookup {
            sql: "SELECT request_hash, response_json FROM squeuelite_requests WHERE idempotency_key = ?1"@,
            key: first.idempotency_key->0,
            found: Ok(None),
        }),
        again.idempotency_key == first.idempotency_key,
        again.operations == first.operations,
        finds(
            t2,
            first.idempotency_key->0,
            request::request_hash(first.operations),
            Some(script::response_text(response)),
        ),
    ensures
        only_answered(again, config, track, true, t2, response, t2.drop_first()),
{
}

/// A key that was used with other operations is refused: the request is answered
/// with a conflict and is not executed.
pub proof fn reused_key_is_a_conflict(
    r: RequestView,
    config: GatewayConfig,
    track: bool,
    key: Seq<char>,
    hash: Seq<char>,
    json: Option<Seq<char>>,
    t: Seq<Call>,
)
    requires
        script::first_refusal(r.operations, config) is None,
        r.idempotency_key == Some(key),
        hash != request::request_hash(r.operations),
        finds(t, key, hash, json),
    ensures
        only_answered(
            r,
            config,
            track,
            true,
            t,
            request::failed(
                r.request_id,
                error::error_text(ErrorView::IdempotencyConflict(key)),
            ),
            t.drop_first(),
        ),
{
}

/// The same, with the operations that the key was used with: they differ from those
/// of the request.
pub proof fn key_of_other_operations_is_a_conflict(
    r: RequestView,
    others: Seq<OperationView>,
    config: GatewayConfig,
    track: bool,
    key: Seq<char>,
    json: Option<Seq<char>>,
    t: Seq<Call>,
)
    requires
        script::first_refusal(r.operations, config) is None,
        r.idempotency_key == Some(key),
        r.operations != others,
        request::is_hashed(r.operations),
        request::is_hashed(others),
        finds(t, key, request::request_hash(others), json),
    ensures
        only_answered(
            r,
            config,
            track,
            true,
            t,
            request::failed(
                r.request_id,
                error::error_text(ErrorView::IdempotencyConflict(key)),
            ),
            t.drop_first(),
        ),
{
    request::different_operations_have_different_hashes(r.operations, others);
    reused_key_is_a_conflict(r, config, track, key, request::request_hash(others), json, t);
}

/// A request that is refused for one of its statements makes no call at all.
pub proof fn refused_request_makes_no_call(
    r: RequestView,
    config: GatewayConfig,
    track: bool,
    idempotency: bool,
    t: Seq<Call>,
)
    requires
        script::first_refusal(r.operations, config) is Some,
    ensures
        only_answered(
            r,
            config,
            track,
            idempotency,
            t,
            request::failed(
                r.request_id,
                error::error_text(
                    ErrorView::SqlRejected(script::first_refusal(r.operations, config)->0),
                ),
            ),
            t,
        ),
{
}

/// The work of a request gives a number if and only if commits are tracked.
proof fn body_number(
    r: RequestView,
    track: bool,
    record: Option<(Seq<char>, Seq<char>)>,
    t: Seq<Call>,
)
    requires
        script::run_body(r, track, record, t) is Some,
    ensures
        ({
            let (worked, _) = script::run_body(r, track, record, t)->0;
            worked matches Ok(seq) ==> (seq is Some <==> track)
        }),
{
}

/// Whether a response says of an executed request what it should: the number of the
/// commit if and only if it was committed and commits are tracked, and an error if and
/// only if it failed.
pub open spec fn is_complete(r: RequestView, track: bool, response: ResponseView) -> bool {
    &&& response.request_id == r.request_id
    &&& response.commit_seq is Some <==> response.status is Committed && track
    &&& response.error is Some <==> response.status is Failed
}

/// The response to a request that was executed is complete. It reports a commit if
/// and only if the transaction was committed, and one measurement goes with a
/// commit, none with a failure.
pub proof fn executed_request_is_answered(
    r: RequestView,
    config: GatewayConfig,
    track: bool,
    idempotency: bool,
    t: Seq<Call>,
    response: ResponseView,
    before: Seq<u64>,
    after: Seq<u64>,
)
    requires
        script::run_request(r, config, track, idempotency, t) == script::ended(response),
        script::consider(r, config, idempotency, t) matches Some((Standing::New(_), _)),
        writer::measured(t, before, after),
    ensures
        is_complete(r, track, response),
        response.status is Committed <==> writer::ends_in_commit(t),
        response.status is Committed ==> exists|micros: u64|
            latency::is_measurement(micros) && after == #[trigger] latency::pushed(before, micros),
        response.status is Failed ==> after == before,
{
    let (standing, rest) = script::consider(r, config, idempotency, t)->0;
    let record = standing->New_0;
    let never = |s: Seq<char>| false;
    let l = Ledger { durable: Seq::empty(), pending: None, marks: Seq::empty() };
    transaction_effect(r, track, record, rest, response, l, never);
    assert(rest.len() > 0);
    assert(t.last() == rest.last());
    if response.status is Failed {
        assert(response.error is Some && response.commit_seq is None);
    }
}

/// The response to a request of a batch that was executed is complete.
pub proof fn executed_member_is_answered(
    r: RequestView,
    index: nat,
    config: GatewayConfig,
    track: bool,
    idempotency: bool,
    t: Seq<Call>,
    run: script::MemberRun,
    rest: Seq<Call>,
)
    requires
        script::run_member(r, index, config, track, idempotency, t) == Some((run, rest)),
        script::consider(r, config, idempotency, t) matches Some((Standing::New(_), _)),
    ensures
        is_complete(r, track, run.response),
{
    let (standing, t1) = script::consider(r, config, idempotency, t)->0;
    let (begun, t2) = script::after_batch(t1, script::savepoint_sql(index))->0;
    if begun is Ok {
        body_number(r, track, standing->New_0, t2);
    }
}

/// Whether a request was executed by the calls `t` up to the last `rest`, with the
/// response `response`: alone, or, where `place` is given, in that place of a batch.
pub open spec fn is_executed(
    r: RequestView,
    place: Option<nat>,
    config: GatewayConfig,
    track: bool,
    idempotency: bool,
    t: Seq<Call>,
    response: ResponseView,
    rest: Seq<Call>,
) -> bool {
    &&& script::consider(r, config, idempotency, t) matches Some((Standing::New(_), _))
    &&& match place {
        None => script::run_request(r, config, track, idempotency, t) == Some((response, rest)),
        Some(index) => script::run_member(r, index, config, track, idempotency, t) == Some(
            (script::went_on(response), rest),
        ),
    }
}

/// The calls in `t` before the last `rest`.
pub open spec fn calls_before(t: Seq<Call>, rest: Seq<Call>) -> Seq<Call> {
    t.take(t.len() - rest.len())
}

/// The number that the work of a request gives was read from SQLite, and calls
/// followed it if a response was recorded.
proof fn body_reads_its_number(
    r: RequestView,
    record: Option<(Seq<char>, Seq<char>)>,
    t: Seq<Call>,
) -> (at: int)
    requires
        script::run_body(r, true, record, t) is Some,
        ({
            let (worked, _) = script::run_body(r, true, record, t)->0;
            worked is Ok
        }),
    ensures
        ({
            let (worked, rest) = script::run_body(r, true, record, t)->0;
            &&& worked->Ok_0 is Some
            &&& rest.len() < t.len()
            &&& 0 <= at < t.len() - rest.len()
            &&& t[at] == (Call::RowId { id: worked->Ok_0->0 })
        }),
{
    let never = |s: Seq<char>| false;
    let l = Ledger { durable: Seq::empty(), pending: Some(Seq::empty()), marks: Seq::empty() };
    let (_, t1) = script::run_operations(r.operations, t)->0;
    let l2 = operations_add_up(r.operations, t, l, never);
    assert(t1 =~= t.subrange(t.len() - t1.len(), t.len() as int));
    assert(t1.drop_first()[0] == t1[1]);
    assert(t1[1] == t[t.len() - t1.len() + 1]);
    t.len() - t1.len() + 1
}

/// The number of a commit was read from SQLite.
proof fn number_was_read(
    r: RequestView,
    place: Option<nat>,
    config: GatewayConfig,
    idempotency: bool,
    t: Seq<Call>,
    response: ResponseView,
    rest: Seq<Call>,
) -> (at: int)
    requires
        is_executed(r, place, config, true, idempotency, t, response, rest),
        response.status is Committed,
    ensures
        response.commit_seq is Some,
        0 <= at < calls_before(t, rest).len(),
        calls_before(t, rest)[at] == (Call::RowId { id: response.commit_seq->0 }),
{
    let (standing, t1) = script::consider(r, config, idempotency, t)->0;
    let t2 = t1.drop_first();
    let i = body_reads_its_number(r, standing->New_0, t2);
    let (_, t3) = script::run_body(r, true, standing->New_0, t2)->0;
    assert(t3.drop_first() == rest);
    let at = i + 1 + (t.len() - t1.len());
    assert(t2[i] == t1[i + 1]);
    assert(t1[i + 1] == t[at]);
    at
}

/// Whether every row identifier that is read in `t2` is greater than those that are
/// read in `t1`.
pub open spec fn row_ids_grow(t1: Seq<Call>, t2: Seq<Call>) -> bool {
    forall|i: int, j: int|
        #![trigger t1[i], t2[j]]
        0 <= i < t1.len() && 0 <= j < t2.len() ==> match (t1[i], t2[j]) {
            (Call::RowId { id: a }, Call::RowId { id: b }) => a < b,
            _ => true,
        }
}

/// Commits are numbered in their order: of two requests that were committed, alone or
/// in a batch, the later one has the greater number. SQLite is taken to give a new row
/// a greater identifier than any that is there, as it does for an `AUTOINCREMENT` key.
pub proof fn commits_are_numbered_in_order(
    r1: RequestView,
    place1: Option<nat>,
    t1: Seq<Call>,
    response1: ResponseView,
    rest1: Seq<Call>,
    r2: RequestView,
    place2: Option<nat>,
    t2: Seq<Call>,
    response2: ResponseView,
    rest2: Seq<Call>,
    config: GatewayConfig,
    idempotency: bool,
)
    requires
        is_executed(r1, place1, config, true, idempotency, t1, response1, rest1),
        is_executed(r2, place2, config, true, idempotency, t2, response2, rest2),
        response1.status is Committed,
        response2.status is Committed,
        row_ids_grow(calls_before(t1, rest1), calls_before(t2, rest2)),
    ensures
        response1.commit_seq is Some,
        response2.commit_seq is Some,
        response1.commit_seq->0 < response2.commit_seq->0,
{
    let i = number_was_read(r1, place1, config, idempotency, t1, response1, rest1);
    let j = number_was_read(r2, place2, config, idempotency, t2, response2, rest2);
    assert(calls_before(t1, rest1)[i] is RowId && calls_before(t2, rest2)[j] is RowId);
}

/// The statements that a query sees: those that last, then those of the open
/// transaction.
pub open spec fn in_effect(l: Ledger) -> Seq<Statement> {
    match l.pending {
        Some(p) => l.durable + p,
        None => l.durable,
    }
}

/// Whether `s` records a response under `key`.
pub open spec fn is_record(s: Statement, key: Seq<char>) -> bool {
    &&& s.sql
        == "INSERT OR IGNORE INTO squeuelite_requests (idempotency_key, request_hash, status, response_json, commit_seq) VALUES (?1, ?2, 'committed', ?3, ?4)"@
    &&& s.params.len() == 4
    &&& s.params[0] == SqlView::Text(key)
    &&& s.params[1] is Text
    &&& s.params[2] is Text
}

/// The hash and the response that stand under `key` after some statements. The first
/// record under a key stays.
pub open spec fn record_under(ss: Seq<Statement>, key: Seq<char>) -> Option<
    (Seq<char>, Option<Seq<char>>),
>
    decreases ss.len(),
{
    if ss.len() == 0 {
        None
    } else if is_record(ss[0], key) {
        Some((ss[0].params[1]->Text_0, Some(ss[0].params[2]->Text_0)))
    } else {
        record_under(ss.drop_first(), key)
    }
}

/// Whether the first of the calls `t` looks `key` up and is answered from what is in
/// effect.
pub open spec fn finds_in(l: Ledger, t: Seq<Call>, key: Seq<char>) -> bool {
    t.len() > 0 && t[0] == (Call::Lookup {
        sql: "SELECT request_hash, response_json FROM squeuelite_requests WHERE idempotency_key = ?1"@,
        key,
        found: Ok(record_under(in_effect(l), key)),
    })
}

proof fn record_in_two(a: Seq<Statement>, b: Seq<Statement>, key: Seq<char>)
    ensures
        record_under(a + b, key) == (match record_under(a, key) {
            Some(found) => Some(found),
            None => record_under(b, key),
        }),
    decreases a.len(),
{
    if a.len() == 0 {
        assert(a + b =~= b);
    } else {
        assert((a + b).drop_first() =~= a.drop_first() + b);
        record_in_two(a.drop_first(), b, key);
    }
}

/// Among statements none of which is a record under a key, no record is found.
pub(crate) proof fn no_record_among(ss: Seq<Statement>, key: Seq<char>)
    requires
        forall|i: int| 0 <= i < ss.len() ==> !is_record(#[trigger] ss[i], key),
    ensures
        record_under(ss, key) is None,
    decreases ss.len(),
{
    if ss.len() > 0 {
        assert(!is_record(ss[0], key));
        assert forall|i: int| 0 <= i < ss.drop_first().len() implies !is_record(
            #[trigger] ss.drop_first()[i],
            key,
        ) by {
            assert(ss.drop_first()[i] == ss[i + 1]);
        }
        no_record_among(ss.drop_first(), key);
    }
}

/// What lasts is not lost, whatever is called later.
pub proof fn what_lasts_stays(l: Ledger, t: Seq<Call>, ends: spec_fn(Seq<char>) -> bool)
    ensures
        l.durable.is_prefix_of(replay(l, t, ends).durable),
    decreases t.len(),
{
    assert(l.durable =~= l.durable.subrange(0, l.durable.len() as int));
    if t.len() > 0 {
        let l1 = step(l, t[0], ends);
        assert(l.durable =~= l1.durable.subrange(0, l.durable.len() as int));
        what_lasts_stays(l1, t.drop_first(), ends);
        let d = replay(l, t, ends).durable;
        assert(l1.durable =~= d.subrange(0, l1.durable.len() as int));
        assert(l.durable =~= d.subrange(0, l.durable.len() as int));
    }
}

/// A record that lasts is found, whatever is called later.
proof fn record_stays(
    l: Ledger,
    t: Seq<Call>,
    ends: spec_fn(Seq<char>) -> bool,
    key: Seq<char>,
)
    requires
        record_under(l.durable, key) is Some,
    ensures
        record_under(in_effect(replay(l, t, ends)), key) == record_under(l.durable, key),
{
    let l2 = replay(l, t, ends);
    what_lasts_stays(l, t, ends);
    let all = in_effect(l2);
    let n = l.durable.len() as int;
    assert(l.durable =~= l2.durable.subrange(0, n));
    assert(all =~= l.durable + all.skip(n));
    record_in_two(l.durable, all.skip(n), key);
}

/// Whether no operation of a request writes to the record of responses as the writer
/// does.
pub open spec fn leaves_the_record(r: RequestView) -> bool {
    forall|i: int|
        0 <= i < r.operations.len() ==> (#[trigger] r.operations[i]).sql
            != "INSERT OR IGNORE INTO squeuelite_requests (idempotency_key, request_hash, status, response_json, commit_seq) VALUES (?1, ?2, 'committed', ?3, ?4)"@
}

/// A request with a key that was executed alone leaves its response under the key.
proof fn response_is_recorded(
    r: RequestView,
    config: GatewayConfig,
    track: bool,
    key: Seq<char>,
    t: Seq<Call>,
    response: ResponseView,
    l: Ledger,
    ends: spec_fn(Seq<char>) -> bool,
)
    requires
        script::run_request(r, config, track, true, t) == script::ended(response),
        writer::ends_in_commit(t),
        stays_open(r, config, ends),
        leaves_the_record(r),
        r.idempotency_key == Some(key),
        finds_in(l, t, key),
    ensures
        record_under(replay(l, t, ends).durable, key) == Some(
            (request::request_hash(r.operations), Some(script::response_text(response))),
        ),
{
    request_is_atomic(r, config, track, true, t, response, l, ends);
    if script::first_refusal(r.operations, config) is Some {
        assert(t.len() == 0);
    }
    if record_under(in_effect(l), key) is Some {
        assert(t.drop_first().len() == 0);
        assert(t.last() == t[0]);
    }
    if l.pending is Some {
        record_in_two(l.durable, l.pending->0, key);
    }
    let ops = operation_statements(r.operations);
    let commit = commit_statement(r, track);
    let record = response_statement(r, record_of(r, true), response.commit_seq);
    assert forall|i: int| 0 <= i < ops.len() implies !is_record(#[trigger] ops[i], key) by {
        assert(ops[i].sql == r.operations[i].sql);
    }
    no_record_among(ops, key);
    reveal_strlit("INSERT INTO squeuelite_commits(request_id, actor_id, run_id) VALUES (?, ?, ?)");
    reveal_strlit(
        "INSERT OR IGNORE INTO squeuelite_requests (idempotency_key, request_hash, status, response_json, commit_seq) VALUES (?1, ?2, 'committed', ?3, ?4)",
    );
    assert(script::record_commit_sql()[7] == 'I' && script::record_response_sql()[7] == 'O');
    no_record_among(commit, key);
    record_in_two(ops, commit, key);
    record_in_two(ops + commit, record, key);
    record_in_two(l.durable, ops + commit + record, key);
    assert(is_record(record[0], key));
}

/// A request with an idempotency key is executed once. Sent again with the same
/// operations, at any later time, it gets the response that the first one got, with its
/// identifier and number; nothing is executed and nothing changes. Both lookups are
/// taken to be answered from what is in effect.
pub proof fn request_with_a_key_is_executed_once(
    first: RequestView,
    again: RequestView,
    config: GatewayConfig,
    track: bool,
    key: Seq<char>,
    t1: Seq<Call>,
    response: ResponseView,
    between: Seq<Call>,
    t2: Seq<Call>,
    l: Ledger,
    ends: spec_fn(Seq<char>) -> bool,
)
    requires
        script::run_request(first, config, track, true, t1) == script::ended(response),
        writer::ends_in_commit(t1),
        script::reads_back(response),
        stays_open(first, config, ends),
        leaves_the_record(first),
        first.idempotency_key == Some(key),
        finds_in(l, t1, key),
        again.idempotency_key == Some(key),
        again.operations == first.operations,
        finds_in(replay(replay(l, t1, ends), between, ends), t2, key),
    ensures
        only_answered(again, config, track, true, t2, response, t2.drop_first()),
        step(replay(replay(l, t1, ends), between, ends), t2[0], ends) == replay(
            replay(l, t1, ends),
            between,
            ends,
        ),
        !writer::ends_in_commit(seq![t2[0]]),
{
    response_is_recorded(first, config, track, key, t1, response, l, ends);
    record_stays(replay(l, t1, ends), between, ends, key);
    repeated_request_gets_the_same_response(first, again, config, track, t1, response, t2);
}

/// A request that failed may be sent again: it left no record, so the next request
/// with its key is executed, whatever its operations are. The transaction is taken to
/// be over, and the lookup to be answered from what is in effect.
pub proof fn failed_request_is_executed_anew(
    first: RequestView,
    again: RequestView,
    config: GatewayConfig,
    track: bool,
    key: Seq<char>,
    t1: Seq<Call>,
    response: ResponseView,
    t2: Seq<Call>,
    l: Ledger,
    ends: spec_fn(Seq<char>) -> bool,
)
    requires
        script::run_request(first, config, track, true, t1) == script::ended(response),
        response.status is Failed,
        stays_open(first, config, ends),
        record_under(l.durable, key) is None,
        replay(l, t1, ends).pending is None,
        again.idempotency_key == Some(key),
        script::first_refusal(again.operations, config) is None,
        finds_in(replay(l, t1, ends), t2, key),
    ensures
        record_under(in_effect(replay(l, t1, ends)), key) is None,
        script::consider(again, config, true, t2) == Some(
            (
                Standing::New(Some((key, request::request_hash(again.operations)))),
                t2.drop_first(),
            ),
        ),
        script::run_request(again, config, track, true, t2) == script::run_transaction(
            again,
            track,
            Some((key, request::request_hash(again.operations))),
            t2.drop_first(),
        ),
{
    request_is_atomic(first, config, track, true, t1, response, l, ends);
}

/// The gateway's own tables after some calls, of those that were there before. A
/// table that is there is not created again.
pub open spec fn tables_after(tables: Set<Seq<char>>, t: Seq<Call>) -> Set<Seq<char>>
    decreases t.len(),
{
    if t.len() == 0 {
        tables
    } else {
        let more = match t[0] {
            Call::Batch { sql, outcome: Ok(_) } => if sql
                == "CREATE TABLE IF NOT EXISTS squeuelite_commits (
                seq          INTEGER PRIMARY KEY AUTOINCREMENT,
                request_id   TEXT NOT NULL,
                actor_id     TEXT NOT NULL,
                run_id       TEXT,
                committed_at TEXT NOT NULL DEFAULT CURRENT_TIMESTAMP
            );"@ {
                tables.insert("squeuelite_commits"@)
            } else if sql
                == "CREATE TABLE IF NOT EXISTS squeuelite_requests (
                idempotency_key TEXT PRIMARY KEY,
                request_hash    TEXT NOT NULL,
                status          TEXT NOT NULL,
                response_json   TEXT,
                commit_seq      INTEGER,
                created_at      TEXT NOT NULL DEFAULT CURRENT_TIMESTAMP,
                updated_at      TEXT NOT NULL DEFAULT CURRENT_TIMESTAMP
            );"@ {
                tables.insert("squeuelite_requests"@)
            } else {
                tables
            },
            _ => tables,
        };
        tables_after(more, t.drop_first())
    }
}

/// The tables that are wanted, beside those that are there.
pub open spec fn wanted_tables(tables: Set<Seq<char>>, track: bool, idempotency: bool) -> Set<
    Seq<char>,
> {
    let first = if track {
        tables.insert("squeuelite_commits"@)
    } else {
        tables
    };
    if idempotency {
        first.insert("squeuelite_requests"@)
    } else {
        first
    }
}

/// Once the gateway's own tables could be created, those are there that are wanted or
/// were there before, and no statement has changed a row. Creating them again changes
/// nothing.
pub proof fn wanted_tables_are_created(
    track: bool,
    idempotency: bool,
    t: Seq<Call>,
    again: Seq<Call>,
    tables: Set<Seq<char>>,
    l: Ledger,
    ends: spec_fn(Seq<char>) -> bool,
)
    requires
        script::create_tables(track, idempotency, t) == script::ended(store::done()),
        script::create_tables(track, idempotency, again) == script::ended(store::done()),
    ensures
        tables_after(tables, t) == wanted_tables(tables, track, idempotency),
        replay(l, t, ends) == l,
        tables_after(tables_after(tables, t), again) == tables_after(tables, t),
{
    tables_are_created(track, idempotency, t, tables, l, ends);
    tables_are_created(track, idempotency, again, tables_after(tables, t), l, ends);
    assert(wanted_tables(wanted_tables(tables, track, idempotency), track, idempotency)
        =~= wanted_tables(tables, track, idempotency));
}

proof fn tables_are_created(
    track: bool,
    idempotency: bool,
    t: Seq<Call>,
    tables: Set<Seq<char>>,
    l: Ledger,
    ends: spec_fn(Seq<char>) -> bool,
)
    requires
        script::create_tables(track, idempotency, t) == script::ended(store::done()),
    ensures
        tables_after(tables, t) == wanted_tables(tables, track, idempotency),
        replay(l, t, ends) == l,
{
    definitions_are_plain();
    reveal_with_fuel(tables_after, 3);
    reveal_with_fuel(replay, 3);
    if t.len() > 0 {
        let t1 = t.drop_first();
        if t1.len() > 0 {
            assert(t1.drop_first().len() == 0);
        }
    }
}

/// The definitions of the tables differ, and do not control transactions.
proof fn definitions_are_plain()
    ensures
        script::commits_table_sql() != script::requests_table_sql(),
        control(script::commits_table_sql()) is Other,
        control(script::requests_table_sql()) is Other,
{
    reveal_strlit("BEGIN IMMEDIATE");
    reveal_strlit("COMMIT");
    reveal_strlit("ROLLBACK");
    reveal_strlit("SAVEPOINT ");
    reveal_strlit("RELEASE ");
    reveal_strlit("ROLLBACK TO ");
    reveal_strlit(
        "CREATE TABLE IF NOT EXISTS squeuelite_commits (
                seq          INTEGER PRIMARY KEY AUTOINCREMENT,
                request_id   TEXT NOT NULL,
                actor_id     TEXT NOT NULL,
                run_id       TEXT,
                committed_at TEXT NOT NULL DEFAULT CURRENT_TIMESTAMP
            );",
    );
    reveal_strlit(
        "CREATE TABLE IF NOT EXISTS squeuelite_requests (
                idempotency_key TEXT PRIMARY KEY,
                request_hash    TEXT NOT NULL,
                status          TEXT NOT NULL,
                response_json   TEXT,
                commit_seq      INTEGER,
                created_at      TEXT NOT NULL DEFAULT CURRENT_TIMESTAMP,
                updated_at      TEXT NOT NULL DEFAULT CURRENT_TIMESTAMP
            );",
    );
    let a = script::commits_table_sql();
    let b = script::requests_table_sql();
    assert(a[38] == 'c' && b[38] == 'r');
    assert(a[0] == 'C' && b[0] == 'C' && a[1] == 'R' && b[1] == 'R');
    assert("COMMIT"@[1] == 'O' && "BEGIN IMMEDIATE"@[0] == 'B' && "ROLLBACK"@[0] == 'R');
    assert("SAVEPOINT "@[0] == 'S' && "RELEASE "@[0] == 'R' && "ROLLBACK TO "@[0] == 'R');
    assert("SAVEPOINT "@.is_prefix_of(a) ==> a[0] == "SAVEPOINT "@[0]);
    assert("RELEASE "@.is_prefix_of(a) ==> a[0] == "RELEASE "@[0]);
    assert("ROLLBACK TO "@.is_prefix_of(a) ==> a[0] == "ROLLBACK TO "@[0]);
    assert("SAVEPOINT "@.is_prefix_of(b) ==> b[0] == "SAVEPOINT "@[0]);
    assert("RELEASE "@.is_prefix_of(b) ==> b[0] == "RELEASE "@[0]);
    assert("ROLLBACK TO "@.is_prefix_of(b) ==> b[0] == "ROLLBACK TO "@[0]);
}

} // verus!
