//! The lines of a small client that numbers its calls and may give a request an
//! idempotency key and a run.
use vstd::prelude::*;

use crate::client;
use crate::json;
use crate::json::{Json, JsonView};
use crate::jsonrpc;
use crate::request;
use crate::request::{OperationView, RequestView};
use crate::text;

verus! {

/// Makes the lines of a client. Each call gets the next number as its identifier.
#[derive(Debug, Clone)]
pub struct Calls {
    actor_id: String,
    counter: u64,
}

/// The member `key` with a text, if there is one.
pub open spec fn opt_member(key: Seq<char>, s: Option<Seq<char>>) -> Seq<(Seq<char>, JsonView)> {
    match s {
        Some(t) => seq![(key, JsonView::Text(t))],
        None => Seq::empty(),
    }
}

/// The operations of a call: statements with their parameters.
pub open spec fn operations_json(ops: Seq<(Seq<char>, JsonView)>) -> JsonView {
    JsonView::Array(
        Seq::new(
            ops.len(),
            |i: int|
                JsonView::Object(
                    seq![("sql"@, JsonView::Text(ops[i].0)), ("params"@, ops[i].1)],
                ),
        ),
    )
}

/// The parameters of a call that executes operations.
pub open spec fn execute_params(
    actor_id: Seq<char>,
    ops: Seq<(Seq<char>, JsonView)>,
    idempotency_key: Option<Seq<char>>,
    run_id: Option<Seq<char>>,
) -> JsonView {
    JsonView::Object(
        seq![("actor_id"@, JsonView::Text(actor_id)), ("operations"@, operations_json(ops))]
            + opt_member("idempotency_key"@, idempotency_key) + opt_member("run_id"@, run_id),
    )
}

/// The request object of a call.
pub open spec fn call_json(id: u64, method: Seq<char>, params: Option<JsonView>) -> JsonView {
    JsonView::Object(
        seq![
            ("jsonrpc"@, JsonView::Text("2.0"@)),
            ("id"@, JsonView::Number(json::uint_number(id))),
            ("method"@, JsonView::Text(method)),
        ] + (match params {
            Some(p) => seq![("params"@, p)],
            None => Seq::empty(),
        }),
    )
}

/// The values of some statements with their parameters.
pub open spec fn op_views(ops: Seq<(String, Json)>) -> Seq<(Seq<char>, JsonView)> {
    Seq::new(ops.len(), |i: int| (ops[i].0@, ops[i].1@))
}

/// The operations of a call whose parameters are lists.
pub open spec fn called_operations(ops: Seq<(Seq<char>, JsonView)>) -> Seq<OperationView> {
    Seq::new(ops.len(), |i: int| OperationView { sql: ops[i].0, params: ops[i].1->Array_0 })
}

/// The request that the gateway reads from a call that executes operations. Its
/// identifier is the number of the call, and the members of objects among the
/// parameters come in the order of their keys.
pub open spec fn called_request(
    id: u64,
    actor_id: Seq<char>,
    ops: Seq<(Seq<char>, JsonView)>,
    idempotency_key: Option<Seq<char>>,
    run_id: Option<Seq<char>>,
) -> RequestView {
    request::ordered_request(
        RequestView {
            request_id: json::json_text(JsonView::Number(json::uint_number(id))),
            actor_id,
            run_id,
            idempotency_key,
            operations: called_operations(ops),
        },
    )
}

/// Whether the parameters of every operation are a list, and there are operations.
pub open spec fn are_executable(ops: Seq<(Seq<char>, JsonView)>) -> bool {
    ops.len() > 0 && forall|i: int| 0 <= i < ops.len() ==> (#[trigger] ops[i]).1 is Array
}

/// What a call asks to be executed is what the gateway executes, under the number of
/// the call.
pub proof fn transaction_call_is_understood(
    id: u64,
    actor_id: Seq<char>,
    ops: Seq<(Seq<char>, JsonView)>,
    idempotency_key: Option<Seq<char>>,
    run_id: Option<Seq<char>>,
    line: Seq<char>,
    fallback: Seq<char>,
)
    requires
        json::reads_as(
            line,
            call_json(
                id,
                "execute"@,
                Some(execute_params(actor_id, ops, idempotency_key, run_id)),
            ),
        ),
        are_executable(ops),
    ensures
        jsonrpc::line_route(line, fallback) == (jsonrpc::RoutedView::Execute {
            id: JsonView::Number(json::uint_number(id)),
            request: called_request(id, actor_id, ops, idempotency_key, run_id),
        }),
{
    client::call_keys();
    let params = execute_params(actor_id, ops, idempotency_key, run_id);
    let o = call_json(id, "execute"@, Some(params))->Object_0;
    let p = params->Object_0;
    reveal_with_fuel(json::field, 6);
    assert(o.drop_first()[0] == o[1]);
    assert(o.drop_first().drop_first()[0] == o[2]);
    assert(o.drop_first().drop_first().drop_first()[0] == o[3]);
    assert(o.drop_first().drop_first().drop_first().drop_first().len() == 0);
    let p1 = p.drop_first();
    let p2 = p1.drop_first();
    assert(p1[0] == p[1]);
    assert(p2.len() > 0 ==> p2[0] == p[2]);
    assert(p2.len() > 1 ==> p2.drop_first()[0] == p[3]);
    assert(json::field(p, "run_id"@) == (match run_id {
        Some(s) => Some(JsonView::Text(s)),
        None => None,
    }));
    assert(json::field(p, "idempotency_key"@) == (match idempotency_key {
        Some(s) => Some(JsonView::Text(s)),
        None => None,
    }));
    json::field_of_ordered(o, "jsonrpc"@);
    json::field_of_ordered(o, "id"@);
    json::field_of_ordered(o, "method"@);
    json::field_of_ordered(o, "params"@);
    assert(json::distinct_keys(p));
    json::field_of_ordered(p, "actor_id"@);
    json::field_of_ordered(p, "run_id"@);
    json::field_of_ordered(p, "idempotency_key"@);
    json::field_of_ordered(p, "operations"@);
    let called = called_operations(ops);
    assert(operations_json(ops)->Array_0 =~= request::operations_json(called)->Array_0);
    client::operations_are_understood(called);
    assert(json::ordered(operations_json(ops))->Array_0.len() > 0);
}

/// The gateway reads the method of a call without parameters.
pub proof fn method_call_is_understood(
    id: u64,
    method: Seq<char>,
    line: Seq<char>,
    fallback: Seq<char>,
)
    requires
        json::reads_as(line, call_json(id, method, None)),
    ensures
        jsonrpc::line_route(line, fallback) == jsonrpc::method_route(
            JsonView::Number(json::uint_number(id)),
            method,
            JsonView::Null,
            fallback,
        ),
{
    client::call_keys();
    let o = call_json(id, method, None)->Object_0;
    reveal_with_fuel(json::field, 4);
    assert(o.drop_first()[0] == o[1]);
    assert(o.drop_first().drop_first()[0] == o[2]);
    assert(o.drop_first().drop_first().drop_first().len() == 0);
    json::field_of_ordered(o, "jsonrpc"@);
    json::field_of_ordered(o, "id"@);
    json::field_of_ordered(o, "method"@);
    json::field_of_ordered(o, "params"@);
}

impl Calls {
    /// On whose behalf the calls are made.
    pub closed spec fn actor(&self) -> Seq<char> {
        self.actor_id@
    }

    /// How many calls were made.
    pub closed spec fn made(&self) -> u64 {
        self.counter
    }

    /// Calls on behalf of `actor_id`, none of which was made yet.
    pub fn new(actor_id: &str) -> (r: Self)
        ensures
            r.actor() == actor_id@,
            r.made() == 0,
    {
        Calls { actor_id: actor_id.to_owned(), counter: 0 }
    }

    /// The number of the next call.
    fn next_id(&mut self) -> (r: u64)
        requires
            old(self).made() < u64::MAX,
        ensures
            r == old(self).made() + 1,
            final(self).made() == r,
            final(self).actor() == old(self).actor(),
    {
        self.counter = self.counter + 1;
        self.counter
    }

    /// The line that executes `(sql, params)` pairs in one transaction. The gateway
    /// reads the same from it, if the parameters are lists and can be read back
    /// from their text.
    pub fn transaction_line(
        &mut self,
        ops: Vec<(String, Json)>,
        idempotency_key: Option<&str>,
        run_id: Option<&str>,
    ) -> (r: String)
        requires
            old(self).made() < u64::MAX,
        ensures
            r@ == json::json_text(
                call_json(
                    (old(self).made() + 1) as u64,
                    "execute"@,
                    Some(
                        execute_params(
                            old(self).actor(),
                            op_views(ops@),
                            text::opt_str(idempotency_key),
                            text::opt_str(run_id),
                        ),
                    ),
                ),
            ),
            json::is_one_line(r@),
            are_executable(op_views(ops@)) && json::plain(
                execute_params(
                    old(self).actor(),
                    op_views(ops@),
                    text::opt_str(idempotency_key),
                    text::opt_str(run_id),
                ),
                (json::MAX_NESTING - 1) as nat,
            ) ==> forall|fallback: Seq<char>| #[trigger]
                jsonrpc::line_route(r@, fallback) == (jsonrpc::RoutedView::Execute {
                    id: JsonView::Number(json::uint_number((old(self).made() + 1) as u64)),
                    request: called_request(
                        (old(self).made() + 1) as u64,
                        old(self).actor(),
                        op_views(ops@),
                        text::opt_str(idempotency_key),
                        text::opt_str(run_id),
                    ),
                }),
            final(self).made() == old(self).made() + 1,
            final(self).actor() == old(self).actor(),
    {
        proof {
            client::call_keys();
        }
        let ghost parts = ops@;
        let mut list: Vec<Json> = Vec::new();
        for x in it: ops
            invariant
                it.seq() == parts,
                "sql"@ != "params"@,
                list@.len() == it.index(),
                forall|k: int|
                    0 <= k < it.index() ==> (#[trigger] list@[k])@ == operations_json(
                        op_views(parts),
                    )->Array_0[k],
        {
            let (sql, params) = x;
            let op = json::object(vec![("sql", Json::Text(sql)), ("params", params)]);
            assert(op@->Object_0 =~= seq![
                ("sql"@, JsonView::Text(sql@)),
                ("params"@, params@),
            ]);
            list.push(op);
        }
        let operations = Json::Array(list);
        assert(operations@->Array_0 =~= operations_json(op_views(parts))->Array_0);
        let mut fields = vec![
            ("actor_id", Json::Text(self.actor_id.clone())),
            ("operations", operations),
        ];
        if let Some(key) = idempotency_key {
            fields.push(("idempotency_key", Json::text(key)));
        }
        if let Some(run) = run_id {
            fields.push(("run_id", Json::text(run)));
        }
        let params = json::object(fields);
        assert(params@->Object_0 =~= execute_params(
            self.actor(),
            op_views(parts),
            text::opt_str(idempotency_key),
            text::opt_str(run_id),
        )->Object_0);
        let id = self.next_id();
        let call = json::object(
            vec![
                ("jsonrpc", Json::text("2.0")),
                ("id", Json::Number(json::number_from_uint(id))),
                ("method", Json::text("execute")),
                ("params", params),
            ],
        );
        assert(call@->Object_0 =~= call_json(id, "execute"@, Some(params@))->Object_0);
        let r = call.to_text();
        proof {
            let views = op_views(parts);
            let key = text::opt_str(idempotency_key);
            let run = text::opt_str(run_id);
            if are_executable(views) && json::plain(params@, (json::MAX_NESTING - 1) as nat) {
                assert(json::plain(call@, json::MAX_NESTING as nat)) by {
                    reveal_with_fuel(json::plain, 2);
                    json::token_begins_with_a_dollar();
                    reveal_strlit("jsonrpc");
                    assert("jsonrpc"@[0] == 'j');
                    assert(json::is_uint(json::uint_number(id)));
                }
                assert forall|fallback: Seq<char>| #[trigger]
                    jsonrpc::line_route(r@, fallback) == (jsonrpc::RoutedView::Execute {
                        id: JsonView::Number(json::uint_number(id)),
                        request: called_request(id, self.actor(), views, key, run),
                    }) by {
                    transaction_call_is_understood(
                        id,
                        self.actor(),
                        views,
                        key,
                        run,
                        r@,
                        fallback,
                    );
                }
            }
        }
        r
    }

    /// The line that executes one statement as a transaction.
    pub fn execute_line(
        &mut self,
        sql: &str,
        params: Json,
        idempotency_key: Option<&str>,
        run_id: Option<&str>,
    ) -> (r: String)
        requires
            old(self).made() < u64::MAX,
        ensures
            r@ == json::json_text(
                call_json(
                    (old(self).made() + 1) as u64,
                    "execute"@,
                    Some(
                        execute_params(
                            old(self).actor(),
                            seq![(sql@, params@)],
                            text::opt_str(idempotency_key),
                            text::opt_str(run_id),
                        ),
                    ),
                ),
            ),
            json::is_one_line(r@),
            params@ is Array && json::plain(
                execute_params(
                    old(self).actor(),
                    seq![(sql@, params@)],
                    text::opt_str(idempotency_key),
                    text::opt_str(run_id),
                ),
                (json::MAX_NESTING - 1) as nat,
            ) ==> forall|fallback: Seq<char>| #[trigger]
                jsonrpc::line_route(r@, fallback) == (jsonrpc::RoutedView::Execute {
                    id: JsonView::Number(json::uint_number((old(self).made() + 1) as u64)),
                    request: called_request(
                        (old(self).made() + 1) as u64,
                        old(self).actor(),
                        seq![(sql@, params@)],
                        text::opt_str(idempotency_key),
                        text::opt_str(run_id),
                    ),
                }),
            final(self).made() == old(self).made() + 1,
            final(self).actor() == old(self).actor(),
    {
        let ops = vec![(sql.to_owned(), params)];
        assert(op_views(ops@) =~= seq![(sql@, params@)]);
        self.transaction_line(ops, idempotency_key, run_id)
    }

    /// The line that calls a method without parameters: `stats`, `health` or
    /// `checkpoint`. The gateway reads that method from it.
    pub fn method_line(&mut self, method: &str) -> (r: String)
        requires
            old(self).made() < u64::MAX,
        ensures
            r@ == json::json_text(call_json((old(self).made() + 1) as u64, method@, None)),
            json::is_one_line(r@),
            forall|fallback: Seq<char>| #[trigger]
                jsonrpc::line_route(r@, fallback) == jsonrpc::method_route(
                    JsonView::Number(json::uint_number((old(self).made() + 1) as u64)),
                    method@,
                    JsonView::Null,
                    fallback,
                ),
            final(self).made() == old(self).made() + 1,
            final(self).actor() == old(self).actor(),
    {
        proof {
            client::call_keys();
        }
        let id = self.next_id();
        let call = json::object(
            vec![
                ("jsonrpc", Json::text("2.0")),
                ("id", Json::Number(json::number_from_uint(id))),
                ("method", Json::text(method)),
            ],
        );
        assert(call@->Object_0 =~= call_json(id, method@, None)->Object_0);
        let r = call.to_text();
        proof {
            assert(json::plain(call@, json::MAX_NESTING as nat)) by {
                reveal_with_fuel(json::plain, 3);
                json::token_begins_with_a_dollar();
                reveal_strlit("jsonrpc");
                assert("jsonrpc"@[0] == 'j');
                assert(json::is_uint(json::uint_number(id)));
            }
            assert forall|fallback: Seq<char>| #[trigger]
                jsonrpc::line_route(r@, fallback) == jsonrpc::method_route(
                    JsonView::Number(json::uint_number(id)),
                    method@,
                    JsonView::Null,
                    fallback,
                ) by {
                method_call_is_understood(id, method@, r@, fallback);
            }
        }
        r
    }

    /// How many calls were made.
    pub fn count(&self) -> (r: u64)
        ensures
            r == self.made(),
    {
        self.counter
    }
}

} // verus!
