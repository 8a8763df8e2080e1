//! What clients and the gateway write to each other, member by member, and what either
//! makes of it.
use vstd::prelude::*;

use crate::client;
use crate::error;
use crate::error::{Error, ErrorView};
use crate::json;
use crate::json::{Json, JsonView};
use crate::jsonrpc;
use crate::jsonrpc::RoutedView;
use crate::request;
use crate::request::{OperationView, RequestView, ResponseView, WriteStatus};
use crate::squeue;
use crate::text;

verus! {

/// The codes of the protocol, and what the answers of HTTP say.
pub proof fn codes_are_those_of_the_protocol()
    ensures
        jsonrpc::ERR_PARSE_ERROR == -32700,
        jsonrpc::ERR_INVALID_REQUEST == -32600,
        jsonrpc::ERR_METHOD_NOT_FOUND == -32601,
        jsonrpc::ERR_INVALID_PARAMS == -32602,
        jsonrpc::ERR_WRITE_FAILED == -32000,
        jsonrpc::ERR_GATEWAY_OVERLOADED == -32001,
        crate::http::ERR_INTERNAL == -32603,
        crate::http::STATUS_OK == 200,
        crate::http::STATUS_UNAUTHORIZED == 401,
{
}

/// The keys of answers, of their errors and of their results differ.
proof fn answer_keys()
    ensures
        "jsonrpc"@ != "id"@ && "jsonrpc"@ != "result"@ && "jsonrpc"@ != "error"@,
        "id"@ != "result"@ && "id"@ != "error"@ && "result"@ != "error"@,
        "code"@ != "message"@ && "code"@ != "data"@ && "message"@ != "data"@,
        "status"@ != "commit_seq"@,
        "sql"@ != "params"@,
{
    reveal_strlit("jsonrpc");
    reveal_strlit("id");
    reveal_strlit("result");
    reveal_strlit("error");
    reveal_strlit("code");
    reveal_strlit("message");
    reveal_strlit("data");
    reveal_strlit("status");
    reveal_strlit("commit_seq");
    reveal_strlit("sql");
    reveal_strlit("params");
    assert("jsonrpc"@.len() == 7 && "id"@.len() == 2 && "result"@.len() == 6);
    assert("error"@.len() == 5 && "message"@.len() == 7);
    assert("code"@.len() == 4 && "data"@.len() == 4 && "code"@[0] == 'c' && "data"@[0] == 'd');
    assert("status"@.len() == 6 && "commit_seq"@.len() == 10);
    assert("sql"@.len() == 3 && "params"@.len() == 6);
}

/// What is found in an object of one to four members.
proof fn members_of_few(o: Seq<(Seq<char>, JsonView)>, key: Seq<char>)
    requires
        o.len() <= 4,
    ensures
        json::field(o, key) == (if o.len() > 0 && o[0].0 == key {
            Some(o[0].1)
        } else if o.len() > 1 && o[1].0 == key {
            Some(o[1].1)
        } else if o.len() > 2 && o[2].0 == key {
            Some(o[2].1)
        } else if o.len() > 3 && o[3].0 == key {
            Some(o[3].1)
        } else {
            None
        }),
{
    reveal_with_fuel(json::field, 5);
    if o.len() > 1 {
        assert(o.drop_first()[0] == o[1]);
    }
    if o.len() > 2 {
        assert(o.drop_first().drop_first()[0] == o[2]);
    }
    if o.len() > 3 {
        assert(o.drop_first().drop_first().drop_first()[0] == o[3]);
    }
}

/// An answer names the version 2.0, repeats the identifier, and has either a result or
/// an error; the error has the code, the message and, if there is any, the data.
pub proof fn answers_hold_these_members(
    id: JsonView,
    result: JsonView,
    code: i64,
    message: Seq<char>,
    data: Option<JsonView>,
)
    ensures
        ({
            let ok = jsonrpc::ok_envelope(id, result);
            let err = jsonrpc::err_envelope(id, code, message, data);
            let e = client::member(err, "error"@);
            &&& client::member(ok, "jsonrpc"@) == Some(JsonView::Text("2.0"@))
            &&& client::member(ok, "id"@) == Some(id)
            &&& client::member(ok, "result"@) == Some(result)
            &&& client::member(ok, "error"@) is None
            &&& client::member(err, "jsonrpc"@) == Some(JsonView::Text("2.0"@))
            &&& client::member(err, "id"@) == Some(id)
            &&& client::member(err, "result"@) is None
            &&& e is Some
            &&& client::member(e->0, "code"@) == Some(JsonView::Number(json::int_number(code)))
            &&& client::member(e->0, "message"@) == Some(JsonView::Text(message))
            &&& client::member(e->0, "data"@) == data
        }),
{
    answer_keys();
    let ok = jsonrpc::ok_envelope(id, result)->Object_0;
    let err = jsonrpc::err_envelope(id, code, message, data)->Object_0;
    let e = jsonrpc::error_object(code, message, data)->Object_0;
    members_of_few(ok, "jsonrpc"@);
    members_of_few(ok, "id"@);
    members_of_few(ok, "result"@);
    members_of_few(ok, "error"@);
    members_of_few(err, "jsonrpc"@);
    members_of_few(err, "id"@);
    members_of_few(err, "result"@);
    members_of_few(err, "error"@);
    members_of_few(e, "code"@);
    members_of_few(e, "message"@);
    members_of_few(e, "data"@);
}

/// Whether an answer reports an error with this code and message, and nothing else, for
/// the request object with this identifier.
pub open spec fn reports(answer: JsonView, id: JsonView, code: int, message: Seq<char>) -> bool {
    &&& client::member(answer, "id"@) == Some(id)
    &&& client::member(answer, "result"@) is None
    &&& client::member(answer, "error"@) matches Some(e) && client::member(e, "code"@) == Some(
        JsonView::Number(json::int_number(code as i64)),
    ) && client::member(e, "message"@) == Some(JsonView::Text(message)) && client::member(
        e,
        "data"@,
    ) is None
}

proof fn error_reports(id: JsonView, code: i64, message: Seq<char>)
    ensures
        reports(jsonrpc::err_envelope(id, code, message, None), id, code as int, message),
{
    answers_hold_these_members(id, JsonView::Null, code, message, None);
}

/// A line that is no JSON, a list, or no object is answered with an error without an
/// identifier.
pub proof fn lines_without_an_object_are_refused(line: Seq<char>, fallback: Seq<char>)
    ensures
        match json::json_read(line) {
            Err(e) => jsonrpc::line_route(line, fallback) matches RoutedView::Reply(answer)
                && reports(answer, JsonView::Null, -32700, "parse error: "@ + e),
            Ok(JsonView::Object(_)) => true,
            Ok(JsonView::Array(_)) => jsonrpc::line_route(line, fallback) matches RoutedView::Reply(
                answer,
            ) && reports(
                answer,
                JsonView::Null,
                -32600,
                "JSON-RPC batch arrays are not supported; send one request per line"@,
            ),
            Ok(other) => jsonrpc::line_route(line, fallback) matches RoutedView::Reply(answer)
                && reports(
                answer,
                JsonView::Null,
                -32600,
                "invalid request structure: "@ + jsonrpc::object_error(other),
            ),
        },
{
    match json::json_read(line) {
        Err(e) => error_reports(JsonView::Null, -32700 as i64, "parse error: "@ + e),
        Ok(JsonView::Object(_)) => {},
        Ok(JsonView::Array(_)) => error_reports(
            JsonView::Null,
            -32600 as i64,
            "JSON-RPC batch arrays are not supported; send one request per line"@,
        ),
        Ok(other) => error_reports(
            JsonView::Null,
            -32600 as i64,
            "invalid request structure: "@ + jsonrpc::object_error(other),
        ),
    }
}

/// What a value that is no object is told: what the parser reports where a map is
/// expected, with the name of what is expected here in the place of its last five
/// characters.
pub proof fn other_values_are_told_what_is_expected(j: JsonView, head: Seq<char>)
    requires
        json::map_error(j) == head + "a map"@,
    ensures
        jsonrpc::object_error(j) == head + "struct RawRequest"@,
{
    let e = json::map_error(j);
    assert(e.take(e.len() - "a map"@.len()) =~= head);
}

/// The member of an object that is a text.
pub open spec fn text_of(o: Seq<(Seq<char>, JsonView)>, key: Seq<char>) -> Option<Seq<char>> {
    match json::field(o, key) {
        Some(JsonView::Text(s)) => Some(s),
        _ => None,
    }
}

/// The identifier of a request object, or `null`.
pub open spec fn own_id(o: Seq<(Seq<char>, JsonView)>) -> JsonView {
    match json::field(o, "id"@) {
        Some(id) => id,
        None => JsonView::Null,
    }
}

/// A request object without the version 2.0, or without a method, is answered with an
/// error under its identifier that says what is wrong; a version or method that is no
/// text is told so.
pub proof fn objects_need_a_version_and_a_method(
    line: Seq<char>,
    o: Seq<(Seq<char>, JsonView)>,
    fallback: Seq<char>,
)
    requires
        json::json_read(line) == Ok::<JsonView, Seq<char>>(JsonView::Object(o)),
    ensures
        ({
            let version = json::field(o, "jsonrpc"@);
            let method = json::field(o, "method"@);
            let odd_version = version matches Some(v) && !(v is Text) && !(v is Null);
            let odd_method = method matches Some(v) && !(v is Text) && !(v is Null);
            let route = jsonrpc::line_route(line, fallback);
            &&& odd_version ==> (route matches RoutedView::Reply(answer) && reports(
                answer,
                own_id(o),
                -32600,
                "invalid request structure: "@ + json::string_error(version->0),
            ))
            &&& !odd_version && odd_method ==> (route matches RoutedView::Reply(answer) && reports(
                answer,
                own_id(o),
                -32600,
                "invalid request structure: "@ + json::string_error(method->0),
            ))
            &&& !odd_version && !odd_method && text_of(o, "jsonrpc"@) != Some("2.0"@) ==> (
            route matches RoutedView::Reply(answer) && reports(
                answer,
                own_id(o),
                -32600,
                "missing or invalid \"jsonrpc\" field; must be \"2.0\""@,
            ))
            &&& !odd_version && !odd_method && text_of(o, "jsonrpc"@) == Some("2.0"@) && text_of(
                o,
                "method"@,
            ) is None ==> (route matches RoutedView::Reply(answer) && reports(
                answer,
                own_id(o),
                -32600,
                "missing \"method\" field"@,
            ))
        }),
{
    let version = json::field(o, "jsonrpc"@);
    let method = json::field(o, "method"@);
    let id = own_id(o);
    assert(id == request::field_or_null(o, "id"@));
    error_reports(
        id,
        -32600 as i64,
        "invalid request structure: "@ + json::string_error(version->0),
    );
    error_reports(
        id,
        -32600 as i64,
        "invalid request structure: "@ + json::string_error(method->0),
    );
    error_reports(
        id,
        -32600 as i64,
        "missing or invalid \"jsonrpc\" field; must be \"2.0\""@,
    );
    error_reports(id, -32600 as i64, "missing \"method\" field"@);
}

/// The methods differ.
proof fn methods_differ()
    ensures
        "execute"@ != "stats"@ && "execute"@ != "health"@ && "execute"@ != "checkpoint"@,
        "stats"@ != "health"@ && "stats"@ != "checkpoint"@ && "health"@ != "checkpoint"@,
{
    reveal_strlit("execute");
    reveal_strlit("stats");
    reveal_strlit("health");
    reveal_strlit("checkpoint");
    assert("execute"@.len() == 7 && "stats"@.len() == 5);
    assert("health"@.len() == 6 && "checkpoint"@.len() == 10);
}

/// A request object of the version 2.0 gets what its method stands for, with its own
/// identifier: `execute` a request from its parameters, or an error that says what is
/// wrong with them; `stats` the counters; `checkpoint` the move of the log; `health` the
/// status `ok` at once; and any other method an error that names it.
pub proof fn methods_stand_for_what_they_say(
    line: Seq<char>,
    o: Seq<(Seq<char>, JsonView)>,
    method: Seq<char>,
    fallback: Seq<char>,
)
    requires
        json::json_read(line) == Ok::<JsonView, Seq<char>>(JsonView::Object(o)),
        text_of(o, "jsonrpc"@) == Some("2.0"@),
        text_of(o, "method"@) == Some(method),
    ensures
        ({
            let route = jsonrpc::line_route(line, fallback);
            let params = match json::field(o, "params"@) {
                Some(p) => p,
                None => JsonView::Null,
            };
            &&& method == "execute"@ ==> match jsonrpc::execute_request(
                own_id(o),
                params,
                fallback,
            ) {
                Ok(request) => route == (RoutedView::Execute { id: own_id(o), request }),
                Err(e) => route matches RoutedView::Reply(answer) && reports(
                    answer,
                    own_id(o),
                    -32602,
                    e,
                ),
            }
            &&& method == "stats"@ ==> route == (RoutedView::Stats { id: own_id(o) })
            &&& method == "checkpoint"@ ==> route == (RoutedView::Checkpoint { id: own_id(o) })
            &&& method == "health"@ ==> (route matches RoutedView::Reply(answer) && client::member(
                answer,
                "id"@,
            ) == Some(own_id(o)) && client::member(answer, "error"@) is None && (client::member(
                answer,
                "result"@,
            ) matches Some(r) && client::member_text(r, "status"@) == Some("ok"@)))
            &&& method != "execute"@ && method != "stats"@ && method != "checkpoint"@ && method
                != "health"@ ==> (route matches RoutedView::Reply(answer) && reports(
                answer,
                own_id(o),
                -32601,
                "method not found: "@ + method,
            ))
        }),
{
    methods_differ();
    let id = own_id(o);
    let params = request::field_or_null(o, "params"@);
    assert(id == request::field_or_null(o, "id"@));
    assert(jsonrpc::first_misfit(o) is None);
    if let Err(e) = jsonrpc::execute_request(id, params, fallback) {
        error_reports(id, -32602 as i64, e);
    }
    error_reports(id, -32601 as i64, "method not found: "@ + method);
    answers_hold_these_members(id, jsonrpc::status_ok(), 0, ""@, None);
    members_of_few(jsonrpc::status_ok()->Object_0, "status"@);
}

/// Whether a JSON value is an operation: an object with a statement, and parameters in a
/// list, if there are any.
pub open spec fn is_operation(j: JsonView) -> bool {
    j matches JsonView::Object(p) && text_of(p, "sql"@) is Some && match json::field(p, "params"@) {
        Some(JsonView::Array(_)) => true,
        Some(JsonView::Null) => true,
        None => true,
        _ => false,
    }
}

/// An operation has the statement and the parameters of its object, as they are; what is
/// none is told what is missing, with its place.
pub proof fn operations_are_read_as_they_are(j: JsonView, index: nat)
    ensures
        jsonrpc::operation_of(j, index) is Ok <==> is_operation(j),
        jsonrpc::operation_of(j, index) matches Ok(op) ==> {
            let p = j->Object_0;
            &&& json::field(p, "sql"@) == Some(JsonView::Text(op.sql))
            &&& match json::field(p, "params"@) {
                Some(JsonView::Array(a)) => op.params == a,
                _ => op.params.len() == 0,
            }
        },
        jsonrpc::operation_of(j, index) matches Err(e) ==> {
            let name = "operations["@ + text::decimal(index);
            &&& !(j is Object) ==> e == name + "] must be an object"@
            &&& j matches JsonView::Object(p) ==> {
                &&& text_of(p, "sql"@) is None ==> e == name + "].sql must be a string"@
                &&& text_of(p, "sql"@) is Some ==> e == name
                    + "].params must be an array or absent"@
            }
        },
{
}

/// The operations of a list are read in order, each from its own value. One that is none
/// spoils the list, and the first of these says why.
pub proof fn lists_of_operations_are_read_in_order(a: Seq<JsonView>)
    ensures
        match jsonrpc::operations_of(a) {
            Ok(ops) => ops.len() == a.len() && forall|i: int|
                0 <= i < a.len() ==> jsonrpc::operation_of(#[trigger] a[i], i as nat) == Ok::<
                    OperationView,
                    Seq<char>,
                >(ops[i]),
            Err(e) => exists|i: int|
                0 <= i < a.len() && jsonrpc::operation_of(#[trigger] a[i], i as nat) == Err::<
                    OperationView,
                    Seq<char>,
                >(e) && forall|j: int|
                    0 <= j < i ==> jsonrpc::operation_of(#[trigger] a[j], j as nat) is Ok,
        },
    decreases a.len(),
{
    if a.len() > 0 {
        let b = a.drop_last();
        let last = (a.len() - 1) as nat;
        lists_of_operations_are_read_in_order(b);
        assert(forall|i: int| 0 <= i < b.len() ==> b[i] == a[i]);
        match jsonrpc::operations_of(b) {
            Ok(ops) => {
                assert forall|i: int| 0 <= i < b.len() implies jsonrpc::operation_of(
                    #[trigger] a[i],
                    i as nat,
                ) == Ok::<OperationView, Seq<char>>(ops[i]) by {
                    assert(b[i] == a[i]);
                }
                match jsonrpc::operation_of(a.last(), last) {
                    Ok(op) => {
                        assert forall|i: int| 0 <= i < a.len() implies jsonrpc::operation_of(
                            #[trigger] a[i],
                            i as nat,
                        ) == Ok::<OperationView, Seq<char>>(ops.push(op)[i]) by {
                            if i < b.len() {
                                assert(b[i] == a[i]);
                            }
                        }
                    },
                    Err(e) => {
                        assert(jsonrpc::operation_of(a[last as int], last) == Err::<
                            OperationView,
                            Seq<char>,
                        >(e));
                    },
                }
            },
            Err(e) => {
                let i = choose|i: int|
                    0 <= i < b.len() && jsonrpc::operation_of(#[trigger] b[i], i as nat) == Err::<
                        OperationView,
                        Seq<char>,
                    >(e) && forall|j: int|
                        0 <= j < i ==> jsonrpc::operation_of(#[trigger] b[j], j as nat) is Ok;
                assert(jsonrpc::operation_of(a[i], i as nat) == Err::<OperationView, Seq<char>>(e));
                assert forall|j: int| 0 <= j < i implies jsonrpc::operation_of(
                    #[trigger] a[j],
                    j as nat,
                ) is Ok by {
                    assert(b[j] == a[j]);
                }
            },
        }
    }
}

/// A request to execute is read if and only if its parameters are an object with an
/// actor and at least one operation. It has that actor, the run and the key that are
/// given as texts, these operations, and the identifier of its request object if that is
/// a text or a number.
pub proof fn requests_are_read_as_they_are(id: JsonView, params: JsonView, fallback: Seq<char>)
    ensures
        ({
            let read = jsonrpc::execute_request(id, params, fallback);
            let p = params->Object_0;
            let ops = json::field(p, "operations"@);
            &&& read is Ok <==> {
                &&& params is Object
                &&& text_of(p, "actor_id"@) is Some
                &&& ops matches Some(JsonView::Array(a)) && a.len() > 0 && forall|i: int|
                    0 <= i < a.len() ==> is_operation(#[trigger] a[i])
            }
            &&& read matches Ok(r) ==> {
                &&& json::field(p, "actor_id"@) == Some(JsonView::Text(r.actor_id))
                &&& r.run_id == text_of(p, "run_id"@)
                &&& r.idempotency_key == text_of(p, "idempotency_key"@)
                &&& jsonrpc::operations_of(ops->0->Array_0) == Ok::<
                    Seq<OperationView>,
                    Seq<char>,
                >(r.operations)
                &&& id matches JsonView::Text(s) ==> r.request_id == s
                &&& id is Number ==> r.request_id == json::json_text(id)
                &&& !(id is Text) && !(id is Number) ==> r.request_id == fallback
            }
        }),
{
    let p = params->Object_0;
    if let Some(JsonView::Array(a)) = json::field(p, "operations"@) {
        lists_of_operations_are_read_in_order(a);
        assert forall|i: int| 0 <= i < a.len() implies (is_operation(#[trigger] a[i])
            <==> jsonrpc::operation_of(a[i], i as nat) is Ok) by {
            operations_are_read_as_they_are(a[i], i as nat);
        }
    }
}

/// What is wrong with the parameters of a request that cannot be read.
pub proof fn unreadable_requests_are_told_why(id: JsonView, params: JsonView, fallback: Seq<char>)
    ensures
        ({
            let read = jsonrpc::execute_request(id, params, fallback);
            let p = params->Object_0;
            let ops = json::field(p, "operations"@);
            let actor = text_of(p, "actor_id"@);
            &&& !(params is Object) ==> read == Err::<RequestView, Seq<char>>(
                "params must be an object with actor_id and operations"@,
            )
            &&& params is Object && actor is None ==> read == Err::<RequestView, Seq<char>>(
                "missing or non-string actor_id in params"@,
            )
            &&& params is Object && actor is Some && ops is None ==> read == Err::<
                RequestView,
                Seq<char>,
            >("missing operations in params"@)
            &&& params is Object && actor is Some && (ops matches Some(v) && !(v is Array))
                ==> read == Err::<RequestView, Seq<char>>("operations must be an array"@)
            &&& params is Object && actor is Some && (ops matches Some(JsonView::Array(a))
                && a.len() == 0) ==> read == Err::<RequestView, Seq<char>>(
                "operations must be a non-empty array"@,
            )
            &&& params is Object && actor is Some && (ops matches Some(JsonView::Array(a))
                && a.len() > 0 && jsonrpc::operations_of(a) is Err) ==> read == Err::<
                RequestView,
                Seq<char>,
            >(jsonrpc::operations_of(ops->0->Array_0)->Err_0)
        }),
{
}

/// What a request is answered: a commit with the status `committed` and its number, or
/// `null`; a failure with code -32000, its error and the error as data; a request that
/// the queue did not take with code -32001; and any other error with code -32000 and its
/// text.
pub proof fn requests_are_answered_so(id: JsonView, result: Result<ResponseView, ErrorView>)
    ensures
        ({
            let answer = jsonrpc::execute_reply(id, result);
            &&& client::member(answer, "id"@) == Some(id)
            &&& match result {
                Ok(response) => match response.status {
                    WriteStatus::Committed => {
                        &&& client::member(answer, "error"@) is None
                        &&& client::member(answer, "result"@) matches Some(r)
                            && client::member_text(r, "status"@) == Some("committed"@)
                            && client::member(r, "commit_seq"@) == Some(
                            match response.commit_seq {
                                Some(n) => JsonView::Number(json::int_number(n)),
                                None => JsonView::Null,
                            },
                        )
                    },
                    WriteStatus::Failed => {
                        &&& client::member(answer, "result"@) is None
                        &&& client::member(answer, "error"@) matches Some(e) && client::member(
                            e,
                            "code"@,
                        ) == Some(JsonView::Number(json::int_number(-32000 as i64)))
                            && client::member_text(e, "message"@) == Some(
                            match response.error {
                                Some(x) => x,
                                None => "write failed"@,
                            },
                        ) && client::member(e, "data"@) == Some(
                            match response.error {
                                Some(x) => JsonView::Text(x),
                                None => JsonView::Null,
                            },
                        )
                    },
                },
                Err(e) => if e is GatewayOverloaded || e is GatewayClosed {
                    reports(answer, id, -32001, "gateway overloaded"@)
                } else {
                    reports(answer, id, -32000, error::error_text(e))
                },
            }
        }),
{
    answer_keys();
    match result {
        Ok(response) => match response.status {
            WriteStatus::Committed => {
                let r = jsonrpc::committed_result(response.commit_seq);
                answers_hold_these_members(id, r, 0, ""@, None);
                members_of_few(r->Object_0, "status"@);
                members_of_few(r->Object_0, "commit_seq"@);
            },
            WriteStatus::Failed => {
                let message = match response.error {
                    Some(x) => x,
                    None => "write failed"@,
                };
                answers_hold_these_members(
                    id,
                    JsonView::Null,
                    -32000 as i64,
                    message,
                    Some(request::opt_text_json(response.error)),
                );
            },
        },
        Err(e) => {
            error_reports(id, -32001 as i64, "gateway overloaded"@);
            error_reports(id, -32000 as i64, error::error_text(e));
        },
    }
}

/// What moving the log is answered: the status `ok`, or an error with code -32000.
pub proof fn checkpoints_are_answered_so(id: JsonView, result: Result<(), ErrorView>)
    ensures
        ({
            let answer = jsonrpc::checkpoint_reply(id, result);
            match result {
                Ok(_) => client::member(answer, "id"@) == Some(id) && client::member(
                    answer,
                    "error"@,
                ) is None && (client::member(answer, "result"@) matches Some(r)
                    && client::member_text(r, "status"@) == Some("ok"@)),
                Err(e) => reports(answer, id, -32000, error::error_text(e)),
            }
        }),
{
    answers_hold_these_members(id, jsonrpc::status_ok(), 0, ""@, None);
    members_of_few(jsonrpc::status_ok()->Object_0, "status"@);
    if let Err(e) = result {
        error_reports(id, -32000 as i64, error::error_text(e));
    }
}

/// What a client makes of an answer: a result tells of a commit if and only if its
/// status is `committed`, and gives its number; an error tells of a failure, with its
/// message, or else its data. An answer with neither, or that is no JSON, is an error.
pub proof fn clients_read_answers_so(request_id: Seq<char>, reply: Seq<char>)
    ensures
        ({
            let read = client::reply_response(request_id, reply);
            match json::json_read(reply) {
                Err(e) => read == Err::<ResponseView, ErrorView>(ErrorView::Json(e)),
                Ok(answer) => match (
                    client::member(answer, "result"@),
                    client::member(answer, "error"@),
                ) {
                    (Some(r), _) => read matches Ok(w) && {
                        &&& w.request_id == request_id
                        &&& w.status is Committed <==> client::member(r, "status"@) == Some(
                            JsonView::Text("committed"@),
                        )
                        &&& w.commit_seq == (match client::member(r, "commit_seq"@) {
                            Some(JsonView::Number(n)) => json::int_value(n),
                            _ => None,
                        })
                        &&& w.error is None
                    },
                    (None, Some(e)) => read matches Ok(w) && {
                        &&& w.request_id == request_id
                        &&& w.status is Failed
                        &&& w.commit_seq is None
                        &&& client::member(e, "message"@) matches Some(JsonView::Text(m))
                            ==> w.error == Some(m)
                        &&& client::member_text(e, "message"@) is None ==> w.error == (
                        match client::member(e, "data"@) {
                            Some(JsonView::Text(d)) => Some(d),
                            _ => None,
                        })
                    },
                    (None, None) => read == Err::<ResponseView, ErrorView>(
                        ErrorView::Protocol("unexpected JSON-RPC response: "@ + reply),
                    ),
                },
            }
        }),
{
}

/// What a client makes of the answer to a method whose result does not matter, and of
/// one whose result it wants: an error is one only if there is no result.
pub proof fn clients_read_other_answers_so(reply: Seq<char>)
    ensures
        match json::json_read(reply) {
            Err(e) => client::acknowledgement(reply) == Err::<(), ErrorView>(ErrorView::Json(e))
                && client::wanted_result(reply) == Err::<JsonView, ErrorView>(ErrorView::Json(e)),
            Ok(answer) => match (
                client::member(answer, "result"@),
                client::member(answer, "error"@),
            ) {
                (Some(r), _) => client::acknowledgement(reply) is Ok && client::wanted_result(reply)
                    == Ok::<JsonView, ErrorView>(r),
                (None, Some(e)) => client::acknowledgement(reply) == Err::<(), ErrorView>(
                    ErrorView::Protocol(json::json_text(e)),
                ) && client::wanted_result(reply) == Err::<JsonView, ErrorView>(
                    ErrorView::Protocol(json::json_text(e)),
                ),
                (None, None) => client::acknowledgement(reply) is Ok && client::wanted_result(reply)
                    == Err::<JsonView, ErrorView>(
                    ErrorView::Protocol("unexpected stats response: "@ + reply),
                ),
            },
        },
{
}

/// A client learns what became of its request: the commit with its number, or the error.
/// The number is taken to be that of no other integer, as
/// [`crate::json::Json::integer`] makes it.
pub proof fn client_learns_what_became_of_its_request(
    id: JsonView,
    response: ResponseView,
    request_id: Seq<char>,
    reply: Seq<char>,
)
    requires
        json::reads_as(reply, jsonrpc::execute_reply(id, Ok(response))),
        response.commit_seq matches Some(n) ==> forall|j: i64| #[trigger]
            json::int_number(j) == json::int_number(n) ==> j == n,
    ensures
        client::reply_response(request_id, reply) == Ok::<ResponseView, ErrorView>(
            match response.status {
                WriteStatus::Committed => ResponseView {
                    request_id,
                    status: WriteStatus::Committed,
                    commit_seq: response.commit_seq,
                    error: None,
                },
                WriteStatus::Failed => ResponseView {
                    request_id,
                    status: WriteStatus::Failed,
                    commit_seq: None,
                    error: Some(
                        match response.error {
                            Some(e) => e,
                            None => "write failed"@,
                        },
                    ),
                },
            },
        ),
{
    if let Some(n) = response.commit_seq {
        assert(json::is_int(json::int_number(n)));
    }
    jsonrpc::reply_is_understood(id, Ok(response), request_id);
}

/// A client that cannot hand its request over learns that the gateway is overloaded, and
/// of any other error its text.
pub proof fn client_learns_of_an_error(
    id: JsonView,
    e: ErrorView,
    request_id: Seq<char>,
    reply: Seq<char>,
)
    requires
        json::reads_as(reply, jsonrpc::execute_reply(id, Err(e))),
    ensures
        client::reply_response(request_id, reply) == Ok::<ResponseView, ErrorView>(
            ResponseView {
                request_id,
                status: WriteStatus::Failed,
                commit_seq: None,
                error: Some(
                    if e is GatewayOverloaded || e is GatewayClosed {
                        "gateway overloaded"@
                    } else {
                        error::error_text(e)
                    },
                ),
            },
        ),
{
    jsonrpc::reply_is_understood(id, Err(e), request_id);
}

/// What a call asks to be executed: it has the actor, the run and the key that were
/// given for it, and the number of the call as its identifier.
pub proof fn calls_ask_for_what_was_given(
    id: u64,
    actor_id: Seq<char>,
    ops: Seq<(Seq<char>, JsonView)>,
    idempotency_key: Option<Seq<char>>,
    run_id: Option<Seq<char>>,
    i: int,
)
    requires
        0 <= i < ops.len(),
    ensures
        ({
            let r = squeue::called_request(id, actor_id, ops, idempotency_key, run_id);
            &&& r.request_id == json::json_text(JsonView::Number(json::uint_number(id)))
            &&& r.actor_id == actor_id
            &&& r.run_id == run_id
            &&& r.idempotency_key == idempotency_key
            &&& r.operations.len() == ops.len()
            &&& r.operations[i].sql == ops[i].0
            &&& ops[i].1 matches JsonView::Array(a) ==> r.operations[i].params.len() == a.len()
                && forall|j: int|
                0 <= j < a.len() ==> (#[trigger] r.operations[i].params[j]) == json::ordered(a[j])
        }),
{
}

/// A request whose parameters were read back from a line is the same but for the order
/// of the members of objects in its parameters.
pub proof fn only_the_order_of_members_changes(r: RequestView, i: int, j: int)
    requires
        0 <= i < r.operations.len(),
        0 <= j < r.operations[i].params.len(),
    ensures
        ({
            let q = request::ordered_request(r);
            &&& q.request_id == r.request_id
            &&& q.actor_id == r.actor_id
            &&& q.run_id == r.run_id
            &&& q.idempotency_key == r.idempotency_key
            &&& q.operations.len() == r.operations.len()
            &&& q.operations[i].sql == r.operations[i].sql
            &&& q.operations[i].params.len() == r.operations[i].params.len()
            &&& q.operations[i].params[j] == json::ordered(r.operations[i].params[j])
        }),
{
}

/// A request is sent with these members, and each operation with its statement and its
/// parameters.
pub proof fn requests_are_sent_so(r: RequestView, i: int)
    requires
        0 <= i < r.operations.len(),
    ensures
        ({
            let call = client::execute_call(r);
            let params = client::member(call, "params"@)->0;
            let ops = client::member(params, "operations"@)->0;
            &&& client::member(call, "jsonrpc"@) == Some(JsonView::Text("2.0"@))
            &&& client::member(call, "id"@) == Some(JsonView::Text(r.request_id))
            &&& client::member(call, "method"@) == Some(JsonView::Text("execute"@))
            &&& client::member(call, "params"@) is Some
            &&& client::member(params, "actor_id"@) == Some(JsonView::Text(r.actor_id))
            &&& client::member_text(params, "run_id"@) == r.run_id
            &&& client::member_text(params, "idempotency_key"@) == r.idempotency_key
            &&& client::member(params, "operations"@) is Some
            &&& ops is Array
            &&& ops->Array_0.len() == r.operations.len()
            &&& client::member(ops->Array_0[i], "sql"@) == Some(
                JsonView::Text(r.operations[i].sql),
            )
            &&& client::member(ops->Array_0[i], "params"@) == Some(
                JsonView::Array(r.operations[i].params),
            )
        }),
{
    client::call_keys();
    let o = client::execute_call(r)->Object_0;
    members_of_few(o, "jsonrpc"@);
    members_of_few(o, "id"@);
    members_of_few(o, "method"@);
    members_of_few(o, "params"@);
    let p = client::call_params(r)->Object_0;
    members_of_few(p, "actor_id"@);
    members_of_few(p, "run_id"@);
    members_of_few(p, "idempotency_key"@);
    members_of_few(p, "operations"@);
    let op = request::operation_json(r.operations[i])->Object_0;
    members_of_few(op, "sql"@);
    members_of_few(op, "params"@);
}

/// What tells requests under the same key apart is the text of the list of their
/// operations, each with its statement and its parameters.
pub proof fn operations_are_told_apart_by_all_they_hold(ops: Seq<OperationView>, i: int)
    requires
        0 <= i < ops.len(),
    ensures
        exists|j: JsonView|
            #![trigger json::json_text(j)]
            {
                &&& request::request_hash(ops) == json::json_text(j)
                &&& j is Array
                &&& j->Array_0.len() == ops.len()
                &&& client::member(j->Array_0[i], "sql"@) == Some(JsonView::Text(ops[i].sql))
                &&& client::member(j->Array_0[i], "params"@) == Some(
                    JsonView::Array(ops[i].params),
                )
            },
{
    answer_keys();
    let j = request::operations_json(ops);
    let op = request::operation_json(ops[i])->Object_0;
    members_of_few(op, "sql"@);
    members_of_few(op, "params"@);
    assert(request::request_hash(ops) == json::json_text(j));
}

/// The keys of a recorded response differ, and so do the words for its status.
proof fn record_keys()
    ensures
        "request_id"@ != "status"@ && "request_id"@ != "commit_seq"@ && "request_id"@ != "error"@,
        "status"@ != "commit_seq"@ && "status"@ != "error"@ && "commit_seq"@ != "error"@,
        "committed"@ != "failed"@,
{
    reveal_strlit("request_id");
    reveal_strlit("status");
    reveal_strlit("commit_seq");
    reveal_strlit("error");
    reveal_strlit("committed");
    reveal_strlit("failed");
    assert("request_id"@[0] == 'r' && "commit_seq"@[0] == 'c');
    assert("request_id"@.len() == 10 && "status"@.len() == 6 && "error"@.len() == 5);
    assert("commit_seq"@.len() == 10 && "committed"@.len() == 9 && "failed"@.len() == 6);
}

/// A response is recorded with these members.
pub proof fn responses_are_recorded_so(r: ResponseView)
    ensures
        ({
            let j = request::response_json(r);
            &&& client::member(j, "request_id"@) == Some(JsonView::Text(r.request_id))
            &&& client::member(j, "status"@) == Some(
                JsonView::Text(
                    match r.status {
                        WriteStatus::Committed => "committed"@,
                        WriteStatus::Failed => "failed"@,
                    },
                ),
            )
            &&& client::member(j, "commit_seq"@) == Some(
                match r.commit_seq {
                    Some(n) => JsonView::Number(json::int_number(n)),
                    None => JsonView::Null,
                },
            )
            &&& client::member(j, "error"@) == Some(
                match r.error {
                    Some(e) => JsonView::Text(e),
                    None => JsonView::Null,
                },
            )
        }),
{
    record_keys();
    let o = request::response_json(r)->Object_0;
    members_of_few(o, "request_id"@);
    members_of_few(o, "status"@);
    members_of_few(o, "commit_seq"@);
    members_of_few(o, "error"@);
}

/// What is read from a record: its identifier, status, number and error, if all four are
/// what they should be. A missing member is `null`.
pub proof fn records_are_read_so(s: Seq<char>, o: Seq<(Seq<char>, JsonView)>, w: ResponseView)
    requires
        json::json_read(s) == Ok::<JsonView, Seq<char>>(JsonView::Object(o)),
        request::stored_response(s) == Some(w),
    ensures
        json::field(o, "request_id"@) == Some(JsonView::Text(w.request_id)),
        json::field(o, "status"@) matches Some(JsonView::Text(word)) ==> word == (match w.status {
            WriteStatus::Committed => "committed"@,
            WriteStatus::Failed => "failed"@,
        }),
        match json::field(o, "commit_seq"@) {
            Some(JsonView::Number(n)) => w.commit_seq is Some && json::int_number(w.commit_seq->0)
                == n,
            _ => w.commit_seq is None,
        },
        match json::field(o, "error"@) {
            Some(JsonView::Text(e)) => w.error == Some(e),
            _ => w.error is None,
        },
{
    record_keys();
    if let Some(JsonView::Number(n)) = json::field(o, "commit_seq"@) {
        assert(json::is_int(n));
        let i = choose|i: i64| n == json::int_number(i);
        assert(json::int_number(i) == n);
    }
}

/// A response that is recorded is read back as it is, if its number is that of no other
/// integer.
pub proof fn recorded_response_is_read_back(r: ResponseView, s: Seq<char>)
    requires
        json::reads_as(s, request::response_json(r)),
        r.commit_seq matches Some(n) ==> forall|j: i64| #[trigger]
            json::int_number(j) == json::int_number(n) ==> j == n,
    ensures
        request::stored_response(s) == Some(r),
{
    record_keys();
    responses_are_recorded_so(r);
    if let Some(n) = r.commit_seq {
        assert(json::is_int(json::int_number(n)));
    }
    let o = request::response_json(r)->Object_0;
    json::field_of_ordered(o, "request_id"@);
    json::field_of_ordered(o, "status"@);
    json::field_of_ordered(o, "commit_seq"@);
    json::field_of_ordered(o, "error"@);
}

/// A text that is no JSON, or neither an object nor a list of four, is no record.
pub proof fn other_texts_are_no_record(s: Seq<char>)
    ensures
        request::stored_response(s) is Some ==> (json::json_read(s) matches Ok(j) && (j is Object
            || (j matches JsonView::Array(a) && a.len() == 4))),
        json::json_read(s) matches Ok(JsonView::Array(a)) ==> (request::stored_response(
            s,
        ) matches Some(w) ==> a.len() == 4 && a[0] == JsonView::Text(w.request_id) && (
        a[3] matches JsonView::Text(e) ==> w.error == Some(e)) && (a[3] is Null ==> w.error
            is None)),
{
}

/// A status is its word, or an object with the word as its only key and `null` under it.
pub proof fn statuses_are_read_so(j: JsonView, w: WriteStatus)
    ensures
        ({
            let word = match w {
                WriteStatus::Committed => "committed"@,
                WriteStatus::Failed => "failed"@,
            };
            request::status_of(j) == Some(w) <==> j == JsonView::Text(word) || (
            j matches JsonView::Object(o) && o.len() == 1 && o[0].0 == word && o[0].1 is Null)
        }),
{
    record_keys();
}

/// A list of four is read as a record: identifier, status, number, error.
pub proof fn lists_of_four_are_read_so(s: Seq<char>, a: Seq<JsonView>)
    requires
        json::json_read(s) == Ok::<JsonView, Seq<char>>(JsonView::Array(a)),
        a.len() == 4,
    ensures
        request::stored_response(s) is Some <==> {
            &&& a[0] is Text
            &&& request::status_of(a[1]) is Some
            &&& a[2] is Null || (a[2] matches JsonView::Number(n) && json::is_int(n))
            &&& a[3] is Null || a[3] is Text
        },
        request::stored_response(s) matches Some(w) ==> {
            &&& a[0] == JsonView::Text(w.request_id)
            &&& request::status_of(a[1]) == Some(w.status)
            &&& a[2] matches JsonView::Number(n) ==> w.commit_seq == json::int_value(n)
            &&& a[2] is Null ==> w.commit_seq is None
        },
{
}

/// The text of an answer is the text of its JSON, and a call without parameters has these
/// members.
pub proof fn texts_and_plain_calls(
    id: JsonView,
    result: JsonView,
    code: i64,
    message: Seq<char>,
    name: Seq<char>,
    method: Seq<char>,
)
    ensures
        jsonrpc::ok_text(id, result) == json::json_text(jsonrpc::ok_envelope(id, result)),
        jsonrpc::err_text(id, code, message) == json::json_text(
            jsonrpc::err_envelope(id, code, message, None),
        ),
        client::member(client::plain_call(name, method), "jsonrpc"@) == Some(
            JsonView::Text("2.0"@),
        ),
        client::member(client::plain_call(name, method), "id"@) == Some(JsonView::Text(name)),
        client::member(client::plain_call(name, method), "method"@) == Some(
            JsonView::Text(method),
        ),
        client::member(client::plain_call(name, method), "params"@) is None,
{
    client::call_keys();
    let o = client::plain_call(name, method)->Object_0;
    members_of_few(o, "jsonrpc"@);
    members_of_few(o, "id"@);
    members_of_few(o, "method"@);
    members_of_few(o, "params"@);
}

/// A response tells of a commit with its number and without an error, or of a failure
/// with its error and without a number.
pub proof fn responses_are_made_so(request_id: Seq<char>, seq: Option<i64>, e: Seq<char>)
    ensures
        request::committed(request_id, seq) == (ResponseView {
            request_id,
            status: WriteStatus::Committed,
            commit_seq: seq,
            error: None,
        }),
        request::failed(request_id, e) == (ResponseView {
            request_id,
            status: WriteStatus::Failed,
            commit_seq: None,
            error: Some(e),
        }),
{
}

/// Errors, rows and results are what their parts are.
pub proof fn parts_are_seen_as_they_are(
    e: Error,
    a: String,
    b: String,
    j: Json,
    w: request::WriteResponse,
    v: crate::params::SqlValue,
)
    ensures
        e matches Error::Sqlite(s) ==> e@ == ErrorView::Sqlite(s@),
        e matches Error::Json(s) ==> e@ == ErrorView::Json(s@),
        e matches Error::Migration(s) ==> e@ == ErrorView::Migration(s@),
        e matches Error::SqlRejected(s) ==> e@ == ErrorView::SqlRejected(s@),
        e is GatewayClosed ==> e@ == ErrorView::GatewayClosed,
        e is GatewayOverloaded ==> e@ == ErrorView::GatewayOverloaded,
        e matches Error::IdempotencyConflict(s) ==> e@ == ErrorView::IdempotencyConflict(s@),
        e matches Error::InvalidParam(s) ==> e@ == ErrorView::InvalidParam(s@),
        e matches Error::Io(s) ==> e@ == ErrorView::Io(s@),
        e matches Error::Protocol(s) ==> e@ == ErrorView::Protocol(s@),
        crate::store::outcome_view(Ok::<(), String>(())) == Ok::<(), Seq<char>>(()),
        crate::store::outcome_view(Err::<(), String>(a)) == Err::<(), Seq<char>>(a@),
        crate::store::lookup_view(Ok(None)) == Ok::<
            Option<(Seq<char>, Option<Seq<char>>)>,
            Seq<char>,
        >(None),
        crate::store::lookup_view(Ok(Some((a, Some(b))))) == Ok::<
            Option<(Seq<char>, Option<Seq<char>>)>,
            Seq<char>,
        >(Some((a@, Some(b@)))),
        crate::store::lookup_view(Ok(Some((a, None)))) == Ok::<
            Option<(Seq<char>, Option<Seq<char>>)>,
            Seq<char>,
        >(Some((a@, None))),
        crate::store::lookup_view(Err(a)) == Err::<
            Option<(Seq<char>, Option<Seq<char>>)>,
            Seq<char>,
        >(a@),
        j is Null ==> j@ == JsonView::Null,
        j matches Json::Bool(x) ==> j@ == JsonView::Bool(x),
        j matches Json::Number(n) ==> j@ == JsonView::Number(n),
        j matches Json::Text(s) ==> j@ == JsonView::Text(s@),
        j matches Json::Array(list) ==> j@ is Array && j@->Array_0.len() == list@.len() && forall|
            i: int,
        |
            0 <= i < list@.len() ==> (#[trigger] j@->Array_0[i]) == list@[i]@,
        j matches Json::Object(o) ==> j@ == JsonView::Object(o@),
        jsonrpc::result_view(Ok(w)) == Ok::<ResponseView, ErrorView>(w@),
        jsonrpc::result_view(Err(e)) == Err::<ResponseView, ErrorView>(e@),
        v is Null ==> v@ == crate::params::SqlView::Null,
        v matches crate::params::SqlValue::Integer(i) ==> v@ == crate::params::SqlView::Integer(i),
        v matches crate::params::SqlValue::Real(n) ==> v@ == crate::params::SqlView::Real(n),
        v matches crate::params::SqlValue::Text(s) ==> v@ == crate::params::SqlView::Text(s@),
        v matches crate::params::SqlValue::Blob(x) ==> v@ == crate::params::SqlView::Blob(x@),
{
    reveal_with_fuel(json::json_view, 2);
}

} // verus!
