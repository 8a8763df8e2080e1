//! What a client sends to the gateway, and what it makes of the answers.
use vstd::prelude::*;

use crate::error::{joined, Error, ErrorView};
use crate::json;
use crate::json::{Json, JsonView};
use crate::jsonrpc;
use crate::request;
use crate::request::{
    OperationView, RequestView, ResponseView, SqlOperation, WriteRequest, WriteResponse,
    WriteStatus,
};
use crate::text;
use crate::text::{same_text, without_line_end};

verus! {

/// A line as it is sent: the text, ended by a line feed.
pub fn frame_line(line: &str) -> (r: String)
    ensures
        r@ == line@.push('\n'),
{
    proof {
        reveal_strlit("\n");
    }
    let r = joined(line, "\n");
    assert(r@ =~= line@.push('\n'));
    r
}

/// The line that was received, or an error where the gateway closed the
/// connection.
pub fn received_line(reply: &str) -> (r: Result<String, Error>)
    ensures
        match r {
            Ok(line) => reply@.len() > 0 && line@ == text::trim_line_end(reply@),
            Err(e) => reply@.len() == 0 && e@ == ErrorView::GatewayClosed,
        },
{
    proof {
        reveal_strlit("");
    }
    if same_text(reply, "") {
        assert(""@.len() == 0);
        Err(Error::GatewayClosed)
    } else {
        assert(reply@.len() == 0 ==> reply@ =~= ""@);
        Ok(without_line_end(reply))
    }
}

/// A text on one line, framed and then received, is the same text.
pub proof fn framing_keeps_the_line(line: Seq<char>)
    requires
        json::is_one_line(line),
    ensures
        text::trim_line_end(line.push('\n')) == line,
{
    assert(line.push('\n').drop_last() =~= line);
    reveal_with_fuel(text::trim_line_end, 2);
}

/// The operations of a request as they are sent.
pub open spec fn call_params(r: RequestView) -> JsonView {
    JsonView::Object(
        seq![
            ("actor_id"@, JsonView::Text(r.actor_id)),
            ("run_id"@, request::opt_text_json(r.run_id)),
            ("idempotency_key"@, request::opt_text_json(r.idempotency_key)),
            ("operations"@, request::operations_json(r.operations)),
        ],
    )
}

/// The request object that asks the gateway to execute a request.
pub open spec fn execute_call(r: RequestView) -> JsonView {
    JsonView::Object(
        seq![
            ("jsonrpc"@, JsonView::Text("2.0"@)),
            ("id"@, JsonView::Text(r.request_id)),
            ("method"@, JsonView::Text("execute"@)),
            ("params"@, call_params(r)),
        ],
    )
}

/// The request object of a method without parameters.
pub open spec fn plain_call(id: Seq<char>, method: Seq<char>) -> JsonView {
    JsonView::Object(
        seq![
            ("jsonrpc"@, JsonView::Text("2.0"@)),
            ("id"@, JsonView::Text(id)),
            ("method"@, JsonView::Text(method)),
        ],
    )
}

/// The keys of a request object and of its parameters differ.
pub(crate) proof fn call_keys()
    ensures
        "jsonrpc"@ != "id"@,
        "jsonrpc"@ != "method"@,
        "jsonrpc"@ != "params"@,
        "id"@ != "method"@,
        "id"@ != "params"@,
        "method"@ != "params"@,
        "actor_id"@ != "run_id"@,
        "actor_id"@ != "idempotency_key"@,
        "actor_id"@ != "operations"@,
        "run_id"@ != "idempotency_key"@,
        "run_id"@ != "operations"@,
        "idempotency_key"@ != "operations"@,
        "sql"@ != "params"@,
{
    reveal_strlit("jsonrpc");
    reveal_strlit("id");
    reveal_strlit("method");
    reveal_strlit("params");
    reveal_strlit("actor_id");
    reveal_strlit("run_id");
    reveal_strlit("idempotency_key");
    reveal_strlit("operations");
    reveal_strlit("sql");
    assert("jsonrpc"@.len() == 7 && "id"@.len() == 2);
    assert("method"@.len() == 6 && "method"@[0] == 'm');
    assert("params"@.len() == 6 && "params"@[0] == 'p');
    assert("actor_id"@.len() == 8 && "run_id"@.len() == 6 && "idempotency_key"@.len() == 15);
    assert("operations"@.len() == 10 && "sql"@.len() == 3);
}

/// The operations that are sent are those that are read.
pub(crate) proof fn operations_are_understood(ops: Seq<OperationView>)
    ensures
        json::ordered(request::operations_json(ops)) is Array,
        jsonrpc::operations_of(json::ordered(request::operations_json(ops))->Array_0) == Ok::<
            Seq<OperationView>,
            Seq<char>,
        >(Seq::new(ops.len(), |i: int| request::ordered_operation(ops[i]))),
    decreases ops.len(),
{
    let a = json::ordered(request::operations_json(ops))->Array_0;
    let read = Seq::new(ops.len(), |i: int| request::ordered_operation(ops[i]));
    if ops.len() == 0 {
        assert(read =~= Seq::empty());
    } else {
        let front = ops.drop_last();
        operations_are_understood(front);
        assert(a.drop_last() =~= json::ordered(request::operations_json(front))->Array_0);
        let j = request::operation_json(ops.last());
        let o = j->Object_0;
        assert(a.last() == json::ordered(j));
        call_keys();
        reveal_with_fuel(json::field, 3);
        assert(o.drop_first()[0] == o[1]);
        json::field_of_ordered(o, "sql"@);
        json::field_of_ordered(o, "params"@);
        assert(json::ordered(JsonView::Array(ops.last().params))->Array_0
            =~= request::ordered_operation(ops.last()).params);
        assert(jsonrpc::operation_of(a.last(), (a.len() - 1) as nat) == Ok::<
            OperationView,
            Seq<char>,
        >(request::ordered_operation(ops.last())));
        assert(Seq::new(front.len(), |i: int| request::ordered_operation(front[i])).push(
            request::ordered_operation(ops.last()),
        ) =~= read);
    }
}

/// What a client asks to be executed is what the gateway executes: the gateway
/// reads the same request from the request object, under the identifier that the
/// client gave it. The members of objects among the parameters come in the order of
/// their keys.
pub proof fn execute_call_is_understood(r: RequestView, line: Seq<char>, fallback: Seq<char>)
    requires
        json::reads_as(line, execute_call(r)),
        r.operations.len() > 0,
    ensures
        jsonrpc::line_route(line, fallback) == (jsonrpc::RoutedView::Execute {
            id: JsonView::Text(r.request_id),
            request: request::ordered_request(r),
        }),
{
    call_keys();
    let o = execute_call(r)->Object_0;
    let p = call_params(r)->Object_0;
    reveal_with_fuel(json::field, 5);
    assert(o.drop_first()[0] == o[1]);
    assert(o.drop_first().drop_first()[0] == o[2]);
    assert(o.drop_first().drop_first().drop_first()[0] == o[3]);
    json::field_of_ordered(o, "jsonrpc"@);
    json::field_of_ordered(o, "id"@);
    json::field_of_ordered(o, "method"@);
    json::field_of_ordered(o, "params"@);
    assert(p.drop_first()[0] == p[1]);
    assert(p.drop_first().drop_first()[0] == p[2]);
    assert(p.drop_first().drop_first().drop_first()[0] == p[3]);
    json::field_of_ordered(p, "actor_id"@);
    json::field_of_ordered(p, "run_id"@);
    json::field_of_ordered(p, "idempotency_key"@);
    json::field_of_ordered(p, "operations"@);
    operations_are_understood(r.operations);
    let read = json::ordered(call_params(r));
    assert(json::ordered(request::operations_json(r.operations))->Array_0.len() > 0);
    assert(jsonrpc::execute_request(JsonView::Text(r.request_id), read, fallback) == Ok::<
        RequestView,
        Seq<char>,
    >(request::ordered_request(r)));
}

/// The gateway reads the method of a request object without parameters.
pub proof fn plain_call_is_understood(
    id: Seq<char>,
    method: Seq<char>,
    line: Seq<char>,
    fallback: Seq<char>,
)
    requires
        json::reads_as(line, plain_call(id, method)),
    ensures
        jsonrpc::line_route(line, fallback) == jsonrpc::method_route(
            JsonView::Text(id),
            method,
            JsonView::Null,
            fallback,
        ),
{
    call_keys();
    let o = plain_call(id, method)->Object_0;
    reveal_with_fuel(json::field, 4);
    assert(o.drop_first()[0] == o[1]);
    assert(o.drop_first().drop_first()[0] == o[2]);
    assert(o.drop_first().drop_first().drop_first().len() == 0);
    json::field_of_ordered(o, "jsonrpc"@);
    json::field_of_ordered(o, "id"@);
    json::field_of_ordered(o, "method"@);
    json::field_of_ordered(o, "params"@);
}

fn opt_text_to_json(s: &Option<String>) -> (r: Json)
    ensures
        r@ == request::opt_text_json(request::opt_text(*s)),
{
    match s {
        Some(t) => Json::Text(t.clone()),
        None => Json::Null,
    }
}

/// The line that asks the gateway to execute a request. The gateway reads the
/// same request from it, if the parameters can be read back from their text; the
/// members of objects among them come in the order of their keys.
pub fn execute_line(req: &WriteRequest) -> (r: String)
    ensures
        r@ == json::json_text(execute_call(req@)),
        json::is_one_line(r@),
        req@.operations.len() > 0 && json::plain(execute_call(req@), json::MAX_NESTING as nat)
            ==> forall|fallback: Seq<char>| #[trigger]
            jsonrpc::line_route(r@, fallback) == (jsonrpc::RoutedView::Execute {
                id: JsonView::Text(req@.request_id),
                request: request::ordered_request(req@),
            }),
{
    proof {
        call_keys();
    }
    let params = json::object(
        vec![
            ("actor_id", Json::Text(req.actor_id.clone())),
            ("run_id", opt_text_to_json(&req.run_id)),
            ("idempotency_key", opt_text_to_json(&req.idempotency_key)),
            ("operations", request::operations_to_json(&req.operations)),
        ],
    );
    assert(params@->Object_0 =~= call_params(req@)->Object_0);
    let call = json::object(
        vec![
            ("jsonrpc", Json::text("2.0")),
            ("id", Json::Text(req.request_id.clone())),
            ("method", Json::text("execute")),
            ("params", params),
        ],
    );
    assert(call@->Object_0 =~= execute_call(req@)->Object_0);
    let r = call.to_text();
    proof {
        if req@.operations.len() > 0 && json::plain(call@, json::MAX_NESTING as nat) {
            assert forall|fallback: Seq<char>| #[trigger]
                jsonrpc::line_route(r@, fallback) == (jsonrpc::RoutedView::Execute {
                    id: JsonView::Text(req@.request_id),
                    request: request::ordered_request(req@),
                }) by {
                execute_call_is_understood(req@, r@, fallback);
            }
        }
    }
    r
}

/// The line that calls a method without parameters. The gateway reads that method
/// from it.
pub fn method_line(id: &str, method: &str) -> (r: String)
    ensures
        r@ == json::json_text(plain_call(id@, method@)),
        json::is_one_line(r@),
        forall|fallback: Seq<char>| #[trigger]
            jsonrpc::line_route(r@, fallback) == jsonrpc::method_route(
                JsonView::Text(id@),
                method@,
                JsonView::Null,
                fallback,
            ),
{
    proof {
        call_keys();
    }
    let call = json::object(
        vec![
            ("jsonrpc", Json::text("2.0")),
            ("id", Json::text(id)),
            ("method", Json::text(method)),
        ],
    );
    assert(call@->Object_0 =~= plain_call(id@, method@)->Object_0);
    let r = call.to_text();
    proof {
        reveal_with_fuel(json::plain, 3);
        json::token_begins_with_a_dollar();
        reveal_strlit("jsonrpc");
        assert("jsonrpc"@[0] == 'j');
        assert(json::plain(call@, json::MAX_NESTING as nat));
        assert forall|fallback: Seq<char>| #[trigger]
            jsonrpc::line_route(r@, fallback) == jsonrpc::method_route(
                JsonView::Text(id@),
                method@,
                JsonView::Null,
                fallback,
            ) by {
            plain_call_is_understood(id@, method@, r@, fallback);
        }
    }
    r
}

/// A request with these operations on behalf of `actor_id`, under a new
/// identifier.
pub fn new_request(actor_id: &str, operations: Vec<SqlOperation>) -> (r: WriteRequest)
    ensures
        jsonrpc::is_uuid_v7(r.request_id@),
        r.actor_id@ == actor_id@,
        r.run_id is None,
        r.idempotency_key is None,
        r.operations == operations,
{
    WriteRequest {
        request_id: jsonrpc::new_uuid(),
        actor_id: actor_id.to_owned(),
        run_id: None,
        idempotency_key: None,
        operations,
    }
}

/// A new identifier for a call.
pub fn new_call_id() -> (r: String)
    ensures
        jsonrpc::is_uuid_v7(r@),
{
    jsonrpc::new_uuid()
}

/// The member `key` of a value, if it is an object and has it.
pub open spec fn member(j: JsonView, key: Seq<char>) -> Option<JsonView> {
    match j {
        JsonView::Object(o) => json::field(o, key),
        _ => None,
    }
}

/// The text of the member `key` of a value.
pub open spec fn member_text(j: JsonView, key: Seq<char>) -> Option<Seq<char>> {
    match member(j, key) {
        Some(JsonView::Text(s)) => Some(s),
        _ => None,
    }
}

/// The response that the result of an answer stands for.
pub open spec fn result_response(request_id: Seq<char>, result: JsonView) -> ResponseView {
    ResponseView {
        request_id,
        status: if member_text(result, "status"@) == Some("committed"@) {
            WriteStatus::Committed
        } else {
            WriteStatus::Failed
        },
        commit_seq: match member(result, "commit_seq"@) {
            Some(JsonView::Number(n)) => json::int_value(n),
            _ => None,
        },
        error: None,
    }
}

/// The response that the error of an answer stands for.
pub open spec fn error_response(request_id: Seq<char>, err: JsonView) -> ResponseView {
    ResponseView {
        request_id,
        status: WriteStatus::Failed,
        commit_seq: None,
        error: match member_text(err, "message"@) {
            Some(s) => Some(s),
            None => member_text(err, "data"@),
        },
    }
}

/// What an answer to a request says.
pub open spec fn answer_response(request_id: Seq<char>, answer: JsonView) -> Option<ResponseView> {
    match (member(answer, "result"@), member(answer, "error"@)) {
        (Some(result), _) => Some(result_response(request_id, result)),
        (None, Some(err)) => Some(error_response(request_id, err)),
        (None, None) => None,
    }
}

/// What a client makes of the answer to a request.
pub open spec fn reply_response(request_id: Seq<char>, reply: Seq<char>) -> Result<
    ResponseView,
    ErrorView,
> {
    match json::json_read(reply) {
        Err(e) => Err(ErrorView::Json(e)),
        Ok(answer) => match answer_response(request_id, answer) {
            Some(response) => Ok(response),
            None => Err(ErrorView::Protocol("unexpected JSON-RPC response: "@ + reply)),
        },
    }
}

fn get<'a>(j: &'a Json, key: &str) -> (r: Option<&'a Json>)
    ensures
        match r {
            Some(v) => member(j@, key@) == Some(v@),
            None => member(j@, key@) is None,
        },
{
    match j {
        Json::Object(o) => o.get(key),
        _ => None,
    }
}

fn get_text(j: &Json, key: &str) -> (r: Option<String>)
    ensures
        request::opt_text(r) == member_text(j@, key@),
{
    match get(j, key) {
        Some(Json::Text(s)) => Some(s.clone()),
        _ => None,
    }
}

/// Reads the answer to a request.
pub fn read_reply(request_id: &str, reply: &str) -> (r: Result<WriteResponse, Error>)
    ensures
        jsonrpc::result_view(r) == reply_response(request_id@, reply@),
{
    let answer = match Json::parse(reply) {
        Ok(v) => v,
        Err(e) => {
            return Err(Error::Json(e));
        },
    };
    if let Some(result) = get(&answer, "result") {
        let committed = match get_text(result, "status") {
            Some(s) => same_text(&s, "committed"),
            None => false,
        };
        let status = if committed {
            WriteStatus::Committed
        } else {
            WriteStatus::Failed
        };
        let commit_seq = match get(result, "commit_seq") {
            Some(n) => n.as_integer(),
            None => None,
        };
        return Ok(
            WriteResponse { request_id: request_id.to_owned(), status, commit_seq, error: None },
        );
    }
    if let Some(err) = get(&answer, "error") {
        let error = match get_text(err, "message") {
            Some(s) => Some(s),
            None => get_text(err, "data"),
        };
        return Ok(
            WriteResponse {
                request_id: request_id.to_owned(),
                status: WriteStatus::Failed,
                commit_seq: None,
                error,
            },
        );
    }
    Err(Error::Protocol(joined("unexpected JSON-RPC response: ", reply)))
}

/// What a client makes of the answer to a method whose result does not matter.
pub open spec fn acknowledgement(reply: Seq<char>) -> Result<(), ErrorView> {
    match json::json_read(reply) {
        Err(e) => Err(ErrorView::Json(e)),
        Ok(answer) => match (member(answer, "result"@), member(answer, "error"@)) {
            (None, Some(err)) => Err(ErrorView::Protocol(json::json_text(err))),
            _ => Ok(()),
        },
    }
}

/// Reads the answer to a method whose result does not matter. It is an error only
/// if it says so.
pub fn read_acknowledgement(reply: &str) -> (r: Result<(), Error>)
    ensures
        match r {
            Ok(_) => acknowledgement(reply@) is Ok,
            Err(e) => acknowledgement(reply@) == Err::<(), ErrorView>(e@),
        },
{
    let answer = match Json::parse(reply) {
        Ok(v) => v,
        Err(e) => {
            return Err(Error::Json(e));
        },
    };
    match (get(&answer, "result"), get(&answer, "error")) {
        (None, Some(err)) => Err(Error::Protocol(err.to_text())),
        _ => Ok(()),
    }
}

/// What a client makes of the answer to a method whose result it wants.
pub open spec fn wanted_result(reply: Seq<char>) -> Result<JsonView, ErrorView> {
    match json::json_read(reply) {
        Err(e) => Err(ErrorView::Json(e)),
        Ok(answer) => match (member(answer, "result"@), member(answer, "error"@)) {
            (Some(result), _) => Ok(result),
            (None, Some(err)) => Err(ErrorView::Protocol(json::json_text(err))),
            (None, None) => Err(ErrorView::Protocol("unexpected stats response: "@ + reply)),
        },
    }
}

/// Reads the result from the answer to a request for the counters.
pub fn read_stats_result(reply: &str) -> (r: Result<Json, Error>)
    ensures
        match r {
            Ok(j) => wanted_result(reply@) == Ok::<JsonView, ErrorView>(j@),
            Err(e) => wanted_result(reply@) == Err::<JsonView, ErrorView>(e@),
        },
{
    let answer = match Json::parse(reply) {
        Ok(v) => v,
        Err(e) => {
            return Err(Error::Json(e));
        },
    };
    match (get(&answer, "result"), get(&answer, "error")) {
        (Some(result), _) => Ok(result.clone()),
        (None, Some(err)) => Err(Error::Protocol(err.to_text())),
        (None, None) => Err(Error::Protocol(joined("unexpected stats response: ", reply))),
    }
}

} // verus!
