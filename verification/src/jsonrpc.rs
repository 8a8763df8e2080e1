//! The JSON-RPC 2.0 protocol: what a line asks for, and what is answered.
//!
//! A line, or the body of an HTTP request, holds one request object. It is either
//! answered at once or asks for something that the writer, the queue or the file
//! system has to provide; what came of that is then turned into the answer.
use vstd::prelude::*;

use crate::client;
use crate::error;
use crate::error::{joined, Error, ErrorView};
use crate::json;
use crate::json::{Json, JsonObject, JsonView};
use crate::request;
use crate::request::{
    OperationView, RequestView, ResponseView, SqlOperation, WriteRequest, WriteResponse,
    WriteStatus,
};
use crate::stats;
use crate::stats::{Stats, StatsSnapshot};
use crate::text;
use crate::text::{decimal_text, same_text};

verus! {

/// The text is not JSON.
pub const ERR_PARSE_ERROR: i64 = -32700;

/// The value is not a request: an array, no version `"2.0"`, or no method.
pub const ERR_INVALID_REQUEST: i64 = -32600;

/// There is no such method.
pub const ERR_METHOD_NOT_FOUND: i64 = -32601;

/// A parameter is missing or is not what it should be.
pub const ERR_INVALID_PARAMS: i64 = -32602;

/// The request was executed and failed.
pub const ERR_WRITE_FAILED: i64 = -32000;

/// The queue did not take the request.
pub const ERR_GATEWAY_OVERLOADED: i64 = -32001;

/// The most bytes that a line, or the body of an HTTP request, may hold.
pub const MAX_LINE_BYTES: usize = 1_048_576;

/// A request object, before its method is looked at.
#[derive(Debug, Clone)]
pub struct RawRequest {
    /// The version of the protocol, which has to be `"2.0"`.
    pub jsonrpc: Option<String>,
    /// The identifier that the answer repeats.
    pub id: Json,
    /// The method.
    pub method: Option<String>,
    /// The parameters of the method.
    pub params: Json,
}

/// An answer with a result.
#[derive(Debug, Clone)]
pub struct JsonRpcSuccess {
    pub jsonrpc: &'static str,
    pub id: Json,
    pub result: Json,
}

/// An answer with an error.
#[derive(Debug, Clone)]
pub struct JsonRpcError {
    pub jsonrpc: &'static str,
    pub id: Json,
    pub error: RpcErrorObject,
}

/// The error of an answer.
#[derive(Debug, Clone)]
pub struct RpcErrorObject {
    pub code: i64,
    pub message: String,
    pub data: Option<Json>,
}

/// The value of an optional JSON value.
pub open spec fn opt_json(j: Option<Json>) -> Option<JsonView> {
    match j {
        Some(x) => Some(x@),
        None => None,
    }
}

/// The JSON of an answer with a result.
pub open spec fn ok_envelope(id: JsonView, result: JsonView) -> JsonView {
    JsonView::Object(
        seq![("jsonrpc"@, JsonView::Text("2.0"@)), ("id"@, id), ("result"@, result)],
    )
}

/// The JSON of the error of an answer.
pub open spec fn error_object(code: i64, message: Seq<char>, data: Option<JsonView>) -> JsonView {
    match data {
        Some(d) => JsonView::Object(
            seq![
                ("code"@, JsonView::Number(json::int_number(code))),
                ("message"@, JsonView::Text(message)),
                ("data"@, d),
            ],
        ),
        None => JsonView::Object(
            seq![
                ("code"@, JsonView::Number(json::int_number(code))),
                ("message"@, JsonView::Text(message)),
            ],
        ),
    }
}

/// The JSON of an answer with an error.
pub open spec fn err_envelope(
    id: JsonView,
    code: i64,
    message: Seq<char>,
    data: Option<JsonView>,
) -> JsonView {
    JsonView::Object(
        seq![
            ("jsonrpc"@, JsonView::Text("2.0"@)),
            ("id"@, id),
            ("error"@, error_object(code, message, data)),
        ],
    )
}

/// The text of an answer with a result.
pub open spec fn ok_text(id: JsonView, result: JsonView) -> Seq<char> {
    json::json_text(ok_envelope(id, result))
}

/// The text of an answer with an error.
pub open spec fn err_text(id: JsonView, code: i64, message: Seq<char>) -> Seq<char> {
    json::json_text(err_envelope(id, code, message, None))
}

proof fn envelope_keys()
    ensures
        "jsonrpc"@ != "id"@,
        "jsonrpc"@ != "result"@,
        "jsonrpc"@ != "error"@,
        "id"@ != "result"@,
        "id"@ != "error"@,
        "code"@ != "message"@,
        "code"@ != "data"@,
        "message"@ != "data"@,
        "result"@ != "error"@,
{
    reveal_strlit("jsonrpc");
    reveal_strlit("id");
    reveal_strlit("result");
    reveal_strlit("error");
    reveal_strlit("code");
    reveal_strlit("message");
    reveal_strlit("data");
    assert("jsonrpc"@.len() == 7 && "id"@.len() == 2 && "result"@.len() == 6);
    assert("error"@.len() == 5 && "message"@.len() == 7);
    assert("code"@[0] == 'c' && "data"@[0] == 'd');
    assert("code"@.len() == 4 && "data"@.len() == 4);
}

/// No object of an answer begins with the mark of `serde_json`.
proof fn envelope_keys_are_plain()
    ensures
        "jsonrpc"@ != json::raw_token(),
        "code"@ != json::raw_token(),
        "status"@ != json::raw_token(),
{
    json::token_begins_with_a_dollar();
    reveal_strlit("jsonrpc");
    reveal_strlit("code");
    reveal_strlit("status");
    assert("jsonrpc"@[0] == 'j' && "code"@[0] == 'c' && "status"@[0] == 's');
}

impl JsonRpcSuccess {
    /// An answer with a result.
    pub fn new(id: Json, result: Json) -> (r: Self)
        ensures
            r.jsonrpc@ == "2.0"@,
            r.id@ == id@,
            r.result@ == result@,
    {
        Self { jsonrpc: "2.0", id, result }
    }

    /// The answer as JSON.
    pub fn into_json(self) -> (r: Json)
        ensures
            r@ == JsonView::Object(
                seq![
                    ("jsonrpc"@, JsonView::Text(self.jsonrpc@)),
                    ("id"@, self.id@),
                    ("result"@, self.result@),
                ],
            ),
    {
        proof {
            envelope_keys();
        }
        let r = json::object(
            vec![
                ("jsonrpc", Json::text(self.jsonrpc)),
                ("id", self.id),
                ("result", self.result),
            ],
        );
        assert(r@->Object_0 =~= seq![
            ("jsonrpc"@, JsonView::Text(self.jsonrpc@)),
            ("id"@, self.id@),
            ("result"@, self.result@),
        ]);
        r
    }
}

impl JsonRpcError {
    /// An answer with an error. Where the request's identifier is not known, `id`
    /// is `null`.
    pub fn new(id: Json, code: i64, message: String) -> (r: Self)
        ensures
            r.jsonrpc@ == "2.0"@,
            r.id@ == id@,
            r.error.code == code,
            r.error.message@ == message@,
            r.error.data is None,
    {
        Self { jsonrpc: "2.0", id, error: RpcErrorObject { code, message, data: None } }
    }

    /// An answer with an error and what else is known of it.
    pub fn with_data(id: Json, code: i64, message: String, data: Json) -> (r: Self)
        ensures
            r.jsonrpc@ == "2.0"@,
            r.id@ == id@,
            r.error.code == code,
            r.error.message@ == message@,
            r.error.data is Some,
            r.error.data->0@ == data@,
    {
        Self { jsonrpc: "2.0", id, error: RpcErrorObject { code, message, data: Some(data) } }
    }

    /// The answer as JSON.
    pub fn into_json(self) -> (r: Json)
        ensures
            r@ == JsonView::Object(
                seq![
                    ("jsonrpc"@, JsonView::Text(self.jsonrpc@)),
                    ("id"@, self.id@),
                    ("error"@, error_object(
                        self.error.code,
                        self.error.message@,
                        opt_json(self.error.data),
                    )),
                ],
            ),
    {
        proof {
            envelope_keys();
        }
        let ghost data_view = opt_json(self.error.data);
        let code = Json::Number(json::number_from_int(self.error.code));
        let message = Json::Text(self.error.message);
        let error = match self.error.data {
            Some(d) => json::object(vec![("code", code), ("message", message), ("data", d)]),
            None => json::object(vec![("code", code), ("message", message)]),
        };
        assert(error@->Object_0 =~= error_object(
            self.error.code,
            self.error.message@,
            data_view,
        )->Object_0);
        let r = json::object(
            vec![("jsonrpc", Json::text(self.jsonrpc)), ("id", self.id), ("error", error)],
        );
        assert(r@->Object_0 =~= seq![
            ("jsonrpc"@, JsonView::Text(self.jsonrpc@)),
            ("id"@, self.id@),
            ("error"@, error@),
        ]);
        r
    }
}

/// The text of an answer with a result.
pub fn ok_json(id: Json, result: Json) -> (r: String)
    ensures
        r@ == ok_text(id@, result@),
        json::is_one_line(r@),
        json::plain(ok_envelope(id@, result@), json::MAX_NESTING as nat) ==> json::reads_as(
            r@,
            ok_envelope(id@, result@),
        ),
{
    JsonRpcSuccess::new(id, result).into_json().to_text()
}

/// The text of an answer with an error.
pub fn err_json(id: Json, code: i64, message: String) -> (r: String)
    ensures
        r@ == err_text(id@, code, message@),
        json::is_one_line(r@),
        json::plain(err_envelope(id@, code, message@, None), json::MAX_NESTING as nat)
            ==> json::reads_as(r@, err_envelope(id@, code, message@, None)),
{
    JsonRpcError::new(id, code, message).into_json().to_text()
}

/// The text of an answer with an error and what else is known of it.
pub fn err_json_data(id: Json, code: i64, message: String, data: Json) -> (r: String)
    ensures
        r@ == json::json_text(err_envelope(id@, code, message@, Some(data@))),
        json::is_one_line(r@),
        json::plain(err_envelope(id@, code, message@, Some(data@)), json::MAX_NESTING as nat)
            ==> json::reads_as(r@, err_envelope(id@, code, message@, Some(data@))),
{
    JsonRpcError::with_data(id, code, message, data).into_json().to_text()
}

/// What a request object asks for.
pub enum Routed {
    /// It is answered with this text.
    Reply(String),
    /// A request is to be executed.
    Execute { id: Json, request: WriteRequest },
    /// A snapshot of the counters is to be reported.
    Stats { id: Json },
    /// The write-ahead log is to be moved to the database file.
    Checkpoint { id: Json },
}

/// What a request object asks for, as a mathematical value.
pub enum RoutedView {
    /// It is answered with this.
    Reply(JsonView),
    Execute { id: JsonView, request: RequestView },
    Stats { id: JsonView },
    Checkpoint { id: JsonView },
}

/// Whether `s` is the text of `answer`: one line, from which the parser reads the
/// answer back if it is plain.
pub open spec fn is_text_of(s: Seq<char>, answer: JsonView) -> bool {
    &&& s == json::json_text(answer)
    &&& json::is_one_line(s)
    &&& json::plain(answer, json::MAX_NESTING as nat) ==> json::reads_as(s, answer)
}

/// Whether `r` is what `v` says, with the text of an answer in the answer's place.
pub open spec fn routed_as(r: Routed, v: RoutedView) -> bool {
    match (r, v) {
        (Routed::Reply(s), RoutedView::Reply(answer)) => is_text_of(s@, answer),
        (Routed::Execute { id, request }, RoutedView::Execute { id: i, request: q }) => id@ == i
            && request@ == q,
        (Routed::Stats { id }, RoutedView::Stats { id: i }) => id@ == i,
        (Routed::Checkpoint { id }, RoutedView::Checkpoint { id: i }) => id@ == i,
        _ => false,
    }
}

/// The text of the member `key`, if it is there and is a text.
pub open spec fn text_field(o: Seq<(Seq<char>, JsonView)>, key: Seq<char>) -> Option<Seq<char>> {
    match json::field(o, key) {
        Some(JsonView::Text(s)) => Some(s),
        _ => None,
    }
}

/// The operation that a JSON value stands for, or what is wrong with it. It is
/// the `index`-th of its request.
pub open spec fn operation_of(j: JsonView, index: nat) -> Result<OperationView, Seq<char>> {
    let name = "operations["@ + text::decimal(index);
    match j {
        JsonView::Object(o) => match text_field(o, "sql"@) {
            Some(sql) => match json::field(o, "params"@) {
                Some(JsonView::Array(params)) => Ok(OperationView { sql, params }),
                Some(JsonView::Null) => Ok(OperationView { sql, params: Seq::empty() }),
                None => Ok(OperationView { sql, params: Seq::empty() }),
                Some(_) => Err(name + "].params must be an array or absent"@),
            },
            None => Err(name + "].sql must be a string"@),
        },
        _ => Err(name + "] must be an object"@),
    }
}

/// The operations that JSON values stand for, or what is wrong with the first
/// that stands for none.
pub open spec fn operations_of(a: Seq<JsonView>) -> Result<Seq<OperationView>, Seq<char>>
    decreases a.len(),
{
    if a.len() == 0 {
        Ok(Seq::empty())
    } else {
        match operations_of(a.drop_last()) {
            Ok(ops) => match operation_of(a.last(), (a.len() - 1) as nat) {
                Ok(op) => Ok(ops.push(op)),
                Err(e) => Err(e),
            },
            Err(e) => Err(e),
        }
    }
}

/// The identifier of the request to be executed: that of the request object if it
/// is a text or a number, and `fallback` otherwise.
pub open spec fn request_id_of(id: JsonView, fallback: Seq<char>) -> Seq<char> {
    match id {
        JsonView::Text(s) => s,
        JsonView::Number(_) => json::json_text(id),
        _ => fallback,
    }
}

/// The request that the parameters of `execute` stand for, or what is wrong with
/// them.
pub open spec fn execute_request(id: JsonView, params: JsonView, fallback: Seq<char>) -> Result<
    RequestView,
    Seq<char>,
> {
    match params {
        JsonView::Object(o) => match text_field(o, "actor_id"@) {
            None => Err("missing or non-string actor_id in params"@),
            Some(actor_id) => match json::field(o, "operations"@) {
                None => Err("missing operations in params"@),
                Some(JsonView::Array(a)) => if a.len() == 0 {
                    Err("operations must be a non-empty array"@)
                } else {
                    match operations_of(a) {
                        Err(e) => Err(e),
                        Ok(operations) => Ok(
                            RequestView {
                                request_id: request_id_of(id, fallback),
                                actor_id,
                                run_id: text_field(o, "run_id"@),
                                idempotency_key: text_field(o, "idempotency_key"@),
                                operations,
                            },
                        ),
                    }
                },
                Some(_) => Err("operations must be an array"@),
            },
        },
        _ => Err("params must be an object with actor_id and operations"@),
    }
}

/// Whether a member is there and is neither a text nor `null`.
pub open spec fn is_misfit(member: Option<JsonView>) -> bool {
    member matches Some(v) && !(v is Text) && !(v is Null)
}

/// The value of the first member of a request object that has to be a text or
/// `null`, and is neither: the version goes before the method.
pub open spec fn first_misfit(o: Seq<(Seq<char>, JsonView)>) -> Option<JsonView> {
    let version = json::field(o, "jsonrpc"@);
    let method = json::field(o, "method"@);
    if is_misfit(version) {
        version
    } else if is_misfit(method) {
        method
    } else {
        None
    }
}

/// The error for a value that is no request object: what is reported where a map
/// is expected, with what is expected here in its place.
pub open spec fn object_error(j: JsonView) -> Seq<char> {
    let e = json::map_error(j);
    e.take(e.len() - "a map"@.len()) + "struct RawRequest"@
}

/// The result that reports that all is well.
pub open spec fn status_ok() -> JsonView {
    JsonView::Object(seq![("status"@, JsonView::Text("ok"@))])
}

/// What a method asks for.
pub open spec fn method_route(
    id: JsonView,
    method: Seq<char>,
    params: JsonView,
    fallback: Seq<char>,
) -> RoutedView {
    if method == "execute"@ {
        match execute_request(id, params, fallback) {
            Ok(request) => RoutedView::Execute { id, request },
            Err(e) => RoutedView::Reply(err_envelope(id, ERR_INVALID_PARAMS, e, None)),
        }
    } else if method == "stats"@ {
        RoutedView::Stats { id }
    } else if method == "health"@ {
        RoutedView::Reply(ok_envelope(id, status_ok()))
    } else if method == "checkpoint"@ {
        RoutedView::Checkpoint { id }
    } else {
        RoutedView::Reply(
            err_envelope(id, ERR_METHOD_NOT_FOUND, "method not found: "@ + method, None),
        )
    }
}

/// What the members of a request object ask for.
pub open spec fn members_route(o: Seq<(Seq<char>, JsonView)>, fallback: Seq<char>) -> RoutedView {
    let id = request::field_or_null(o, "id"@);
    if text_field(o, "jsonrpc"@) != Some("2.0"@) {
        RoutedView::Reply(
            err_envelope(
                id,
                ERR_INVALID_REQUEST,
                "missing or invalid \"jsonrpc\" field; must be \"2.0\""@,
                None,
            ),
        )
    } else {
        match text_field(o, "method"@) {
            None => RoutedView::Reply(
                err_envelope(id, ERR_INVALID_REQUEST, "missing \"method\" field"@, None),
            ),
            Some(method) => method_route(
                id,
                method,
                request::field_or_null(o, "params"@),
                fallback,
            ),
        }
    }
}

/// What a line asks for. A request without an identifier of its own is executed
/// under `fallback`.
pub open spec fn line_route(line: Seq<char>, fallback: Seq<char>) -> RoutedView {
    match json::json_read(line) {
        Err(e) => RoutedView::Reply(
            err_envelope(JsonView::Null, ERR_PARSE_ERROR, "parse error: "@ + e, None),
        ),
        Ok(JsonView::Array(_)) => RoutedView::Reply(
            err_envelope(
                JsonView::Null,
                ERR_INVALID_REQUEST,
                "JSON-RPC batch arrays are not supported; send one request per line"@,
                None,
            ),
        ),
        Ok(JsonView::Object(o)) => match first_misfit(o) {
            Some(v) => RoutedView::Reply(
                err_envelope(
                    request::field_or_null(o, "id"@),
                    ERR_INVALID_REQUEST,
                    "invalid request structure: "@ + json::string_error(v),
                    None,
                ),
            ),
            None => members_route(o, fallback),
        },
        Ok(other) => RoutedView::Reply(
            err_envelope(
                JsonView::Null,
                ERR_INVALID_REQUEST,
                "invalid request structure: "@ + object_error(other),
                None,
            ),
        ),
    }
}

fn member_text(o: &JsonObject, key: &str) -> (r: Option<String>)
    ensures
        request::opt_text(r) == text_field(o@, key@),
{
    match o.get(key) {
        Some(Json::Text(s)) => Some(s.clone()),
        _ => None,
    }
}

/// Reads one operation, the `index`-th of its request.
fn read_operation(j: &Json, index: usize) -> (r: Result<SqlOperation, String>)
    ensures
        match r {
            Ok(op) => operation_of(j@, index as nat) == Ok::<OperationView, Seq<char>>(op@),
            Err(e) => operation_of(j@, index as nat) == Err::<OperationView, Seq<char>>(e@),
        },
{
    let name = joined("operations[", &decimal_text(index as u64));
    let o = match j {
        Json::Object(o) => o,
        _ => {
            return Err(joined(&name, "] must be an object"));
        },
    };
    let sql = match member_text(o, "sql") {
        Some(s) => s,
        None => {
            return Err(joined(&name, "].sql must be a string"));
        },
    };
    let params = match o.get("params") {
        Some(Json::Array(a)) => {
            let values = request::clone_values(a);
            assert(request::values(values@) =~= json::field(o@, "params"@)->0->Array_0);
            values
        },
        Some(Json::Null) => Vec::new(),
        None => Vec::new(),
        Some(_) => {
            return Err(joined(&name, "].params must be an array or absent"));
        },
    };
    let op = SqlOperation { sql, params };
    assert(params@.len() == 0 ==> op@.params =~= Seq::empty());
    Ok(op)
}

/// Once an operation cannot be read, those after it do not matter.
proof fn first_bad_operation_is_kept(a: Seq<JsonView>, i: int)
    requires
        0 <= i <= a.len(),
        operations_of(a.take(i)) is Err,
    ensures
        operations_of(a) == operations_of(a.take(i)),
    decreases a.len() - i,
{
    if i < a.len() {
        assert(a.take(i + 1).drop_last() =~= a.take(i));
        first_bad_operation_is_kept(a, i + 1);
    } else {
        assert(a.take(i) =~= a);
    }
}

/// Reads the operations of a request, up to the first that cannot be read.
fn read_operations(a: &Vec<Json>) -> (r: Result<Vec<SqlOperation>, String>)
    ensures
        match r {
            Ok(ops) => operations_of(request::values(a@)) == Ok::<Seq<OperationView>, Seq<char>>(
                request::operation_views(ops@),
            ),
            Err(e) => operations_of(request::values(a@)) == Err::<Seq<OperationView>, Seq<char>>(
                e@,
            ),
        },
{
    let ghost all = request::values(a@);
    let mut out: Vec<SqlOperation> = Vec::new();
    let n = a.len();
    assert(request::operation_views(out@) =~= Seq::empty());
    assert(all.take(0) =~= Seq::empty());
    for i in 0..n
        invariant
            n == a@.len(),
            all == request::values(a@),
            operations_of(all.take(i as int)) == Ok::<Seq<OperationView>, Seq<char>>(
                request::operation_views(out@),
            ),
    {
        let ghost before = request::operation_views(out@);
        assert(all.take(i + 1).drop_last() =~= all.take(i as int));
        match read_operation(&a[i], i) {
            Ok(op) => {
                out.push(op);
                assert(request::operation_views(out@) =~= before.push(op@));
            },
            Err(e) => {
                proof {
                    first_bad_operation_is_kept(all, i + 1);
                }
                return Err(e);
            },
        }
    }
    assert(all.take(n as int) =~= all);
    Ok(out)
}

/// Reads the request that the parameters of `execute` stand for.
fn read_execute(id: &Json, params: &Json, fallback: String) -> (r: Result<WriteRequest, String>)
    ensures
        match r {
            Ok(request) => execute_request(id@, params@, fallback@) == Ok::<
                RequestView,
                Seq<char>,
            >(request@),
            Err(e) => execute_request(id@, params@, fallback@) == Err::<RequestView, Seq<char>>(
                e@,
            ),
        },
{
    let o = match params {
        Json::Object(o) => o,
        _ => {
            return Err("params must be an object with actor_id and operations".to_owned());
        },
    };
    let actor_id = match member_text(o, "actor_id") {
        Some(s) => s,
        None => {
            return Err("missing or non-string actor_id in params".to_owned());
        },
    };
    let list = match o.get("operations") {
        None => {
            return Err("missing operations in params".to_owned());
        },
        Some(Json::Array(a)) => a,
        Some(_) => {
            return Err("operations must be an array".to_owned());
        },
    };
    assert(json::field(o@, "operations"@)->0->Array_0 =~= request::values(list@));
    if list.len() == 0 {
        return Err("operations must be a non-empty array".to_owned());
    }
    let operations = match read_operations(list) {
        Ok(ops) => ops,
        Err(e) => {
            return Err(e);
        },
    };
    let request_id = match id {
        Json::Text(s) => s.clone(),
        Json::Number(_) => id.to_text(),
        _ => fallback,
    };
    Ok(
        WriteRequest {
            request_id,
            actor_id,
            run_id: member_text(o, "run_id"),
            idempotency_key: member_text(o, "idempotency_key"),
            operations,
        },
    )
}

/// Reports a member of a request object that is neither a text nor `null`.
fn check_member(o: &JsonObject, key: &str) -> (r: Option<String>)
    ensures
        match r {
            Some(e) => is_misfit(json::field(o@, key@)) && e@ == json::string_error(
                json::field(o@, key@)->0,
            ),
            None => !is_misfit(json::field(o@, key@)),
        },
{
    match o.get(key) {
        None => None,
        Some(Json::Text(_)) => None,
        Some(Json::Null) => None,
        Some(value) => Some(value.not_a_string()),
    }
}

/// Reports the first member of a request object that has to be a text or `null`
/// and is neither.
fn find_misfit(o: &JsonObject) -> (r: Option<String>)
    ensures
        match r {
            Some(e) => first_misfit(o@) is Some && e@ == json::string_error(first_misfit(o@)->0),
            None => first_misfit(o@) is None,
        },
{
    match check_member(o, "jsonrpc") {
        Some(e) => Some(e),
        None => check_member(o, "method"),
    }
}

/// Reads a request object from a JSON value, or reports why it is none.
pub fn read_raw(j: &Json) -> (r: Result<RawRequest, String>)
    ensures
        match (j@, r) {
            (JsonView::Object(o), Ok(raw)) => {
                &&& first_misfit(o) is None
                &&& request::opt_text(raw.jsonrpc) == text_field(o, "jsonrpc"@)
                &&& raw.id@ == request::field_or_null(o, "id"@)
                &&& request::opt_text(raw.method) == text_field(o, "method"@)
                &&& raw.params@ == request::field_or_null(o, "params"@)
            },
            (JsonView::Object(o), Err(e)) => first_misfit(o) is Some && e@ == json::string_error(
                first_misfit(o)->0,
            ),
            (_, Ok(_)) => false,
            (other, Err(e)) => e@ == object_error(other),
        },
{
    let o = match j {
        Json::Object(o) => o,
        _ => {
            let found = j.not_a_map();
            let n: usize = found.as_str().unicode_len();
            proof {
                reveal_strlit("a map");
                assert("a map"@.len() == 5);
            }
            let head = found.as_str().substring_char(0, n - 5);
            assert(head@ =~= json::map_error(j@).take(json::map_error(j@).len() - 5));
            return Err(joined(head, "struct RawRequest"));
        },
    };
    if let Some(e) = find_misfit(o) {
        return Err(e);
    }
    Ok(
        RawRequest {
            jsonrpc: member_text(o, "jsonrpc"),
            id: request::member_or_null(o, "id"),
            method: member_text(o, "method"),
            params: request::member_or_null(o, "params"),
        },
    )
}

/// The result that reports that all is well.
pub(crate) fn ok_status() -> (r: Json)
    ensures
        r@ == status_ok(),
{
    let r = json::object(vec![("status", Json::text("ok"))]);
    assert(r@->Object_0 =~= status_ok()->Object_0);
    r
}

/// Decides what a request object asks for by its method.
fn route_method(id: Json, method: &String, params: &Json, fallback: String) -> (r: Routed)
    ensures
        routed_as(r, method_route(id@, method@, params@, fallback@)),
{
    if same_text(method, "execute") {
        match read_execute(&id, params, fallback) {
            Ok(request) => Routed::Execute { id, request },
            Err(e) => Routed::Reply(err_json(id, ERR_INVALID_PARAMS, e)),
        }
    } else if same_text(method, "stats") {
        Routed::Stats { id }
    } else if same_text(method, "health") {
        Routed::Reply(ok_json(id, ok_status()))
    } else if same_text(method, "checkpoint") {
        Routed::Checkpoint { id }
    } else {
        Routed::Reply(err_json(id, ERR_METHOD_NOT_FOUND, joined("method not found: ", method)))
    }
}

/// Decides what a line asks for. A request without an identifier of its own gets
/// `fallback` as its identifier. An answer that is given at once is one line.
pub fn route(line: &str, fallback: String) -> (r: Routed)
    ensures
        routed_as(r, line_route(line@, fallback@)),
{
    let j = match Json::parse(line) {
        Ok(j) => j,
        Err(e) => {
            return Routed::Reply(
                err_json(Json::Null, ERR_PARSE_ERROR, joined("parse error: ", &e)),
            );
        },
    };
    if let Json::Array(_) = j {
        return Routed::Reply(
            err_json(
                Json::Null,
                ERR_INVALID_REQUEST,
                "JSON-RPC batch arrays are not supported; send one request per line".to_owned(),
            ),
        );
    }
    let raw = match read_raw(&j) {
        Ok(raw) => raw,
        Err(e) => {
            let id = match &j {
                Json::Object(o) => request::member_or_null(o, "id"),
                _ => Json::Null,
            };
            return Routed::Reply(
                err_json(
                    id,
                    ERR_INVALID_REQUEST,
                    joined("invalid request structure: ", &e),
                ),
            );
        },
    };
    let version_fits = match &raw.jsonrpc {
        Some(v) => same_text(v, "2.0"),
        None => false,
    };
    if !version_fits {
        return Routed::Reply(
            err_json(
                raw.id,
                ERR_INVALID_REQUEST,
                "missing or invalid \"jsonrpc\" field; must be \"2.0\"".to_owned(),
            ),
        );
    }
    match &raw.method {
        None => Routed::Reply(
            err_json(raw.id, ERR_INVALID_REQUEST, "missing \"method\" field".to_owned()),
        ),
        Some(method) => route_method(raw.id, method, &raw.params, fallback),
    }
}

/// Whether `c` is a digit of a lower-case hexadecimal number.
pub open spec fn is_hex(c: char) -> bool {
    '0' <= c <= '9' || 'a' <= c <= 'f'
}

/// Whether `s` is a version 7 UUID in its hyphenated form.
pub open spec fn is_uuid_v7(s: Seq<char>) -> bool {
    &&& s.len() == 36
    &&& s[8] == '-' && s[13] == '-' && s[18] == '-' && s[23] == '-'
    &&& s[14] == '7'
    &&& forall|i: int|
        0 <= i < 36 && i != 8 && i != 13 && i != 18 && i != 23 ==> is_hex(#[trigger] s[i])
}

/// `Uuid::now_v7` and its text. Which of them it is depends on the time and on
/// chance.
#[verifier::external_body]
pub(crate) fn new_uuid() -> (r: String)
    ensures
        is_uuid_v7(r@),
{
    uuid::Uuid::now_v7().to_string()
}

/// Decides what a line asks for. A request without an identifier of its own gets
/// a new UUID as its identifier. An answer that is given at once is one line.
pub fn dispatch(line: &str) -> (r: Routed)
    ensures
        exists|fallback: Seq<char>|
            is_uuid_v7(fallback) && routed_as(r, #[trigger] line_route(line@, fallback)),
{
    let fallback = new_uuid();
    assert(is_uuid_v7(fallback@));
    route(line, fallback)
}

/// The result that reports a commit.
pub open spec fn committed_result(commit_seq: Option<i64>) -> JsonView {
    JsonView::Object(
        seq![
            ("status"@, JsonView::Text("committed"@)),
            ("commit_seq"@, request::opt_int_json(commit_seq)),
        ],
    )
}

/// The answer to a request that was executed, or that the queue did not take.
pub open spec fn execute_reply(id: JsonView, result: Result<ResponseView, ErrorView>) -> JsonView {
    match result {
        Ok(response) => match response.status {
            WriteStatus::Committed => ok_envelope(id, committed_result(response.commit_seq)),
            WriteStatus::Failed => err_envelope(
                id,
                ERR_WRITE_FAILED,
                match response.error {
                    Some(e) => e,
                    None => "write failed"@,
                },
                Some(request::opt_text_json(response.error)),
            ),
        },
        Err(ErrorView::GatewayOverloaded) => err_envelope(
            id,
            ERR_GATEWAY_OVERLOADED,
            "gateway overloaded"@,
            None,
        ),
        Err(ErrorView::GatewayClosed) => err_envelope(
            id,
            ERR_GATEWAY_OVERLOADED,
            "gateway overloaded"@,
            None,
        ),
        Err(e) => err_envelope(id, ERR_WRITE_FAILED, error::error_text(e), None),
    }
}

/// The counters after a request was executed, or was not taken by the queue.
pub open spec fn counted(stats: Stats, result: Result<ResponseView, ErrorView>) -> Stats {
    match result {
        Ok(response) => match response.status {
            WriteStatus::Committed => Stats {
                committed: stats.committed.wrapping_add(1),
                ..stats
            },
            WriteStatus::Failed => Stats { failed: stats.failed.wrapping_add(1), ..stats },
        },
        Err(ErrorView::GatewayOverloaded) => Stats {
            rejected: stats.rejected.wrapping_add(1),
            ..stats
        },
        Err(ErrorView::GatewayClosed) => Stats {
            rejected: stats.rejected.wrapping_add(1),
            ..stats
        },
        Err(_) => Stats { failed: stats.failed.wrapping_add(1), ..stats },
    }
}

/// What became of a request, as a mathematical value.
pub open spec fn result_view(r: Result<WriteResponse, Error>) -> Result<ResponseView, ErrorView> {
    match r {
        Ok(response) => Ok(response@),
        Err(e) => Err(e@),
    }
}

/// Counts a request that is about to be executed.
pub fn count_routed(routed: &Routed, stats: &mut Stats)
    ensures
        *final(stats) == (if *routed is Execute {
            Stats { accepted: old(stats).accepted.wrapping_add(1), ..*old(stats) }
        } else {
            *old(stats)
        }),
{
    if let Routed::Execute { .. } = routed {
        stats.count_accepted();
    }
}

/// The answer to a request reads back as what it is, if its identifier does.
proof fn execute_reply_is_plain(id: JsonView, result: Result<ResponseView, ErrorView>)
    requires
        json::plain(id, (json::MAX_NESTING - 1) as nat),
    ensures
        json::plain(execute_reply(id, result), json::MAX_NESTING as nat),
{
    reveal_with_fuel(json::plain, 4);
    envelope_keys_are_plain();
    assert(json::is_int(json::int_number(ERR_WRITE_FAILED)));
    assert(json::is_int(json::int_number(ERR_GATEWAY_OVERLOADED)));
}

/// What a client learns of a request: the response, under the identifier that the
/// client knows it by, and an error as a response that failed.
pub open spec fn reported(request_id: Seq<char>, result: Result<ResponseView, ErrorView>) -> Result<
    ResponseView,
    ErrorView,
> {
    match result {
        Ok(response) => match response.status {
            WriteStatus::Committed => Ok(request::committed(request_id, response.commit_seq)),
            WriteStatus::Failed => Ok(
                request::failed(
                    request_id,
                    match response.error {
                        Some(e) => e,
                        None => "write failed"@,
                    },
                ),
            ),
        },
        Err(ErrorView::GatewayOverloaded) => Ok(
            request::failed(request_id, "gateway overloaded"@),
        ),
        Err(ErrorView::GatewayClosed) => Ok(request::failed(request_id, "gateway overloaded"@)),
        Err(e) => Ok(request::failed(request_id, error::error_text(e))),
    }
}

/// Whether the number of the commit, if one is reported, is read back from JSON as
/// the same number.
pub open spec fn int_is_kept(result: Result<ResponseView, ErrorView>) -> bool {
    result matches Ok(response) ==> response.status is Committed ==> (
    response.commit_seq matches Some(i) ==> json::int_value(json::int_number(i)) == Some(i))
}

/// A client makes of the answer what it is meant to.
pub(crate) proof fn reply_is_understood(
    id: JsonView,
    result: Result<ResponseView, ErrorView>,
    request_id: Seq<char>,
)
    requires
        int_is_kept(result),
    ensures
        client::answer_response(request_id, json::ordered(execute_reply(id, result))) == Some(
            reported(request_id, result)->Ok_0,
        ),
{
    let answer = execute_reply(id, result);
    let o = answer->Object_0;
    envelope_keys();
    reveal_strlit("status");
    reveal_strlit("commit_seq");
    assert("status"@.len() != "commit_seq"@.len());
    reveal_with_fuel(json::field, 4);
    assert(o.drop_first()[0] == o[1]);
    assert(o.drop_first().drop_first()[0] == o[2]);
    assert(o.drop_first().drop_first().drop_first().len() == 0);
    let inner = o[2].1->Object_0;
    assert(inner.drop_first()[0] == inner[1]);
    json::field_of_ordered(o, "result"@);
    json::field_of_ordered(o, "error"@);
    assert(o[2].1 == JsonView::Object(inner));
    json::field_of_ordered(inner, "status"@);
    json::field_of_ordered(inner, "commit_seq"@);
    json::field_of_ordered(inner, "message"@);
}

/// Answers a request that was executed, or that the queue did not take, and counts
/// it. A client reads from the answer what became of the request.
pub fn finish_execute(id: Json, result: Result<WriteResponse, Error>, stats: &mut Stats) -> (r:
    String)
    ensures
        r@ == json::json_text(execute_reply(id@, result_view(result))),
        *final(stats) == counted(*old(stats), result_view(result)),
        json::is_one_line(r@),
        json::plain(id@, (json::MAX_NESTING - 1) as nat) ==> json::reads_as(
            r@,
            execute_reply(id@, result_view(result)),
        ),
        json::plain(id@, (json::MAX_NESTING - 1) as nat) ==> forall|request_id: Seq<char>|
            #[trigger] client::reply_response(request_id, r@) == reported(
                request_id,
                result_view(result),
            ),
{
    proof {
        if json::plain(id@, (json::MAX_NESTING - 1) as nat) {
            execute_reply_is_plain(id@, result_view(result));
        }
        assert forall|request_id: Seq<char>|
            int_is_kept(result_view(result)) implies #[trigger] client::answer_response(
            request_id,
            json::ordered(execute_reply(id@, result_view(result))),
        ) == Some(reported(request_id, result_view(result))->Ok_0) by {
            reply_is_understood(id@, result_view(result), request_id);
        }
    }
    match result {
        Ok(response) => match response.status {
            WriteStatus::Committed => {
                stats.count_committed();
                let commit_seq = match response.commit_seq {
                    Some(i) => {
                        let n = json::number_from_int(i);
                        assert(json::int_value(n) == Some(i));
                        Json::Number(n)
                    },
                    None => Json::Null,
                };
                assert(int_is_kept(result_view(result)));
                proof {
                    reveal_strlit("status");
                    reveal_strlit("commit_seq");
                    assert("status"@.len() != "commit_seq"@.len());
                }
                let report = json::object(
                    vec![("status", Json::text("committed")), ("commit_seq", commit_seq)],
                );
                assert(report@->Object_0 =~= committed_result(response.commit_seq)->Object_0);
                ok_json(id, report)
            },
            WriteStatus::Failed => {
                stats.count_failed();
                let data = match &response.error {
                    Some(e) => Json::Text(e.clone()),
                    None => Json::Null,
                };
                let message = match response.error {
                    Some(e) => e,
                    None => "write failed".to_owned(),
                };
                err_json_data(id, ERR_WRITE_FAILED, message, data)
            },
        },
        Err(e) => {
            match e {
                Error::GatewayOverloaded | Error::GatewayClosed => {
                    stats.count_rejected();
                    err_json(id, ERR_GATEWAY_OVERLOADED, "gateway overloaded".to_owned())
                },
                e => {
                    stats.count_failed();
                    err_json(id, ERR_WRITE_FAILED, e.message())
                },
            }
        },
    }
}

/// Answers a request for the counters.
pub fn finish_stats(id: Json, snapshot: &StatsSnapshot) -> (r: String)
    ensures
        is_text_of(r@, ok_envelope(id@, stats::snapshot_json(*snapshot))),
{
    ok_json(id, snapshot.to_json())
}

/// The answer to a request to move the write-ahead log to the database file.
pub open spec fn checkpoint_reply(id: JsonView, result: Result<(), ErrorView>) -> JsonView {
    match result {
        Ok(_) => ok_envelope(id, status_ok()),
        Err(e) => err_envelope(id, ERR_WRITE_FAILED, error::error_text(e), None),
    }
}

/// What came of moving the write-ahead log, as a mathematical value.
pub open spec fn checkpoint_view(r: Result<(), Error>) -> Result<(), ErrorView> {
    match r {
        Ok(_) => Ok(()),
        Err(e) => Err(e@),
    }
}

proof fn checkpoint_reply_is_understood(id: JsonView, result: Result<(), ErrorView>)
    requires
        json::plain(id, (json::MAX_NESTING - 1) as nat),
    ensures
        json::plain(checkpoint_reply(id, result), json::MAX_NESTING as nat),
        ({
            let read = json::ordered(checkpoint_reply(id, result));
            &&& client::member(read, "result"@) is Some <==> result is Ok
            &&& result matches Err(e) ==> client::member(read, "error"@) == Some(
                json::ordered(error_object(ERR_WRITE_FAILED, error::error_text(e), None)),
            )
        }),
{
    let o = checkpoint_reply(id, result)->Object_0;
    envelope_keys();
    reveal_with_fuel(json::plain, 4);
    envelope_keys_are_plain();
    assert(json::is_int(json::int_number(ERR_WRITE_FAILED)));
    reveal_with_fuel(json::field, 4);
    assert(o.drop_first()[0] == o[1]);
    assert(o.drop_first().drop_first()[0] == o[2]);
    assert(o.drop_first().drop_first().drop_first().len() == 0);
    json::field_of_ordered(o, "result"@);
    json::field_of_ordered(o, "error"@);
}

/// Answers a request to move the write-ahead log to the database file. A client
/// reads from the answer whether that was done.
pub fn finish_checkpoint(id: Json, result: Result<(), Error>) -> (r: String)
    ensures
        r@ == json::json_text(checkpoint_reply(id@, checkpoint_view(result))),
        json::is_one_line(r@),
        json::plain(id@, (json::MAX_NESTING - 1) as nat) ==> json::reads_as(
            r@,
            checkpoint_reply(id@, checkpoint_view(result)),
        ),
        json::plain(id@, (json::MAX_NESTING - 1) as nat) ==> match result {
            Ok(_) => client::acknowledgement(r@) is Ok,
            Err(e) => client::acknowledgement(r@) == Err::<(), ErrorView>(
                ErrorView::Protocol(
                    json::json_text(
                        json::ordered(
                            error_object(ERR_WRITE_FAILED, error::error_text(e@), None),
                        ),
                    ),
                ),
            ),
        },
{
    proof {
        if json::plain(id@, (json::MAX_NESTING - 1) as nat) {
            checkpoint_reply_is_understood(id@, checkpoint_view(result));
        }
    }
    match result {
        Ok(_) => ok_json(id, ok_status()),
        Err(e) => err_json(id, ERR_WRITE_FAILED, e.message()),
    }
}

/// The member `id` of an answer.
pub open spec fn id_of(answer: JsonView) -> Option<JsonView> {
    match answer {
        JsonView::Object(o) => json::field(o, "id"@),
        _ => None,
    }
}

proof fn envelopes_hold_the_id(
    id: JsonView,
    result: JsonView,
    code: i64,
    message: Seq<char>,
    data: Option<JsonView>,
)
    ensures
        id_of(ok_envelope(id, result)) == Some(id),
        id_of(err_envelope(id, code, message, data)) == Some(id),
{
    envelope_keys();
    reveal_with_fuel(json::field, 3);
    let ok = ok_envelope(id, result)->Object_0;
    let err = err_envelope(id, code, message, data)->Object_0;
    assert(ok.drop_first()[0] == ok[1]);
    assert(err.drop_first()[0] == err[1]);
}

/// Every request object gets its identifier back, whatever it asks for and
/// whatever comes of it: an answer that is given at once repeats it, and what is
/// to be done goes with it.
pub proof fn id_is_repeated(line: Seq<char>, o: Seq<(Seq<char>, JsonView)>, fallback: Seq<char>)
    requires
        json::json_read(line) == Ok::<JsonView, Seq<char>>(JsonView::Object(o)),
    ensures
        ({
            let id = request::field_or_null(o, "id"@);
            match line_route(line, fallback) {
                RoutedView::Reply(answer) => id_of(answer) == Some(id),
                RoutedView::Execute { id: kept, request } => kept == id,
                RoutedView::Stats { id: kept } => kept == id,
                RoutedView::Checkpoint { id: kept } => kept == id,
            }
        }),
{
    let id = request::field_or_null(o, "id"@);
    let route = line_route(line, fallback);
    if route is Reply {
        let method = text_field(o, "method"@);
        let params = request::field_or_null(o, "params"@);
        let answer = if first_misfit(o) is Some {
            err_envelope(
                id,
                ERR_INVALID_REQUEST,
                "invalid request structure: "@ + json::string_error(first_misfit(o)->0),
                None,
            )
        } else if text_field(o, "jsonrpc"@) != Some("2.0"@) {
            err_envelope(
                id,
                ERR_INVALID_REQUEST,
                "missing or invalid \"jsonrpc\" field; must be \"2.0\""@,
                None,
            )
        } else if method is None {
            err_envelope(id, ERR_INVALID_REQUEST, "missing \"method\" field"@, None)
        } else if method->0 == "execute"@ {
            err_envelope(
                id,
                ERR_INVALID_PARAMS,
                execute_request(id, params, fallback)->Err_0,
                None,
            )
        } else if method->0 == "health"@ {
            ok_envelope(id, status_ok())
        } else {
            err_envelope(
                id,
                ERR_METHOD_NOT_FOUND,
                "method not found: "@ + method->0,
                None,
            )
        };
        assert(route->Reply_0 == answer);
        if answer == ok_envelope(id, status_ok()) {
            envelopes_hold_the_id(id, status_ok(), 0, ""@, None);
        } else {
            let o = answer->Object_0;
            envelope_keys();
            reveal_with_fuel(json::field, 3);
            assert(o.drop_first()[0] == o[1]);
            assert(id_of(answer) == Some(id));
        }
    }
}

/// The answer to a request that was executed repeats its identifier.
pub proof fn reply_repeats_the_id(id: JsonView, result: Result<ResponseView, ErrorView>)
    ensures
        id_of(execute_reply(id, result)) == Some(id),
{
    let o = execute_reply(id, result)->Object_0;
    envelope_keys();
    reveal_with_fuel(json::field, 3);
    assert(o.drop_first()[0] == o[1]);
}

/// Every request that was counted as accepted is counted once more when it is
/// answered: as committed, as failed or as rejected.
pub proof fn each_request_is_counted_once(stats: Stats, result: Result<ResponseView, ErrorView>)
    requires
        stats.committed < u64::MAX,
        stats.failed < u64::MAX,
        stats.rejected < u64::MAX,
    ensures
        ({
            let after = counted(stats, result);
            &&& after.accepted == stats.accepted
            &&& after.committed + after.failed + after.rejected == stats.committed + stats.failed
                + stats.rejected + 1
            &&& after.committed >= stats.committed
            &&& after.failed >= stats.failed
            &&& after.rejected >= stats.rejected
        }),
{
}

} // verus!
