//! Write requests and their responses, and the JSON in which both are stored.
use vstd::prelude::*;

use crate::json;
use crate::json::{Json, JsonObject, JsonView};
use crate::text::same_text;

verus! {

/// A write request. One request is one transaction.
#[derive(Debug, Clone)]
pub struct WriteRequest {
    /// Identifier of this request, chosen by the caller.
    pub request_id: String,
    /// Identifier of the agent that issues the write.
    pub actor_id: String,
    /// The run or job that the request belongs to.
    pub run_id: Option<String>,
    /// Key under which a repeated request is recognised.
    pub idempotency_key: Option<String>,
    /// The statements, in the order in which they are executed.
    pub operations: Vec<SqlOperation>,
}

/// One SQL statement with the values of its placeholders.
#[derive(Debug, Clone)]
pub struct SqlOperation {
    /// The statement, with `?` placeholders.
    pub sql: String,
    /// The values of the placeholders, by position.
    pub params: Vec<Json>,
}

/// The outcome of a [`WriteRequest`].
#[derive(Debug, Clone)]
pub struct WriteResponse {
    /// The identifier of the request.
    pub request_id: String,
    /// Whether the transaction was committed.
    pub status: WriteStatus,
    /// The commit's sequence number, if commits are tracked and it was made.
    pub commit_seq: Option<i64>,
    /// What went wrong, if the transaction failed.
    pub error: Option<String>,
}

/// Whether a transaction was committed.
#[derive(Debug, Clone, Copy, PartialEq, Eq, Structural)]
pub enum WriteStatus {
    /// The transaction was committed.
    Committed,
    /// The transaction was rolled back.
    Failed,
}

/// An [`SqlOperation`] as a mathematical value.
#[verifier::ext_equal]
pub struct OperationView {
    pub sql: Seq<char>,
    pub params: Seq<JsonView>,
}

/// A [`WriteRequest`] as a mathematical value.
#[verifier::ext_equal]
pub struct RequestView {
    pub request_id: Seq<char>,
    pub actor_id: Seq<char>,
    pub run_id: Option<Seq<char>>,
    pub idempotency_key: Option<Seq<char>>,
    pub operations: Seq<OperationView>,
}

/// A [`WriteResponse`] as a mathematical value.
#[verifier::ext_equal]
pub struct ResponseView {
    pub request_id: Seq<char>,
    pub status: WriteStatus,
    pub commit_seq: Option<i64>,
    pub error: Option<Seq<char>>,
}

/// The text of an optional string.
pub open spec fn opt_text(s: Option<String>) -> Option<Seq<char>> {
    match s {
        Some(t) => Some(t@),
        None => None,
    }
}

/// The values of a list of JSON values.
pub open spec fn values(v: Seq<Json>) -> Seq<JsonView> {
    Seq::new(v.len(), |i: int| v[i]@)
}

/// The values of a list of operations.
pub open spec fn operation_views(v: Seq<SqlOperation>) -> Seq<OperationView> {
    Seq::new(v.len(), |i: int| v[i]@)
}

impl View for SqlOperation {
    type V = OperationView;

    open spec fn view(&self) -> OperationView {
        OperationView { sql: self.sql@, params: values(self.params@) }
    }
}

impl View for WriteRequest {
    type V = RequestView;

    open spec fn view(&self) -> RequestView {
        RequestView {
            request_id: self.request_id@,
            actor_id: self.actor_id@,
            run_id: opt_text(self.run_id),
            idempotency_key: opt_text(self.idempotency_key),
            operations: operation_views(self.operations@),
        }
    }
}

impl View for WriteResponse {
    type V = ResponseView;

    open spec fn view(&self) -> ResponseView {
        ResponseView {
            request_id: self.request_id@,
            status: self.status,
            commit_seq: self.commit_seq,
            error: opt_text(self.error),
        }
    }
}

/// An operation with the members of every object in its parameters in the order of
/// their keys.
pub open spec fn ordered_operation(op: OperationView) -> OperationView {
    OperationView {
        sql: op.sql,
        params: Seq::new(op.params.len(), |i: int| json::ordered(op.params[i])),
    }
}

/// A request with the members of every object in its parameters in the order of
/// their keys.
pub open spec fn ordered_request(r: RequestView) -> RequestView {
    RequestView {
        operations: Seq::new(r.operations.len(), |i: int| ordered_operation(r.operations[i])),
        ..r
    }
}

/// The response to a request that was committed.
pub open spec fn committed(request_id: Seq<char>, commit_seq: Option<i64>) -> ResponseView {
    ResponseView { request_id, status: WriteStatus::Committed, commit_seq, error: None }
}

/// The response to a request that failed.
pub open spec fn failed(request_id: Seq<char>, error: Seq<char>) -> ResponseView {
    ResponseView { request_id, status: WriteStatus::Failed, commit_seq: None, error: Some(error) }
}

impl WriteResponse {
    /// The response to a request that was committed.
    pub fn committed(request_id: String, commit_seq: Option<i64>) -> (r: Self)
        ensures
            r@ == committed(request_id@, commit_seq),
    {
        Self { request_id, status: WriteStatus::Committed, commit_seq, error: None }
    }

    /// The response to a request that failed and was rolled back.
    pub fn failed(request_id: String, error: String) -> (r: Self)
        ensures
            r@ == failed(request_id@, error@),
    {
        Self { request_id, status: WriteStatus::Failed, commit_seq: None, error: Some(error) }
    }
}

/// The JSON of one operation.
pub open spec fn operation_json(op: OperationView) -> JsonView {
    JsonView::Object(
        seq![("sql"@, JsonView::Text(op.sql)), ("params"@, JsonView::Array(op.params))],
    )
}

/// The JSON of a list of operations.
pub open spec fn operations_json(ops: Seq<OperationView>) -> JsonView {
    JsonView::Array(Seq::new(ops.len(), |i: int| operation_json(ops[i])))
}

/// What tells one request from another under the same idempotency key: the JSON
/// text of its operations.
pub open spec fn request_hash(ops: Seq<OperationView>) -> Seq<char> {
    json::json_text(operations_json(ops))
}

/// A copy of a list of JSON values.
pub(crate) fn clone_values(v: &Vec<Json>) -> (r: Vec<Json>)
    ensures
        values(r@) == values(v@),
{
    let mut out: Vec<Json> = Vec::new();
    let n = v.len();
    for i in 0..n
        invariant
            n == v@.len(),
            out@.len() == i,
            forall|k: int| 0 <= k < i ==> (#[trigger] out@[k])@ == v@[k]@,
    {
        out.push(v[i].clone());
    }
    assert(values(out@) =~= values(v@));
    out
}

fn operation_to_json(op: &SqlOperation) -> (r: Json)
    ensures
        r@ == operation_json(op@),
{
    let params = Json::Array(clone_values(&op.params));
    assert(params@->Array_0 =~= op@.params);
    proof {
        reveal_strlit("sql");
        reveal_strlit("params");
    }
    assert("sql"@.len() != "params"@.len());
    let r = json::object(vec![("sql", Json::Text(op.sql.clone())), ("params", params)]);
    assert(r@->Object_0 =~= operation_json(op@)->Object_0);
    r
}

/// The JSON of a list of operations.
pub(crate) fn operations_to_json(ops: &Vec<SqlOperation>) -> (r: Json)
    ensures
        r@ == operations_json(operation_views(ops@)),
{
    let mut out: Vec<Json> = Vec::new();
    let n = ops.len();
    for i in 0..n
        invariant
            n == ops@.len(),
            out@.len() == i,
            forall|k: int| 0 <= k < i ==> (#[trigger] out@[k])@ == operation_json(ops@[k]@),
    {
        out.push(operation_to_json(&ops[i]));
    }
    let all = Json::Array(out);
    assert(all@->Array_0 =~= operations_json(operation_views(ops@))->Array_0);
    all
}

/// Whether the text that tells operations apart was made of these.
pub open spec fn is_hashed(ops: Seq<OperationView>) -> bool {
    json::is_held(operations_json(ops)) && json::has_its_own_text(operations_json(ops))
}

/// Operations that differ are told apart.
pub proof fn different_operations_have_different_hashes(
    a: Seq<OperationView>,
    b: Seq<OperationView>,
)
    requires
        a != b,
        is_hashed(a),
        is_hashed(b),
    ensures
        request_hash(a) != request_hash(b),
{
    if request_hash(a) == request_hash(b) {
        let w = choose|w: serde_json::Value| #[trigger] json::value_view(w) == operations_json(b);
        assert(json::json_text(json::value_view(w)) == json::json_text(operations_json(a)));
        let x = operations_json(a)->Array_0;
        let y = operations_json(b)->Array_0;
        assert(x == y);
        assert(a.len() == x.len() && b.len() == y.len());
        assert forall|i: int| 0 <= i < a.len() implies a[i] == b[i] by {
            let p = operation_json(a[i])->Object_0;
            let q = operation_json(b[i])->Object_0;
            assert(x[i] == operation_json(a[i]) && y[i] == operation_json(b[i]));
            assert(p[0] == q[0] && p[1] == q[1]);
        }
        assert(a =~= b);
    }
}

/// Computes the text by which requests with the same idempotency key are told
/// apart.
pub fn hash_operations(ops: &Vec<SqlOperation>) -> (r: String)
    ensures
        r@ == request_hash(operation_views(ops@)),
        is_hashed(operation_views(ops@)),
{
    operations_to_json(ops).to_text()
}

/// The JSON of an optional text.
pub open spec fn opt_text_json(s: Option<Seq<char>>) -> JsonView {
    match s {
        Some(t) => JsonView::Text(t),
        None => JsonView::Null,
    }
}

/// The JSON of an optional integer.
pub open spec fn opt_int_json(i: Option<i64>) -> JsonView {
    match i {
        Some(n) => JsonView::Number(json::int_number(n)),
        None => JsonView::Null,
    }
}

/// The word for a status.
pub open spec fn status_text(s: WriteStatus) -> Seq<char> {
    match s {
        WriteStatus::Committed => "committed"@,
        WriteStatus::Failed => "failed"@,
    }
}

/// The JSON of a response.
pub open spec fn response_json(r: ResponseView) -> JsonView {
    JsonView::Object(
        seq![
            ("request_id"@, JsonView::Text(r.request_id)),
            ("status"@, JsonView::Text(status_text(r.status))),
            ("commit_seq"@, opt_int_json(r.commit_seq)),
            ("error"@, opt_text_json(r.error)),
        ],
    )
}

/// The status that a word stands for.
pub open spec fn status_of_text(s: Seq<char>) -> Option<WriteStatus> {
    if s == "committed"@ {
        Some(WriteStatus::Committed)
    } else if s == "failed"@ {
        Some(WriteStatus::Failed)
    } else {
        None
    }
}

/// The status that a JSON value stands for: its word, or an object that has the
/// word as its only key, with the value `null`.
pub open spec fn status_of(j: JsonView) -> Option<WriteStatus> {
    match j {
        JsonView::Text(s) => status_of_text(s),
        JsonView::Object(o) => if o.len() == 1 && o[0].1 is Null {
            status_of_text(o[0].0)
        } else {
            None
        },
        _ => None,
    }
}

/// The optional text that a JSON value stands for, if it stands for one.
pub open spec fn opt_text_of(j: JsonView) -> Option<Option<Seq<char>>> {
    match j {
        JsonView::Null => Some(None),
        JsonView::Text(s) => Some(Some(s)),
        _ => None,
    }
}

/// The optional integer that a JSON value stands for, if it stands for one.
pub open spec fn opt_int_of(j: JsonView) -> Option<Option<i64>> {
    match j {
        JsonView::Null => Some(None),
        JsonView::Number(n) => match json::int_value(n) {
            Some(i) => Some(Some(i)),
            None => None,
        },
        _ => None,
    }
}

/// The response with these four parts, if each stands for what it should.
pub open spec fn response_of_parts(
    request_id: JsonView,
    status: JsonView,
    commit_seq: JsonView,
    error: JsonView,
) -> Option<ResponseView> {
    match (request_id, status_of(status), opt_int_of(commit_seq), opt_text_of(error)) {
        (JsonView::Text(request_id), Some(status), Some(commit_seq), Some(error)) => Some(
            ResponseView { request_id, status, commit_seq, error },
        ),
        _ => None,
    }
}

/// The member `key`, or `null` if there is none.
pub open spec fn field_or_null(o: Seq<(Seq<char>, JsonView)>, key: Seq<char>) -> JsonView {
    match json::field(o, key) {
        Some(v) => v,
        None => JsonView::Null,
    }
}

/// The response that a JSON value stands for: an object with the parts as
/// members, or an array of the four parts.
pub open spec fn response_of(j: JsonView) -> Option<ResponseView> {
    match j {
        JsonView::Object(o) => response_of_parts(
            field_or_null(o, "request_id"@),
            field_or_null(o, "status"@),
            field_or_null(o, "commit_seq"@),
            field_or_null(o, "error"@),
        ),
        JsonView::Array(a) => if a.len() == 4 {
            response_of_parts(a[0], a[1], a[2], a[3])
        } else {
            None
        },
        _ => None,
    }
}

/// The response that a stored text stands for, if it stands for one.
pub open spec fn stored_response(s: Seq<char>) -> Option<ResponseView> {
    match json::json_read(s) {
        Ok(j) => response_of(j),
        Err(_) => None,
    }
}

fn status_from_text(s: &String) -> (r: Option<WriteStatus>)
    ensures
        r == status_of_text(s@),
{
    if same_text(s, "committed") {
        Some(WriteStatus::Committed)
    } else if same_text(s, "failed") {
        Some(WriteStatus::Failed)
    } else {
        None
    }
}

fn status_from_json(j: &Json) -> (r: Option<WriteStatus>)
    ensures
        r == status_of(j@),
{
    match j {
        Json::Text(s) => status_from_text(s),
        Json::Object(o) => {
            if o.len() == 1 {
                if let Json::Null = o.value_at(0) {
                    status_from_text(o.key_at(0))
                } else {
                    None
                }
            } else {
                None
            }
        },
        _ => None,
    }
}

fn response_from_parts(request_id: &Json, status: &Json, commit_seq: &Json, error: &Json) -> (r:
    Option<WriteResponse>)
    ensures
        match r {
            Some(w) => response_of_parts(request_id@, status@, commit_seq@, error@) == Some(w@),
            None => response_of_parts(request_id@, status@, commit_seq@, error@) is None,
        },
{
    let request_id = match request_id {
        Json::Text(s) => s.clone(),
        _ => return None,
    };
    let status = match status_from_json(status) {
        Some(s) => s,
        None => return None,
    };
    let commit_seq = match commit_seq {
        Json::Null => None,
        Json::Number(_) => match commit_seq.as_integer() {
            Some(i) => Some(i),
            None => return None,
        },
        _ => return None,
    };
    let error = match error {
        Json::Null => None,
        Json::Text(s) => Some(s.clone()),
        _ => return None,
    };
    Some(WriteResponse { request_id, status, commit_seq, error })
}

/// The member `key`, or `null` if there is none.
pub(crate) fn member_or_null(o: &JsonObject, key: &str) -> (r: Json)
    ensures
        r@ == field_or_null(o@, key@),
{
    match o.get(key) {
        Some(v) => v.clone(),
        None => Json::Null,
    }
}

/// Reads a response back from its JSON text. Of a member that stands there twice,
/// the last one counts.
pub fn read_response(s: &str) -> (r: Option<WriteResponse>)
    ensures
        match r {
            Some(w) => stored_response(s@) == Some(w@),
            None => stored_response(s@) is None,
        },
{
    match Json::parse(s) {
        Ok(Json::Object(o)) => {
            let request_id = member_or_null(&o, "request_id");
            let status = member_or_null(&o, "status");
            let commit_seq = member_or_null(&o, "commit_seq");
            let error = member_or_null(&o, "error");
            response_from_parts(&request_id, &status, &commit_seq, &error)
        },
        Ok(Json::Array(a)) => {
            if a.len() == 4 {
                response_from_parts(&a[0], &a[1], &a[2], &a[3])
            } else {
                None
            }
        },
        _ => None,
    }
}

/// The members of a response's JSON are found under their keys.
proof fn response_members(r: ResponseView)
    ensures
        ({
            let o = response_json(r)->Object_0;
            &&& field_or_null(o, "request_id"@) == JsonView::Text(r.request_id)
            &&& field_or_null(o, "status"@) == JsonView::Text(status_text(r.status))
            &&& field_or_null(o, "commit_seq"@) == opt_int_json(r.commit_seq)
            &&& field_or_null(o, "error"@) == opt_text_json(r.error)
            &&& json::distinct_keys(o)
        }),
{
    reveal_strlit("request_id");
    reveal_strlit("status");
    reveal_strlit("commit_seq");
    reveal_strlit("error");
    assert("request_id"@[0] != "commit_seq"@[0]);
    assert("request_id"@.len() == 10 && "status"@.len() == 6);
    assert("commit_seq"@.len() == 10 && "error"@.len() == 5);
    let o = response_json(r)->Object_0;
    reveal_with_fuel(json::field, 5);
    assert(o.drop_first()[0] == o[1]);
    assert(o.drop_first().drop_first()[0] == o[2]);
    assert(o.drop_first().drop_first().drop_first()[0] == o[3]);
}

/// Writes a response as JSON text, from which [`read_response`] reads the same
/// response.
pub fn write_response(w: &WriteResponse) -> (r: String)
    ensures
        r@ == json::json_text(response_json(w@)),
        stored_response(r@) == Some(w@),
{
    let status = match w.status {
        WriteStatus::Committed => Json::text("committed"),
        WriteStatus::Failed => Json::text("failed"),
    };
    let commit_seq = match w.commit_seq {
        Some(i) => Json::Number(json::number_from_int(i)),
        None => Json::Null,
    };
    let error = match &w.error {
        Some(e) => Json::Text(e.clone()),
        None => Json::Null,
    };
    let fields = vec![
        ("request_id", Json::Text(w.request_id.clone())),
        ("status", status),
        ("commit_seq", commit_seq),
        ("error", error),
    ];
    proof {
        response_members(w@);
        let o = response_json(w@)->Object_0;
        assert forall|i: int, j: int| 0 <= i < j < fields@.len() implies (#[trigger] fields@[i]).0@
            != (#[trigger] fields@[j]).0@ by {
            assert(o[i].0 == fields@[i].0@ && o[j].0 == fields@[j].0@);
        }
    }
    let j = json::object(fields);
    assert(j@->Object_0 =~= response_json(w@)->Object_0);
    proof {
        reveal_strlit("committed");
        reveal_strlit("failed");
        assert("committed"@.len() != "failed"@.len());
        assert(status_of_text(status_text(w.status)) == Some(w.status));
        let o = response_json(w@)->Object_0;
        json::field_of_ordered(o, "request_id"@);
        json::field_of_ordered(o, "status"@);
        json::field_of_ordered(o, "commit_seq"@);
        json::field_of_ordered(o, "error"@);
        assert(response_of(json::ordered(j@)) == Some(w@));
        assert(json::plain(j@, json::MAX_NESTING as nat)) by {
            reveal_with_fuel(json::plain, 3);
            json::token_begins_with_a_dollar();
            reveal_strlit("request_id");
            assert("request_id"@[0] == 'r');
        }
    }
    j.to_text()
}

} // verus!
