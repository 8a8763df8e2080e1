//! How JSON parameters become SQLite values.
use base64::prelude::Engine;
use vstd::prelude::*;

use crate::error::{joined, Error, ErrorView};
use crate::json;
use crate::json::{Json, JsonView};
use crate::request;
use crate::text::same_text;

verus! {

/// A value that is bound to a placeholder of a statement.
#[derive(Debug, Clone, PartialEq)]
pub enum SqlValue {
    Null,
    Integer(i64),
    /// A number that is not an integer of 64 bits. SQLite gets it as a floating
    /// point number.
    Real(serde_json::Number),
    Text(String),
    Blob(Vec<u8>),
}

/// An [`SqlValue`] as a mathematical value.
pub enum SqlView {
    Null,
    Integer(i64),
    Real(serde_json::Number),
    Text(Seq<char>),
    Blob(Seq<u8>),
}

impl View for SqlValue {
    type V = SqlView;

    open spec fn view(&self) -> SqlView {
        match *self {
            SqlValue::Null => SqlView::Null,
            SqlValue::Integer(i) => SqlView::Integer(i),
            SqlValue::Real(n) => SqlView::Real(n),
            SqlValue::Text(s) => SqlView::Text(s@),
            SqlValue::Blob(b) => SqlView::Blob(b@),
        }
    }
}

/// The values of a list of bound values.
pub open spec fn sql_values(v: Seq<SqlValue>) -> Seq<SqlView> {
    Seq::new(v.len(), |i: int| v[i]@)
}

/// What standard base64 with padding decodes to: bytes, or the text of the
/// error.
pub uninterp spec fn base64_bytes(s: Seq<char>) -> Result<Seq<u8>, Seq<char>>;

/// Bytes in standard base64 with padding.
pub uninterp spec fn base64_text(b: Seq<u8>) -> Seq<char>;

/// The result of decoding, as mathematical values.
pub open spec fn decoded_view(r: Result<Vec<u8>, String>) -> Result<Seq<u8>, Seq<char>> {
    match r {
        Ok(b) => Ok(b@),
        Err(e) => Err(e@),
    }
}

/// Whether `s` decodes to `b`.
pub open spec fn decodes_to(s: Seq<char>, b: Seq<u8>) -> bool {
    base64_bytes(s) == Ok::<Seq<u8>, Seq<char>>(b)
}

/// `BASE64_STANDARD.decode`, with its error as text.
#[verifier::external_body]
fn base64_decode(s: &str) -> (r: Result<Vec<u8>, String>)
    ensures
        decoded_view(r) == base64_bytes(s@),
{
    base64::prelude::BASE64_STANDARD.decode(s).map_err(|e| e.to_string())
}

/// `BASE64_STANDARD.encode`. Decoding gives the bytes back.
#[verifier::external_body]
fn base64_encode(b: &[u8]) -> (r: String)
    ensures
        r@ == base64_text(b@),
        decodes_to(r@, b@),
{
    base64::prelude::BASE64_STANDARD.encode(b)
}

/// The base64 text in a JSON object that stands for bytes: an object whose only
/// member is `$blob`, with a string as its value.
pub open spec fn blob_text(j: JsonView) -> Option<Seq<char>> {
    match j {
        JsonView::Object(o) => if o.len() == 1 && o[0].0 == "$blob"@ {
            match o[0].1 {
                JsonView::Text(s) => Some(s),
                _ => None,
            }
        } else {
            None
        },
        _ => None,
    }
}

/// The SQLite value of a JSON parameter.
///
/// Arrays and objects are stored as their JSON text, except the object that
/// stands for bytes.
pub open spec fn sql_value_of(j: JsonView) -> Result<SqlView, ErrorView> {
    match j {
        JsonView::Null => Ok(SqlView::Null),
        JsonView::Bool(b) => Ok(SqlView::Integer(if b { 1 } else { 0 })),
        JsonView::Number(n) => match json::int_value(n) {
            Some(i) => Ok(SqlView::Integer(i)),
            None => Ok(SqlView::Real(n)),
        },
        JsonView::Text(s) => Ok(SqlView::Text(s)),
        JsonView::Array(_) => Ok(SqlView::Text(json::json_text(j))),
        JsonView::Object(_) => match blob_text(j) {
            Some(s) => match base64_bytes(s) {
                Ok(b) => Ok(SqlView::Blob(b)),
                Err(e) => Err(ErrorView::InvalidParam("$blob base64 decode failed: "@ + e)),
            },
            None => Ok(SqlView::Text(json::json_text(j))),
        },
    }
}

/// The SQLite values of a statement's parameters, or the error of the first
/// parameter that has none.
pub open spec fn sql_values_of(params: Seq<JsonView>) -> Result<Seq<SqlView>, ErrorView>
    decreases params.len(),
{
    if params.len() == 0 {
        Ok(Seq::empty())
    } else {
        match sql_values_of(params.drop_last()) {
            Ok(head) => match sql_value_of(params.last()) {
                Ok(v) => Ok(head.push(v)),
                Err(e) => Err(e),
            },
            Err(e) => Err(e),
        }
    }
}

/// Converts a JSON parameter to the SQLite value that is bound for it.
pub fn json_to_sqlite(v: &Json) -> (r: Result<SqlValue, Error>)
    ensures
        match r {
            Ok(x) => sql_value_of(v@) == Ok::<SqlView, ErrorView>(x@),
            Err(e) => sql_value_of(v@) == Err::<SqlView, ErrorView>(e@),
        },
{
    match v {
        Json::Null => Ok(SqlValue::Null),
        Json::Bool(b) => {
            let i: i64 = if *b {
                1
            } else {
                0
            };
            Ok(SqlValue::Integer(i))
        },
        Json::Number(n) => {
            match v.as_integer() {
                Some(i) => Ok(SqlValue::Integer(i)),
                None => Ok(SqlValue::Real(n.clone())),
            }
        },
        Json::Text(s) => Ok(SqlValue::Text(s.clone())),
        Json::Array(_) => Ok(SqlValue::Text(v.to_text())),
        Json::Object(o) => {
            if o.len() == 1 && same_text(o.key_at(0), "$blob") {
                if let Json::Text(s) = o.value_at(0) {
                    return match base64_decode(s) {
                        Ok(b) => Ok(SqlValue::Blob(b)),
                        Err(e) => Err(Error::InvalidParam(joined("$blob base64 decode failed: ", &e))),
                    };
                }
            }
            Ok(SqlValue::Text(v.to_text()))
        },
    }
}

/// Converts the parameters of a statement, in order, and stops at the first
/// that has no SQLite value.
pub fn params_from(params: &Vec<Json>) -> (r: Result<Vec<SqlValue>, Error>)
    ensures
        match r {
            Ok(x) => sql_values_of(request::values(params@)) == Ok::<Seq<SqlView>, ErrorView>(
                sql_values(x@),
            ),
            Err(e) => sql_values_of(request::values(params@)) == Err::<Seq<SqlView>, ErrorView>(e@),
        },
{
    let ghost all = request::values(params@);
    let mut out: Vec<SqlValue> = Vec::new();
    let n = params.len();
    assert(sql_values(out@) =~= Seq::empty());
    assert(all.take(0) =~= Seq::empty());
    for i in 0..n
        invariant
            n == params@.len(),
            all == request::values(params@),
            sql_values_of(all.take(i as int)) == Ok::<Seq<SqlView>, ErrorView>(sql_values(out@)),
    {
        let ghost before = sql_values(out@);
        assert(all.take(i + 1).drop_last() =~= all.take(i as int));
        match json_to_sqlite(&params[i]) {
            Ok(x) => {
                out.push(x);
                assert(sql_values(out@) =~= before.push(x@));
            },
            Err(e) => {
                proof {
                    first_error_is_kept(all, i + 1);
                }
                return Err(e);
            },
        }
    }
    assert(all.take(n as int) =~= all);
    Ok(out)
}

/// Once a parameter has no SQLite value, those after it do not matter.
proof fn first_error_is_kept(params: Seq<JsonView>, i: int)
    requires
        0 <= i <= params.len(),
        sql_values_of(params.take(i)) is Err,
    ensures
        sql_values_of(params) == sql_values_of(params.take(i)),
    decreases params.len() - i,
{
    if i < params.len() {
        assert(params.take(i + 1).drop_last() =~= params.take(i));
        first_error_is_kept(params, i + 1);
    } else {
        assert(params.take(i) =~= params);
    }
}

/// The JSON object that stands for bytes. As a parameter it is bound as exactly
/// these bytes.
pub fn blob(data: &[u8]) -> (r: Json)
    ensures
        r@ == JsonView::Object(seq![("$blob"@, JsonView::Text(base64_text(data@)))]),
        sql_value_of(r@) == Ok::<SqlView, ErrorView>(SqlView::Blob(data@)),
{
    let r = json::object(vec![("$blob", Json::Text(base64_encode(data)))]);
    assert(r@->Object_0 =~= seq![("$blob"@, JsonView::Text(base64_text(data@)))]);
    r
}

} // verus!
