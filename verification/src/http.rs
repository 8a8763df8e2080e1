//! What the HTTP endpoints decide and answer.
use vstd::prelude::*;

use crate::json;
use crate::json::{Json, JsonView};
use crate::jsonrpc;
use crate::jsonrpc::JsonRpcError;
use crate::text;
use crate::text::{same_text, strip_prefix};

verus! {

/// The status of an answer: all is well.
pub const STATUS_OK: u16 = 200;

/// The status of an answer: the caller has to present the token.
pub const STATUS_UNAUTHORIZED: u16 = 401;

/// The code of an error that is not the caller's.
pub const ERR_INTERNAL: i64 = -32603;

/// Whether a call is allowed: no token is asked for, or the header is `Bearer`,
/// one space and the token.
pub open spec fn is_allowed(expected: Option<Seq<char>>, header: Option<Seq<char>>) -> bool {
    match (expected, header) {
        (None, _) => true,
        (Some(token), Some(h)) => text::after_prefix(h, "Bearer "@) == Some(token),
        (Some(_), None) => false,
    }
}

/// Decides whether a call is allowed.
pub fn authorized(expected: Option<&str>, header: Option<&str>) -> (r: bool)
    ensures
        r == is_allowed(text::opt_str(expected), text::opt_str(header)),
{
    let token = match expected {
        None => {
            return true;
        },
        Some(token) => token,
    };
    match header {
        Some(h) => match strip_prefix(h, "Bearer ") {
            Some(given) => same_text(&given, token),
            None => false,
        },
        None => false,
    }
}

/// The header that a caller sends to present a token is accepted for that token,
/// and for no other.
pub proof fn bearer_header_fits_its_token_only(token: Seq<char>, other: Seq<char>)
    ensures
        is_allowed(Some(token), Some("Bearer "@ + token)),
        other != token ==> !is_allowed(Some(other), Some("Bearer "@ + token)),
{
    let header = "Bearer "@ + token;
    assert("Bearer "@ =~= header.subrange(0, "Bearer "@.len() as int));
    assert(header.skip("Bearer "@.len() as int) =~= token);
}

/// `str::from_utf8`: the text that the bytes encode, if they are valid UTF-8.
#[verifier::external_body]
fn from_utf8(bytes: &[u8]) -> (r: Option<&str>)
    ensures
        match r {
            Some(s) => vstd::utf8::valid_utf8(bytes@) && s@ == vstd::utf8::decode_utf8(bytes@),
            None => !vstd::utf8::valid_utf8(bytes@),
        },
{
    std::str::from_utf8(bytes).ok()
}

/// What is done with a call of the RPC endpoint.
pub enum Screened<'a> {
    /// It is answered with this status and body.
    Answer { status: u16, body: Json },
    /// Its body is a line to be dispatched.
    Dispatch(&'a str),
}

/// A [`Screened`] as a mathematical value.
pub enum ScreenedView {
    Answer { status: u16, body: JsonView },
    Dispatch(Seq<char>),
}

impl<'a> View for Screened<'a> {
    type V = ScreenedView;

    open spec fn view(&self) -> ScreenedView {
        match *self {
            Screened::Answer { status, body } => ScreenedView::Answer { status, body: body@ },
            Screened::Dispatch(line) => ScreenedView::Dispatch(line@),
        }
    }
}

/// The body that asks for the token.
pub open spec fn unauthorized_body() -> JsonView {
    JsonView::Object(seq![("error"@, JsonView::Text("unauthorized"@))])
}

/// What is done with a call of the RPC endpoint: without the token it is refused,
/// and a body that is not UTF-8 is answered as a text that cannot be parsed.
pub open spec fn screening(
    expected: Option<Seq<char>>,
    header: Option<Seq<char>>,
    body: Seq<u8>,
) -> ScreenedView {
    if !is_allowed(expected, header) {
        ScreenedView::Answer { status: STATUS_UNAUTHORIZED, body: unauthorized_body() }
    } else if !vstd::utf8::valid_utf8(body) {
        ScreenedView::Answer {
            status: STATUS_OK,
            body: jsonrpc::err_envelope(
                JsonView::Null,
                jsonrpc::ERR_PARSE_ERROR,
                "request body is not valid UTF-8"@,
                None,
            ),
        }
    } else {
        ScreenedView::Dispatch(vstd::utf8::decode_utf8(body))
    }
}

/// Decides what is done with a call of the RPC endpoint.
pub fn screen<'a>(expected: Option<&str>, header: Option<&str>, body: &'a [u8]) -> (r: Screened<'a>)
    ensures
        r@ == screening(text::opt_str(expected), text::opt_str(header), body@),
{
    if !authorized(expected, header) {
        let answer = json::object(vec![("error", Json::text("unauthorized"))]);
        assert(answer@->Object_0 =~= unauthorized_body()->Object_0);
        return Screened::Answer { status: STATUS_UNAUTHORIZED, body: answer };
    }
    match from_utf8(body) {
        Some(line) => Screened::Dispatch(line),
        None => Screened::Answer {
            status: STATUS_OK,
            body: JsonRpcError::new(
                Json::Null,
                jsonrpc::ERR_PARSE_ERROR,
                "request body is not valid UTF-8".to_owned(),
            ).into_json(),
        },
    }
}

/// The body that carries an answer: the JSON that its text holds.
pub open spec fn answer_body(reply: Seq<char>) -> JsonView {
    match json::json_read(reply) {
        Ok(j) => j,
        Err(_) => jsonrpc::err_envelope(JsonView::Null, ERR_INTERNAL, "internal error"@, None),
    }
}

/// The body that carries an answer.
pub fn reply_body(reply: &str) -> (r: Json)
    ensures
        r@ == answer_body(reply@),
{
    match Json::parse(reply) {
        Ok(j) => j,
        Err(_) => JsonRpcError::new(
            Json::Null,
            ERR_INTERNAL,
            "internal error".to_owned(),
        ).into_json(),
    }
}

/// An HTTP call gets the same answer that a line on the socket gets: the body holds
/// the answer whose text is sent there, with its members in the order of their keys.
pub proof fn both_transports_carry_the_same_answer(reply: Seq<char>, answer: JsonView)
    requires
        json::reads_as(reply, answer),
    ensures
        answer_body(reply) == json::ordered(answer),
{
}

/// The body of the answer to a health check, which needs no token.
pub fn health_body() -> (r: Json)
    ensures
        r@ == jsonrpc::status_ok(),
{
    jsonrpc::ok_status()
}

} // verus!
