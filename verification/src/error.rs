//! The errors of the gateway.
use vstd::prelude::*;

verus! {

/// What can go wrong in the gateway or between it and a client.
///
/// The text of an error of SQLite or of the JSON parser is kept as it was
/// reported.
#[derive(Debug, Clone, PartialEq, Eq)]
pub enum Error {
    /// SQLite reported an error.
    Sqlite(String),
    /// A text is not the JSON that was expected.
    Json(String),
    /// The internal tables could not be created.
    Migration(String),
    /// A statement was refused before execution.
    SqlRejected(String),
    /// The writer has stopped.
    GatewayClosed,
    /// The request queue was full, for as long as the overflow policy allows.
    GatewayOverloaded,
    /// The idempotency key belongs to a request with other operations.
    IdempotencyConflict(String),
    /// A parameter has no SQLite value.
    InvalidParam(String),
    /// A socket could not be opened, read or written.
    Io(String),
    /// A reply of the gateway is not what the protocol says.
    Protocol(String),
}

/// An [`Error`] with its text as a sequence of characters.
#[verifier::ext_equal]
pub enum ErrorView {
    Sqlite(Seq<char>),
    Json(Seq<char>),
    Migration(Seq<char>),
    SqlRejected(Seq<char>),
    GatewayClosed,
    GatewayOverloaded,
    IdempotencyConflict(Seq<char>),
    InvalidParam(Seq<char>),
    Io(Seq<char>),
    Protocol(Seq<char>),
}

impl View for Error {
    type V = ErrorView;

    open spec fn view(&self) -> ErrorView {
        match *self {
            Error::Sqlite(s) => ErrorView::Sqlite(s@),
            Error::Json(s) => ErrorView::Json(s@),
            Error::Migration(s) => ErrorView::Migration(s@),
            Error::SqlRejected(s) => ErrorView::SqlRejected(s@),
            Error::GatewayClosed => ErrorView::GatewayClosed,
            Error::GatewayOverloaded => ErrorView::GatewayOverloaded,
            Error::IdempotencyConflict(s) => ErrorView::IdempotencyConflict(s@),
            Error::InvalidParam(s) => ErrorView::InvalidParam(s@),
            Error::Io(s) => ErrorView::Io(s@),
            Error::Protocol(s) => ErrorView::Protocol(s@),
        }
    }
}

/// How an error reads to a person.
pub open spec fn error_text(e: ErrorView) -> Seq<char> {
    match e {
        ErrorView::Sqlite(s) => "sqlite error: "@ + s,
        ErrorView::Json(s) => "json error: "@ + s,
        ErrorView::Migration(s) => "migration error: "@ + s,
        ErrorView::SqlRejected(s) => "sql rejected: "@ + s,
        ErrorView::GatewayClosed => "gateway is closed"@,
        ErrorView::GatewayOverloaded => "gateway overloaded"@,
        ErrorView::IdempotencyConflict(s) => "idempotency conflict: key '"@ + s
            + "' already used with a different request hash"@,
        ErrorView::InvalidParam(s) => "invalid parameter: "@ + s,
        ErrorView::Io(s) => "io error: "@ + s,
        ErrorView::Protocol(s) => "protocol error: "@ + s,
    }
}

/// `head` followed by `tail`.
pub(crate) fn joined(head: &str, tail: &str) -> (r: String)
    ensures
        r@ == head@ + tail@,
{
    let mut out = head.to_owned();
    out.append(tail);
    out
}

impl Error {
    /// The text that describes the error to a person.
    pub fn message(&self) -> (r: String)
        ensures
            r@ == error_text(self@),
    {
        match self {
            Error::Sqlite(s) => joined("sqlite error: ", s),
            Error::Json(s) => joined("json error: ", s),
            Error::Migration(s) => joined("migration error: ", s),
            Error::SqlRejected(s) => joined("sql rejected: ", s),
            Error::GatewayClosed => "gateway is closed".to_owned(),
            Error::GatewayOverloaded => "gateway overloaded".to_owned(),
            Error::IdempotencyConflict(s) => joined(
                &joined("idempotency conflict: key '", s),
                "' already used with a different request hash",
            ),
            Error::InvalidParam(s) => joined("invalid parameter: ", s),
            Error::Io(s) => joined("io error: ", s),
            Error::Protocol(s) => joined("protocol error: ", s),
        }
    }
}

} // verus!
