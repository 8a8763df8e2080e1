//! Lines on a connection of the Unix domain socket.
use vstd::prelude::*;

use crate::client::frame_line;
use crate::error::joined;
use crate::json::{Json, JsonView};
use crate::jsonrpc;
use crate::jsonrpc::{err_json, MAX_LINE_BYTES};
use crate::text;
use crate::text::{decimal_text, without_line_end};

verus! {

/// What is done with what was read up to a line feed or the end of the input.
#[derive(Debug)]
pub enum Received {
    /// It is a line to be dispatched.
    Line(String),
    /// It is too long: this is sent, and the connection is closed.
    TooLong(String),
}

/// Why a line is too long, of which `bytes` bytes were read.
pub open spec fn too_long(bytes: nat) -> Seq<char> {
    "line too long: "@ + text::decimal(bytes) + " bytes exceeds limit ("@ + text::decimal(
        MAX_LINE_BYTES as nat,
    ) + " bytes)"@
}

/// The bytes of what was read, without the line feed at its end.
pub open spec fn payload_bytes(buf: Seq<char>) -> usize {
    vstd::utf8::encode_utf8(text::trim_line_end(buf)).len() as usize
}

/// Decides what is done with what was read. A line is too long if it has more bytes
/// than a line may hold; the line feed at its end does not count.
pub fn receive(buf: &str) -> (r: Received)
    ensures
        match r {
            Received::Line(line) => payload_bytes(buf@) <= MAX_LINE_BYTES && line@
                == text::trim_line_end(buf@),
            Received::TooLong(answer) => payload_bytes(buf@) > MAX_LINE_BYTES && answer@
                == jsonrpc::err_text(
                JsonView::Null,
                jsonrpc::ERR_INVALID_REQUEST,
                too_long(buf.len() as nat),
            ).push('\n'),
        },
        r is TooLong <==> 1048576 < vstd::utf8::encode_utf8(text::trim_line_end(buf@)).len() as usize,
{
    let line = without_line_end(buf);
    if line.as_str().len() <= MAX_LINE_BYTES {
        return Received::Line(line);
    }
    let read = decimal_text(buf.len() as u64);
    let limit = decimal_text(MAX_LINE_BYTES as u64);
    let head = joined(&joined("line too long: ", &read), " bytes exceeds limit (");
    let why = joined(&joined(&head, &limit), " bytes)");
    Received::TooLong(frame_line(&err_json(Json::Null, jsonrpc::ERR_INVALID_REQUEST, why)))
}

} // verus!
