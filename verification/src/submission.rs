//! What becomes of a request on its way to the writer.
use vstd::prelude::*;

use crate::error::{Error, ErrorView};
use crate::jsonrpc;
use crate::request::{ResponseView, WriteResponse};

verus! {

/// What came of handing a command to the writer's queue.
#[derive(Debug, Clone, Copy, PartialEq, Eq, Structural)]
pub enum Handover {
    /// The queue took it.
    Taken,
    /// The queue was full, and it was not to wait.
    Full,
    /// The queue was full for as long as it was to wait.
    TimedOut,
    /// The writer has stopped.
    Closed,
}

/// Why a command did not reach the writer, if it did not.
pub open spec fn obstacle(h: Handover) -> Option<ErrorView> {
    match h {
        Handover::Taken => None,
        Handover::Full => Some(ErrorView::GatewayOverloaded),
        Handover::TimedOut => Some(ErrorView::GatewayOverloaded),
        Handover::Closed => Some(ErrorView::GatewayClosed),
    }
}

/// Whether a command reached the writer, and why not.
pub fn check_handover(h: Handover) -> (r: Result<(), Error>)
    ensures
        match r {
            Ok(_) => obstacle(h) is None,
            Err(e) => obstacle(h) == Some(e@),
        },
{
    match h {
        Handover::Taken => Ok(()),
        Handover::Full => Err(Error::GatewayOverloaded),
        Handover::TimedOut => Err(Error::GatewayOverloaded),
        Handover::Closed => Err(Error::GatewayClosed),
    }
}

/// What the sender of a request learns: the writer's response, or why there is
/// none. A writer that stops does not respond.
pub open spec fn outcome(h: Handover, response: Option<ResponseView>) -> Result<
    ResponseView,
    ErrorView,
> {
    match (obstacle(h), response) {
        (Some(e), _) => Err(e),
        (None, Some(r)) => Ok(r),
        (None, None) => Err(ErrorView::GatewayClosed),
    }
}

/// The value of an optional response.
pub open spec fn opt_response(r: Option<WriteResponse>) -> Option<ResponseView> {
    match r {
        Some(x) => Some(x@),
        None => None,
    }
}

/// Tells the sender of a request what became of it.
pub fn conclude(h: Handover, response: Option<WriteResponse>) -> (r: Result<WriteResponse, Error>)
    ensures
        jsonrpc::result_view(r) == outcome(h, opt_response(response)),
{
    match check_handover(h) {
        Err(e) => Err(e),
        Ok(_) => match response {
            Some(x) => Ok(x),
            None => Err(Error::GatewayClosed),
        },
    }
}

/// How many commands wait in a queue of which `free` places out of `capacity` are
/// free.
pub fn queue_depth(capacity: usize, free: usize) -> (r: usize)
    requires
        free <= capacity,
    ensures
        r == capacity - free,
        r + free == capacity,
{
    capacity - free
}

/// A request that the queue does not take is answered as rejected, and counted so,
/// whatever the reason.
pub proof fn obstacle_is_a_rejection(
    h: Handover,
    response: Option<ResponseView>,
    id: crate::json::JsonView,
    stats: crate::stats::Stats,
)
    requires
        h !is Taken,
    ensures
        jsonrpc::execute_reply(id, outcome(h, response)) == jsonrpc::err_envelope(
            id,
            jsonrpc::ERR_GATEWAY_OVERLOADED,
            "gateway overloaded"@,
            None,
        ),
        jsonrpc::counted(stats, outcome(h, response)) == (crate::stats::Stats {
            rejected: stats.rejected.wrapping_add(1),
            ..stats
        }),
{
}

} // verus!
