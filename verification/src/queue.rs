//! What the writer does with the commands that it takes from its queue.
//!
//! The loop around it waits for a command, lets a [`Drain`] collect those that
//! can be committed with it, and hands what was collected to the writer.
use vstd::prelude::*;

use crate::config::GatewayConfig;
use crate::error::Error;
use crate::request::{WriteRequest, WriteResponse};
use crate::writer;
use crate::writer::Writer;

verus! {

/// A command to the writer. `W` is where the response to a write goes, `C` where
/// the result of a checkpoint goes.
#[derive(Debug)]
pub enum Command<W, C> {
    /// Execute a request.
    Write { request: WriteRequest, respond_to: W },
    /// Stop.
    Shutdown,
    /// Move the write-ahead log to the database file.
    Checkpoint { report_to: C },
}

/// Commands that were taken from the queue to be handled together: requests, and
/// perhaps one command that ends the collecting and is handled after them.
pub struct Drain<W, C> {
    batch: Vec<(WriteRequest, W)>,
    deferred: Option<Command<W, C>>,
    limit: usize,
    open: bool,
}

/// Whether a command is a request with a single operation, which may share a
/// transaction with others.
pub open spec fn may_share<W, C>(c: Command<W, C>) -> bool {
    c matches Command::Write { request, .. } && request.operations@.len() == 1
}

/// The requests of a batch as commands.
pub open spec fn as_commands<W, C>(batch: Seq<(WriteRequest, W)>) -> Seq<Command<W, C>> {
    Seq::new(
        batch.len(),
        |i: int| Command::Write { request: batch[i].0, respond_to: batch[i].1 },
    )
}

/// The commands in an optional command.
pub open spec fn as_seq<W, C>(c: Option<Command<W, C>>) -> Seq<Command<W, C>> {
    match c {
        Some(x) => seq![x],
        None => Seq::empty(),
    }
}

/// How many requests a transaction may hold that begins with the command `c`.
pub open spec fn batch_limit<W, C>(c: Command<W, C>, config: GatewayConfig) -> nat {
    match config.batch {
        Some(b) if may_share(c) => b.max_size as nat,
        _ => 1,
    }
}

impl<W, C> Drain<W, C> {
    /// What holds of every drain: it takes more only while nothing has ended the
    /// collecting, and requests that share a transaction have one operation
    /// each.
    #[verifier::type_invariant]
    spec fn is_consistent(self) -> bool {
        &&& self.open ==> self.deferred is None && self.batch@.len() < self.limit
        &&& self.batch@.len() > 1 ==> self.batch@.len() <= self.limit
        &&& self.open || self.batch@.len() > 1 ==> forall|i: int|
            0 <= i < self.batch@.len() ==> (#[trigger] self.batch@[i]).0.operations@.len() == 1
    }

    /// The requests that are handled together.
    pub closed spec fn requests(&self) -> Seq<(WriteRequest, W)> {
        self.batch@
    }

    /// The command that is handled after them.
    pub closed spec fn after(&self) -> Option<Command<W, C>> {
        self.deferred
    }

    /// Whether more is taken from the queue.
    pub closed spec fn is_open(&self) -> bool {
        self.open
    }

    /// The most requests that are handled together.
    pub closed spec fn most(&self) -> nat {
        self.limit as nat
    }

    /// All commands that were taken, in order.
    pub open spec fn taken(&self) -> Seq<Command<W, C>> {
        as_commands::<W, C>(self.requests()) + as_seq(self.after())
    }

    /// Begins with one command. More is taken only if it is a request with a
    /// single operation and requests are committed together.
    pub fn start(first: Command<W, C>, config: &GatewayConfig) -> (r: Self)
        ensures
            r.taken() == seq![first],
            r.most() == batch_limit(first, *config),
            r.is_open() == (1 < batch_limit(first, *config)),
            r.after() is None <==> first is Write,
    {
        match first {
            Command::Write { request, respond_to } => {
                let limit: usize = match &config.batch {
                    Some(b) => if request.operations.len() == 1 {
                        b.max_size
                    } else {
                        1
                    },
                    None => 1,
                };
                let batch = vec![(request, respond_to)];
                let r = Drain { batch, deferred: None, limit, open: limit > 1 };
                assert(r.taken() =~= seq![first]);
                r
            },
            other => {
                let r = Drain { batch: Vec::new(), deferred: Some(other), limit: 1, open: false };
                assert(r.taken() =~= seq![first]);
                r
            },
        }
    }

    /// Whether the next command is to be taken from the queue.
    pub fn wants_more(&self) -> (r: bool)
        ensures
            r == self.is_open(),
    {
        self.open
    }

    /// Takes the next command, or `None` where the queue is empty. A request with
    /// a single operation joins the others. Any other command ends the
    /// collecting, and so does an empty queue or a full batch.
    pub fn offer(self, next: Option<Command<W, C>>) -> (r: Self)
        requires
            self.is_open(),
        ensures
            r.taken() == self.taken() + as_seq(next),
            r.most() == self.most(),
            match next {
                Some(c) => if may_share(c) {
                    r.after() is None && r.is_open() == (r.requests().len() < r.most())
                } else {
                    r.after() == next && !r.is_open()
                },
                None => r.after() is None && !r.is_open(),
            },
    {
        proof {
            use_type_invariant(&self);
        }
        let Drain { batch, deferred: _, limit, open: _ } = self;
        match next {
            Some(Command::Write { request, respond_to }) => {
                if request.operations.len() == 1 {
                    let mut batch = batch;
                    batch.push((request, respond_to));
                    let open = batch.len() < limit;
                    let r = Drain { batch, deferred: None, limit, open };
                    assert(r.taken() =~= self.taken() + as_seq(next));
                    r
                } else {
                    let deferred = Some(Command::Write { request, respond_to });
                    let r = Drain { batch, deferred, limit, open: false };
                    assert(r.taken() =~= self.taken() + as_seq(next));
                    r
                }
            },
            Some(other) => {
                let r = Drain { batch, deferred: Some(other), limit, open: false };
                assert(r.taken() =~= self.taken() + as_seq(next));
                r
            },
            None => {
                let r = Drain { batch, deferred: None, limit, open: false };
                assert(r.taken() =~= self.taken() + as_seq(next));
                r
            },
        }
    }

    /// The requests to be handled together, and the command after them.
    /// Requests that share a transaction have one operation each, and there are
    /// no more of them than allowed.
    pub fn finish(self) -> (r: (Vec<(WriteRequest, W)>, Option<Command<W, C>>))
        ensures
            r.0@ == self.requests(),
            r.1 == self.after(),
            as_commands::<W, C>(r.0@) + as_seq(r.1) == self.taken(),
            r.0@.len() > 1 ==> r.0@.len() <= self.most(),
            r.0@.len() > 1 ==> forall|i: int|
                0 <= i < r.0@.len() ==> (#[trigger] r.0@[i]).0.operations@.len() == 1,
    {
        proof {
            use_type_invariant(&self);
        }
        (self.batch, self.deferred)
    }
}

/// What came of a command that was handled on its own.
#[derive(Debug)]
pub enum Performed<W, C> {
    /// A request was executed.
    Replied(W, WriteResponse),
    /// The write-ahead log was moved to the database file, or could not be.
    Checkpointed(C, Result<(), Error>),
    /// The writer is to stop.
    Stop,
}

impl Writer {
    /// Executes requests that were collected: one in a transaction of its own,
    /// several in one transaction. Each response goes with what was given beside
    /// its request, in the same order.
    pub fn commit_together<T>(&mut self, batch: Vec<(WriteRequest, T)>) -> (r: Vec<
        (T, WriteResponse),
    >)
        ensures
            writer::addressed(batch@, r@),
            batch@.len() == 0 ==> *final(self) == *old(self),
            batch@.len() == 1 ==> writer::applied(
                *old(self),
                *final(self),
                batch@[0].0@,
                r@[0].1@,
            ),
            batch@.len() > 1 ==> writer::batch_applied(
                *old(self),
                *final(self),
                writer::batch_requests(batch@),
                writer::batch_responses(r@),
            ),
    {
        if batch.len() > 1 {
            return self.apply_batch(batch);
        }
        let mut batch = batch;
        let mut out: Vec<(T, WriteResponse)> = Vec::new();
        if let Some((request, respond_to)) = batch.pop() {
            let response = self.apply(request);
            out.push((respond_to, response));
        }
        out
    }

    /// Handles one command on its own.
    pub fn perform<W, C>(&mut self, command: Command<W, C>) -> (r: Performed<W, C>)
        ensures
            match (command, r) {
                (Command::Write { request, respond_to }, Performed::Replied(to, response)) => to
                    == respond_to && writer::applied(
                    *old(self),
                    *final(self),
                    request@,
                    response@,
                ),
                (Command::Checkpoint { report_to }, Performed::Checkpointed(to, result)) => to
                    == report_to && writer::checkpointed(*old(self), *final(self), result),
                (Command::Shutdown, Performed::Stop) => *final(self) == *old(self),
                _ => false,
            },
    {
        match command {
            Command::Write { request, respond_to } => {
                let response = self.apply(request);
                Performed::Replied(respond_to, response)
            },
            Command::Checkpoint { report_to } => {
                let result = self.checkpoint();
                Performed::Checkpointed(report_to, result)
            },
            Command::Shutdown => Performed::Stop,
        }
    }
}

} // verus!
