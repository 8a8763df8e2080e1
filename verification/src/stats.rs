//! Counters of what became of requests, and the snapshot that is reported.
use vstd::prelude::*;

use crate::error::joined;
use crate::json;
use crate::json::{Json, JsonView};
use crate::laws;
use crate::text::same_text;

verus! {

/// What became of the requests of clients so far. The counters wrap around.
#[derive(Debug, Clone, Copy, PartialEq, Eq, Structural)]
pub struct Stats {
    /// Requests that were handed to the writer's queue.
    pub accepted: u64,
    /// Requests that were committed.
    pub committed: u64,
    /// Requests that failed.
    pub failed: u64,
    /// Requests that the queue did not take.
    pub rejected: u64,
}

/// The counters at one moment, with the state of the queue and of the log.
#[derive(Debug, Clone)]
pub struct StatsSnapshot {
    /// Requests that were handed to the writer's queue.
    pub accepted: u64,
    /// Requests that were committed.
    pub committed: u64,
    /// Requests that failed.
    pub failed: u64,
    /// Requests that the queue did not take.
    pub rejected: u64,
    /// Requests that wait in the queue.
    pub queue_depth: usize,
    /// How many requests the queue holds at most.
    pub queue_capacity: usize,
    /// The size of the write-ahead log in bytes, if there is one.
    pub current_wal_size_bytes: Option<u64>,
    /// How long a commit took on average, in microseconds.
    pub avg_commit_latency: serde_json::Number,
    /// The 95th percentile of the times that commits took, in microseconds.
    pub p95_commit_latency: u64,
}

impl Stats {
    /// Counters that stand at zero.
    pub fn new() -> (r: Self)
        ensures
            r == (Stats { accepted: 0, committed: 0, failed: 0, rejected: 0 }),
    {
        Stats { accepted: 0, committed: 0, failed: 0, rejected: 0 }
    }

    /// Counts a request that is handed to the queue.
    pub fn count_accepted(&mut self)
        ensures
            *final(self) == (Stats {
                accepted: old(self).accepted.wrapping_add(1),
                ..*old(self)
            }),
    {
        self.accepted = self.accepted.wrapping_add(1);
    }

    /// Counts a request that was committed.
    pub fn count_committed(&mut self)
        ensures
            *final(self) == (Stats {
                committed: old(self).committed.wrapping_add(1),
                ..*old(self)
            }),
    {
        self.committed = self.committed.wrapping_add(1);
    }

    /// Counts a request that failed.
    pub fn count_failed(&mut self)
        ensures
            *final(self) == (Stats { failed: old(self).failed.wrapping_add(1), ..*old(self) }),
    {
        self.failed = self.failed.wrapping_add(1);
    }

    /// Counts a request that the queue did not take.
    pub fn count_rejected(&mut self)
        ensures
            *final(self) == (Stats {
                rejected: old(self).rejected.wrapping_add(1),
                ..*old(self)
            }),
    {
        self.rejected = self.rejected.wrapping_add(1);
    }

    /// The counters at this moment, with what is given of the queue, the log and
    /// the times of commits.
    pub fn snapshot(
        &self,
        queue_depth: usize,
        queue_capacity: usize,
        current_wal_size_bytes: Option<u64>,
        avg_commit_latency: serde_json::Number,
        p95_commit_latency: u64,
    ) -> (r: StatsSnapshot)
        ensures
            json::field(snapshot_json(r)->Object_0, "accepted"@) == Some(
                JsonView::Number(json::uint_number(self.accepted)),
            ),
            json::field(snapshot_json(r)->Object_0, "committed"@) == Some(
                JsonView::Number(json::uint_number(self.committed)),
            ),
            json::field(snapshot_json(r)->Object_0, "failed"@) == Some(
                JsonView::Number(json::uint_number(self.failed)),
            ),
            json::field(snapshot_json(r)->Object_0, "rejected"@) == Some(
                JsonView::Number(json::uint_number(self.rejected)),
            ),
            r.accepted == self.accepted,
            r.committed == self.committed,
            r.failed == self.failed,
            r.rejected == self.rejected,
            r.queue_depth == queue_depth,
            r.queue_capacity == queue_capacity,
            r.current_wal_size_bytes == current_wal_size_bytes,
            r.avg_commit_latency == avg_commit_latency,
            r.p95_commit_latency == p95_commit_latency,
    {
        let r = StatsSnapshot {
            accepted: self.accepted,
            committed: self.committed,
            failed: self.failed,
            rejected: self.rejected,
            queue_depth,
            queue_capacity,
            current_wal_size_bytes,
            avg_commit_latency,
            p95_commit_latency,
        };
        proof {
            laws::snapshot_is_found_by_name(r);
        }
        r
    }
}

/// The JSON of an optional unsigned number.
pub open spec fn opt_uint_json(u: Option<u64>) -> JsonView {
    match u {
        Some(n) => JsonView::Number(json::uint_number(n)),
        None => JsonView::Null,
    }
}

/// The JSON of a snapshot.
pub open spec fn snapshot_json(s: StatsSnapshot) -> JsonView {
    JsonView::Object(
        seq![
            ("accepted"@, JsonView::Number(json::uint_number(s.accepted))),
            ("committed"@, JsonView::Number(json::uint_number(s.committed))),
            ("failed"@, JsonView::Number(json::uint_number(s.failed))),
            ("rejected"@, JsonView::Number(json::uint_number(s.rejected))),
            ("queue_depth"@, JsonView::Number(json::uint_number(s.queue_depth as u64))),
            ("queue_capacity"@, JsonView::Number(json::uint_number(s.queue_capacity as u64))),
            ("current_wal_size_bytes"@, opt_uint_json(s.current_wal_size_bytes)),
            ("avg_commit_latency"@, JsonView::Number(s.avg_commit_latency)),
            ("p95_commit_latency"@, JsonView::Number(json::uint_number(s.p95_commit_latency))),
        ],
    )
}

impl StatsSnapshot {
    /// The snapshot as JSON.
    pub fn to_json(&self) -> (r: Json)
        ensures
            r@ == snapshot_json(*self),
    {
        let wal = match self.current_wal_size_bytes {
            Some(n) => Json::Number(json::number_from_uint(n)),
            None => Json::Null,
        };
        proof {
            reveal_strlit("accepted");
            reveal_strlit("committed");
            reveal_strlit("failed");
            reveal_strlit("rejected");
            reveal_strlit("queue_depth");
            reveal_strlit("queue_capacity");
            reveal_strlit("current_wal_size_bytes");
            reveal_strlit("avg_commit_latency");
            reveal_strlit("p95_commit_latency");
            assert("accepted"@.len() == 8 && "accepted"@[0] == 'a');
            assert("committed"@.len() == 9 && "failed"@.len() == 6);
            assert("rejected"@.len() == 8 && "rejected"@[0] == 'r');
            assert("queue_depth"@.len() == 11 && "queue_capacity"@.len() == 14);
            assert("current_wal_size_bytes"@.len() == 22);
            assert("avg_commit_latency"@.len() == 18 && "avg_commit_latency"@[0] == 'a');
            assert("p95_commit_latency"@.len() == 18 && "p95_commit_latency"@[0] == 'p');
        }
        let r = json::object(
            vec![
                ("accepted", Json::Number(json::number_from_uint(self.accepted))),
                ("committed", Json::Number(json::number_from_uint(self.committed))),
                ("failed", Json::Number(json::number_from_uint(self.failed))),
                ("rejected", Json::Number(json::number_from_uint(self.rejected))),
                ("queue_depth", Json::Number(json::number_from_uint(self.queue_depth as u64))),
                (
                    "queue_capacity",
                    Json::Number(json::number_from_uint(self.queue_capacity as u64)),
                ),
                ("current_wal_size_bytes", wal),
                ("avg_commit_latency", Json::Number(self.avg_commit_latency.clone())),
                (
                    "p95_commit_latency",
                    Json::Number(json::number_from_uint(self.p95_commit_latency)),
                ),
            ],
        );
        assert(r@->Object_0 =~= snapshot_json(*self)->Object_0);
        r
    }
}

/// The path of the write-ahead log of a database file. A database in memory has
/// none, and neither has an empty path.
pub open spec fn log_path(db_path: Seq<char>) -> Option<Seq<char>> {
    if db_path.len() == 0 || db_path == ":memory:"@ {
        None
    } else {
        Some(db_path + "-wal"@)
    }
}

/// The path of the write-ahead log of a database file, if it can have one.
pub fn wal_path(db_path: &str) -> (r: Option<String>)
    ensures
        match r {
            Some(p) => log_path(db_path@) == Some(p@),
            None => log_path(db_path@) is None,
        },
{
    proof {
        reveal_strlit("");
    }
    if same_text(db_path, "") || same_text(db_path, ":memory:") {
        assert(""@.len() == 0);
        None
    } else {
        assert(db_path@.len() == 0 ==> db_path@ =~= ""@);
        Some(joined(db_path, "-wal"))
    }
}

} // verus!
