//! How long the last commits took.
use std::collections::VecDeque;

use vstd::prelude::*;

verus! {

#[verifier::external_type_specification]
#[verifier::external_body]
pub struct ExInstant(std::time::Instant);

/// `Instant::now`. Nothing is claimed of what the clock shows.
pub assume_specification[ std::time::Instant::now ]() -> (r: std::time::Instant)
;

/// The time that passes from one instant to another, or none where the second is
/// not the later one.
pub uninterp spec fn time_between(
    start: std::time::Instant,
    end: std::time::Instant,
) -> std::time::Duration;

/// `Instant::elapsed`: the time from `start` to the instant of the call. Which
/// instant that is rests with the clock, and nothing is claimed of it.
pub assume_specification[ std::time::Instant::elapsed ](start: &std::time::Instant) -> (r:
    std::time::Duration)
    ensures
        exists|now: std::time::Instant| r == #[trigger] time_between(*start, now),
;

/// The whole microseconds of a time.
pub uninterp spec fn whole_micros(d: std::time::Duration) -> u128;

/// `Duration::as_micros`: the whole microseconds of a time.
pub assume_specification[ std::time::Duration::as_micros ](d: &std::time::Duration) -> (r: u128)
    ensures
        r == whole_micros(*d),
;

/// The microseconds from one instant to another, as far as they fit 64 bits: higher
/// bits are dropped.
pub open spec fn micros_between(start: std::time::Instant, end: std::time::Instant) -> u64 {
    whole_micros(time_between(start, end)) as u64
}

/// Whether `micros` was measured: it is the microseconds from one instant to
/// another.
pub open spec fn is_measurement(micros: u64) -> bool {
    exists|start: std::time::Instant, end: std::time::Instant|
        micros == #[trigger] micros_between(start, end)
}

/// How many measurements are kept.
pub const LATENCY_BUF_CAP: usize = 1024;

/// The times that the last commits took, in microseconds, the oldest first.
#[derive(Debug)]
pub struct LatencyBuffer {
    entries: VecDeque<u64>,
}

/// A buffer after one more measurement: the oldest makes room where there is
/// none.
pub open spec fn pushed(s: Seq<u64>, micros: u64) -> Seq<u64> {
    if s.len() >= LATENCY_BUF_CAP {
        s.drop_first().push(micros)
    } else {
        s.push(micros)
    }
}

/// The sum of some measurements.
pub open spec fn total(s: Seq<u64>) -> nat
    decreases s.len(),
{
    if s.len() == 0 {
        0
    } else {
        total(s.drop_last()) + s.last() as nat
    }
}

/// Whether `s` is in ascending order.
pub open spec fn ascending(s: Seq<u64>) -> bool {
    forall|i: int, j: int| 0 <= i <= j < s.len() ==> s[i] <= s[j]
}

/// Whether `v` is the `rank`-th smallest of `s`, counted from one.
pub open spec fn is_ranked(s: Seq<u64>, rank: nat, v: u64) -> bool {
    exists|a: Seq<u64>| #[trigger]
        ascending(a) && a.to_multiset() == s.to_multiset() && 0 < rank <= a.len() && v == a[rank
            - 1]
}

/// The number of measurements, out of `n`, that are at most the 95th percentile:
/// 95 hundredths of `n`, rounded up.
pub open spec fn p95_rank(n: nat) -> nat {
    (95 * n + 99) / 100
}

/// What is reported of a buffer.
#[derive(Debug, Clone, Copy, PartialEq, Eq, Structural)]
pub struct LatencySummary {
    /// The sum of the measurements.
    pub sum: u128,
    /// The number of measurements.
    pub count: usize,
    /// The 95th percentile, or zero where there are no measurements.
    pub p95: u64,
}

/// `slice::sort_unstable`: the same numbers, in ascending order.
#[verifier::external_body]
fn sorted(v: Vec<u64>) -> (r: Vec<u64>)
    ensures
        ascending(r@),
        r@.to_multiset() == v@.to_multiset(),
{
    let mut v = v;
    v.sort_unstable();
    v
}

impl LatencyBuffer {
    #[verifier::type_invariant]
    spec fn is_bounded(self) -> bool {
        self.entries@.len() <= LATENCY_BUF_CAP
    }

    /// The measurements, the oldest first.
    pub closed spec fn view(&self) -> Seq<u64> {
        self.entries@
    }

    /// A buffer without measurements.
    pub fn new() -> (r: Self)
        ensures
            r@ == Seq::<u64>::empty(),
    {
        LatencyBuffer { entries: VecDeque::new() }
    }

    /// The number of measurements, never more than the capacity.
    pub fn len(&self) -> (r: usize)
        ensures
            r == self@.len(),
            r <= LATENCY_BUF_CAP,
    {
        proof {
            use_type_invariant(self);
        }
        self.entries.len()
    }

    /// Adds a measurement. Where there is no room, the oldest is dropped.
    pub fn push(&mut self, micros: u64)
        ensures
            final(self)@ == pushed(old(self)@, micros),
    {
        proof {
            use_type_invariant(&*self);
        }
        let ghost before = self.entries@;
        let mut entries: VecDeque<u64> = VecDeque::new();
        std::mem::swap(&mut self.entries, &mut entries);
        if entries.len() >= LATENCY_BUF_CAP {
            let _ = entries.pop_front();
            assert(entries@ =~= before.drop_first());
        }
        entries.push_back(micros);
        self.entries = entries;
    }

    /// The sum and number of the measurements, and their 95th percentile.
    pub fn summary(&self) -> (r: LatencySummary)
        ensures
            r.sum == total(self@),
            r.count == self@.len(),
            self@.len() == 0 ==> r.p95 == 0,
            self@.len() > 0 ==> is_ranked(self@, p95_rank(self@.len()), r.p95),
    {
        proof {
            use_type_invariant(self);
        }
        let n = self.entries.len();
        let mut copy: Vec<u64> = Vec::new();
        let mut sum: u128 = 0;
        assert(self@.take(0) =~= Seq::<u64>::empty());
        for i in 0..n
            invariant
                n == self.entries@.len(),
                n <= LATENCY_BUF_CAP,
                copy@ == self@.take(i as int),
                sum == total(self@.take(i as int)),
                sum <= i * u64::MAX,
        {
            let m = self.entries[i];
            assert(self@.take(i + 1).drop_last() =~= self@.take(i as int));
            assert(self@.take(i + 1) =~= self@.take(i as int).push(m));
            assert(i * u64::MAX + u64::MAX == (i + 1) * u64::MAX) by (nonlinear_arith);
            assert(i * u64::MAX <= 1024 * u64::MAX) by (nonlinear_arith)
                requires
                    i <= 1024,
            ;
            sum = sum + m as u128;
            copy.push(m);
        }
        assert(self@.take(n as int) =~= self@);
        if n == 0 {
            return LatencySummary { sum, count: 0, p95: 0 };
        }
        let ordered = sorted(copy);
        let rank: usize = (95 * n + 99) / 100;
        proof {
            vstd::seq_lib::to_multiset_len(ordered@);
            vstd::seq_lib::to_multiset_len(self@);
        }
        assert(ordered@.len() == n);
        let p95 = ordered[rank - 1];
        assert(ascending(ordered@));
        LatencySummary { sum, count: n, p95 }
    }
}

impl Clone for LatencyBuffer {
    fn clone(&self) -> (r: Self)
        ensures
            r@ == self@,
    {
        proof {
            use_type_invariant(self);
        }
        let n = self.entries.len();
        let mut entries: VecDeque<u64> = VecDeque::new();
        for i in 0..n
            invariant
                n == self.entries@.len(),
                entries@ == self@.take(i as int),
        {
            entries.push_back(self.entries[i]);
            assert(entries@ =~= self@.take(i + 1));
        }
        assert(self@.take(n as int) =~= self@);
        LatencyBuffer { entries }
    }
}

/// However many measurements are added, the buffer holds no more than its
/// capacity, and the last of them is the newest.
pub proof fn buffer_stays_bounded(s: Seq<u64>, micros: u64)
    requires
        s.len() <= LATENCY_BUF_CAP,
    ensures
        pushed(s, micros).len() <= LATENCY_BUF_CAP,
        pushed(s, micros).last() == micros,
        s.len() < LATENCY_BUF_CAP ==> pushed(s, micros).len() == s.len() + 1,
{
}

} // verus!
