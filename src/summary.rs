//! The streaming aggregator: it folds request outcomes, one at a time, into
//! running totals and extremes, and from them builds the run's summary.

use crate::histogram::StatusHistogram;
use crate::stats::RequestStat;
use vstd::arithmetic::div_mod::{lemma_div_by_multiple, lemma_div_is_ordered};
use vstd::prelude::*;
use vstd::seq_lib::lemma_flatten_concat;

verus! {

/// The sum of `v`.
pub open spec fn sum_of(v: Seq<u64>) -> nat
    decreases v.len(),
{
    if v.len() == 0 {
        0
    } else {
        sum_of(v.drop_last()) + v.last() as nat
    }
}

/// The least element of `v`; `u64::MAX` for an empty sequence.
pub open spec fn min_of(v: Seq<u64>) -> u64
    decreases v.len(),
{
    if v.len() == 0 {
        u64::MAX
    } else if v.last() < min_of(v.drop_last()) {
        v.last()
    } else {
        min_of(v.drop_last())
    }
}

/// The greatest element of `v`; zero for an empty sequence.
pub open spec fn max_of(v: Seq<u64>) -> u64
    decreases v.len(),
{
    if v.len() == 0 {
        0
    } else if v.last() > max_of(v.drop_last()) {
        v.last()
    } else {
        max_of(v.drop_last())
    }
}

/// The latencies of `s`, in order.
pub open spec fn durations(s: Seq<RequestStat>) -> Seq<u64> {
    s.map_values(|o: RequestStat| o.duration)
}

/// The body sizes of `s`, in order.
pub open spec fn sizes(s: Seq<RequestStat>) -> Seq<u64> {
    s.map_values(|o: RequestStat| o.size)
}

/// How many outcomes of `s` carry status `code`.
pub open spec fn status_count(s: Seq<RequestStat>, code: u16) -> nat
    decreases s.len(),
{
    if s.len() == 0 {
        0
    } else {
        status_count(s.drop_last(), code) + if s.last().status == code {
            1nat
        } else {
            0nat
        }
    }
}

/// `a / b`, and zero where there is nothing to divide by.
pub open spec fn mean(a: nat, b: nat) -> nat {
    if b == 0 {
        0
    } else {
        a / b
    }
}

/// What a summary states about a run.
pub struct SummaryModel {
    pub count: nat,
    pub mean_duration: nat,
    pub min_duration: nat,
    pub max_duration: nat,
    pub total_duration: nat,
    pub mean_size: nat,
    pub min_size: nat,
    pub max_size: nat,
    pub total_size: nat,
    pub status_counts: Map<u16, nat>,
}

/// The summary of the outcomes `s`. With no outcomes every figure is zero
/// and the histogram is empty.
pub open spec fn summary_of(s: Seq<RequestStat>) -> SummaryModel {
    let n = s.len();
    SummaryModel {
        count: n,
        mean_duration: mean(sum_of(durations(s)), n),
        min_duration: if n == 0 {
            0
        } else {
            min_of(durations(s)) as nat
        },
        max_duration: max_of(durations(s)) as nat,
        total_duration: sum_of(durations(s)),
        mean_size: mean(sum_of(sizes(s)), n),
        min_size: if n == 0 {
            0
        } else {
            min_of(sizes(s)) as nat
        },
        max_size: max_of(sizes(s)) as nat,
        total_size: sum_of(sizes(s)),
        status_counts: Map::new(|c: u16| status_count(s, c) > 0, |c: u16| status_count(s, c)),
    }
}

/// A sum of `u64` values is at most their number times `u64::MAX`.
pub proof fn lemma_sum_bound(v: Seq<u64>)
    ensures
        sum_of(v) <= v.len() * (u64::MAX as nat),
    decreases v.len(),
{
    if v.len() > 0 {
        lemma_sum_bound(v.drop_last());
        let n = v.len() as int;
        assert((n - 1) * (u64::MAX as int) + (u64::MAX as int) == n * (u64::MAX as int))
            by (nonlinear_arith);
    }
}

proof fn lemma_mean_fits(total: nat, n: nat)
    requires
        n > 0,
        total <= n * (u64::MAX as nat),
    ensures
        total / n <= u64::MAX,
{
    lemma_div_is_ordered(total as int, n * (u64::MAX as int), n as int);
    assert(n * (u64::MAX as int) == (u64::MAX as int) * n) by (nonlinear_arith);
    lemma_div_by_multiple(u64::MAX as int, n as int);
}

/// Every outcome of `channels`, channel after channel.
pub open spec fn all_outcomes(channels: Seq<Vec<RequestStat>>) -> Seq<RequestStat> {
    channels.map_values(|c: Vec<RequestStat>| c@).flatten()
}

proof fn lemma_flatten_prefix<A>(ch: Seq<Seq<A>>, i: int)
    requires
        0 <= i < ch.len(),
    ensures
        ch.subrange(0, i + 1).flatten() == ch.subrange(0, i).flatten() + ch[i],
        ch.subrange(0, i + 1).flatten().len() <= ch.flatten().len(),
{
    assert(ch.subrange(0, i + 1) =~= ch.subrange(0, i).push(ch[i]));
    ch.subrange(0, i).lemma_flatten_push(ch[i]);
    assert(ch =~= ch.subrange(0, i + 1) + ch.subrange(i + 1, ch.len() as int));
    lemma_flatten_concat(ch.subrange(0, i + 1), ch.subrange(i + 1, ch.len() as int));
}

/// The figures of a finished run. Latencies are in nanoseconds, sizes in
/// bytes.
pub struct RequestStatSummary {
    pub request_count: u64,
    pub avg_duration: u64,
    pub min_duration: u64,
    pub max_duration: u64,
    pub total_duration: u128,
    pub status_codes: StatusHistogram,
    pub avg_query_size: u64,
    pub max_query_size: u64,
    pub min_query_size: u64,
    pub total_query_size: u128,
}

impl View for RequestStatSummary {
    type V = SummaryModel;

    open spec fn view(&self) -> SummaryModel {
        SummaryModel {
            count: self.request_count as nat,
            mean_duration: self.avg_duration as nat,
            min_duration: self.min_duration as nat,
            max_duration: self.max_duration as nat,
            total_duration: self.total_duration as nat,
            mean_size: self.avg_query_size as nat,
            min_size: self.min_query_size as nat,
            max_size: self.max_query_size as nat,
            total_size: self.total_query_size as nat,
            status_counts: self.status_codes.counts(),
        }
    }
}

/// Running figures over the outcomes fed so far. Memory does not grow
/// with the number of outcomes, only with the number of distinct codes.
pub struct StatAccumulator {
    count: u64,
    total_duration: u128,
    min_duration: u64,
    max_duration: u64,
    total_size: u128,
    min_size: u64,
    max_size: u64,
    statuses: StatusHistogram,
    seen: Ghost<Seq<RequestStat>>,
}

impl View for StatAccumulator {
    type V = Seq<RequestStat>;

    /// The outcomes fed so far, in order.
    closed spec fn view(&self) -> Seq<RequestStat> {
        self.seen@
    }
}

impl StatAccumulator {
    pub closed spec fn wf(&self) -> bool {
        let s = self.seen@;
        &&& self.count == s.len()
        &&& self.total_duration == sum_of(durations(s))
        &&& self.min_duration == min_of(durations(s))
        &&& self.max_duration == max_of(durations(s))
        &&& self.total_size == sum_of(sizes(s))
        &&& self.min_size == min_of(sizes(s))
        &&& self.max_size == max_of(sizes(s))
        &&& self.statuses.wf()
        &&& self.statuses.total() == self.count
        &&& forall|c: u16| #[trigger] self.statuses.count(c) == status_count(s, c)
    }

    /// An accumulator that has seen nothing.
    pub fn new() -> (r: StatAccumulator)
        ensures
            r.wf(),
            r@ == Seq::<RequestStat>::empty(),
    {
        let r = StatAccumulator {
            count: 0,
            total_duration: 0,
            min_duration: u64::MAX,
            max_duration: 0,
            total_size: 0,
            min_size: u64::MAX,
            max_size: 0,
            statuses: StatusHistogram::new(),
            seen: Ghost(Seq::empty()),
        };
        proof {
            assert(durations(r.seen@) =~= Seq::<u64>::empty());
            assert(sizes(r.seen@) =~= Seq::<u64>::empty());
        }
        r
    }

    /// How many outcomes were fed so far.
    pub fn len(&self) -> (r: u64)
        requires
            self.wf(),
        ensures
            r == self@.len(),
    {
        self.count
    }

    /// Folds one more outcome into the running figures.
    pub fn record(&mut self, stat: &RequestStat)
        requires
            old(self).wf(),
            old(self)@.len() < u64::MAX,
        ensures
            final(self).wf(),
            final(self)@ == old(self)@.push(*stat),
    {
        let ghost s = self.seen@;
        let ghost s2 = s.push(*stat);
        proof {
            assert(durations(s2) =~= durations(s).push(stat.duration));
            assert(sizes(s2) =~= sizes(s).push(stat.size));
            assert(durations(s2).drop_last() =~= durations(s));
            assert(sizes(s2).drop_last() =~= sizes(s));
            assert(s2.drop_last() =~= s);
            lemma_sum_bound(durations(s));
            lemma_sum_bound(sizes(s));
            let n = s.len() as int;
            assert(n * (u64::MAX as int) + (u64::MAX as int) <= (u64::MAX as int) * (u64::MAX
                as int)) by (nonlinear_arith)
                requires
                    n < u64::MAX,
            ;
        }
        self.total_duration = self.total_duration + stat.duration as u128;
        if stat.duration < self.min_duration {
            self.min_duration = stat.duration;
        }
        if stat.duration > self.max_duration {
            self.max_duration = stat.duration;
        }
        self.total_size = self.total_size + stat.size as u128;
        if stat.size < self.min_size {
            self.min_size = stat.size;
        }
        if stat.size > self.max_size {
            self.max_size = stat.size;
        }
        self.statuses.record(stat.status);
        self.count = self.count + 1;
        self.seen = Ghost(s2);
    }

    /// The summary of every outcome fed so far.
    pub fn summary(&self) -> (r: RequestStatSummary)
        requires
            self.wf(),
        ensures
            r@ == summary_of(self@),
            r.status_codes.wf(),
            r.status_codes.total() == r.request_count,
    {
        let ghost s = self.seen@;
        proof {
            lemma_sum_bound(durations(s));
            lemma_sum_bound(sizes(s));
        }
        let (avg_duration, avg_size, min_duration, min_size) = if self.count == 0 {
            (0u64, 0u64, 0u64, 0u64)
        } else {
            proof {
                lemma_mean_fits(sum_of(durations(s)), s.len());
                lemma_mean_fits(sum_of(sizes(s)), s.len());
            }
            (
                (self.total_duration / self.count as u128) as u64,
                (self.total_size / self.count as u128) as u64,
                self.min_duration,
                self.min_size,
            )
        };
        let r = RequestStatSummary {
            request_count: self.count,
            avg_duration,
            min_duration,
            max_duration: self.max_duration,
            total_duration: self.total_duration,
            status_codes: self.statuses.copy(),
            avg_query_size: avg_size,
            max_query_size: self.max_size,
            min_query_size: min_size,
            total_query_size: self.total_size,
        };
        proof {
            assert forall|c: u16| #[trigger] r.status_codes.count(c) == status_count(s, c) by {
                assert(self.statuses.count(c) == status_count(s, c));
            }
            assert(r.status_codes.counts() =~= summary_of(s).status_counts);
        }
        r
    }
}

impl RequestStatSummary {
    /// The summary of every outcome in `channels`, read channel by channel.
    pub fn from_channels(channels: &Vec<Vec<RequestStat>>) -> (r: RequestStatSummary)
        requires
            all_outcomes(channels@).len() <= u64::MAX,
        ensures
            r@ == summary_of(all_outcomes(channels@)),
            r.status_codes.wf(),
            r.status_codes.total() == r.request_count,
    {
        let ghost m = channels@.map_values(|c: Vec<RequestStat>| c@);
        let mut acc = StatAccumulator::new();
        let mut i: usize = 0;
        proof {
            assert(m.subrange(0, 0).flatten() =~= Seq::<RequestStat>::empty());
        }
        while i < channels.len()
            invariant
                m == channels@.map_values(|c: Vec<RequestStat>| c@),
                i <= channels@.len(),
                acc.wf(),
                acc@ == m.subrange(0, i as int).flatten(),
                m.flatten().len() <= u64::MAX,
            decreases channels@.len() - i,
        {
            let ch = &channels[i];
            proof {
                lemma_flatten_prefix(m, i as int);
            }
            let mut j: usize = 0;
            while j < ch.len()
                invariant
                    m == channels@.map_values(|c: Vec<RequestStat>| c@),
                    i < channels@.len(),
                    *ch == channels@[i as int],
                    j <= ch@.len(),
                    acc.wf(),
                    acc@ == m.subrange(0, i as int).flatten() + ch@.subrange(0, j as int),
                    m.subrange(0, i as int + 1).flatten() == m.subrange(0, i as int).flatten()
                        + ch@,
                    m.subrange(0, i as int + 1).flatten().len() <= m.flatten().len(),
                    m.flatten().len() <= u64::MAX,
                decreases ch@.len() - j,
            {
                proof {
                    assert(m.subrange(0, i as int).flatten() + ch@.subrange(0, j as int + 1)
                        =~= (m.subrange(0, i as int).flatten() + ch@.subrange(0, j as int)).push(
                        ch@[j as int],
                    ));
                }
                acc.record(&ch[j]);
                j = j + 1;
            }
            proof {
                assert(ch@.subrange(0, j as int) =~= ch@);
            }
            i = i + 1;
        }
        proof {
            assert(m.subrange(0, i as int) =~= m);
        }
        acc.summary()
    }
}

} // verus!
