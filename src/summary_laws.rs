//! Properties of the summary that hold for every set of outcomes.

use crate::stats::RequestStat;
use crate::summary::{
    all_outcomes, durations, max_of, min_of, sizes, status_count, sum_of, summary_of, SummaryModel,
};
use vstd::prelude::*;
use vstd::seq_lib::to_multiset_len;

verus! {

broadcast use vstd::seq_lib::group_to_multiset_ensures;

proof fn lemma_sum_remove(v: Seq<u64>, i: int)
    requires
        0 <= i < v.len(),
    ensures
        sum_of(v) == sum_of(v.remove(i)) + v[i],
    decreases v.len(),
{
    if i == v.len() - 1 {
        assert(v.remove(i) =~= v.drop_last());
    } else {
        assert(v.remove(i).drop_last() =~= v.drop_last().remove(i));
        lemma_sum_remove(v.drop_last(), i);
    }
}

proof fn lemma_min_remove(v: Seq<u64>, i: int)
    requires
        0 <= i < v.len(),
    ensures
        min_of(v) == if v[i] < min_of(v.remove(i)) {
            v[i]
        } else {
            min_of(v.remove(i))
        },
    decreases v.len(),
{
    if i == v.len() - 1 {
        assert(v.remove(i) =~= v.drop_last());
    } else {
        assert(v.remove(i).drop_last() =~= v.drop_last().remove(i));
        lemma_min_remove(v.drop_last(), i);
    }
}

proof fn lemma_max_remove(v: Seq<u64>, i: int)
    requires
        0 <= i < v.len(),
    ensures
        max_of(v) == if v[i] > max_of(v.remove(i)) {
            v[i]
        } else {
            max_of(v.remove(i))
        },
    decreases v.len(),
{
    if i == v.len() - 1 {
        assert(v.remove(i) =~= v.drop_last());
    } else {
        assert(v.remove(i).drop_last() =~= v.drop_last().remove(i));
        lemma_max_remove(v.drop_last(), i);
    }
}

proof fn lemma_status_count_remove(s: Seq<RequestStat>, i: int, c: u16)
    requires
        0 <= i < s.len(),
    ensures
        status_count(s, c) == status_count(s.remove(i), c) + if s[i].status == c {
            1nat
        } else {
            0nat
        },
    decreases s.len(),
{
    if i == s.len() - 1 {
        assert(s.remove(i) =~= s.drop_last());
    } else {
        assert(s.remove(i).drop_last() =~= s.drop_last().remove(i));
        lemma_status_count_remove(s.drop_last(), i, c);
    }
}

proof fn lemma_figures_depend_on_multiset(a: Seq<RequestStat>, b: Seq<RequestStat>)
    requires
        a.to_multiset() == b.to_multiset(),
    ensures
        a.len() == b.len(),
        sum_of(durations(a)) == sum_of(durations(b)),
        min_of(durations(a)) == min_of(durations(b)),
        max_of(durations(a)) == max_of(durations(b)),
        sum_of(sizes(a)) == sum_of(sizes(b)),
        min_of(sizes(a)) == min_of(sizes(b)),
        max_of(sizes(a)) == max_of(sizes(b)),
        forall|c: u16| #[trigger] status_count(a, c) == status_count(b, c),
    decreases a.len(),
{
    to_multiset_len(a);
    to_multiset_len(b);
    if a.len() == 0 {
        assert(b.len() == 0);
        assert(a =~= b);
    } else {
        let x = a.last();
        let a2 = a.drop_last();
        assert(a2.push(x) =~= a);
        assert(a.to_multiset() =~= a2.to_multiset().insert(x));
        assert(a.to_multiset().count(x) > 0);
        assert(b.contains(x));
        let i = choose|i: int| 0 <= i < b.len() && b[i] == x;
        let b2 = b.remove(i);
        assert(b2.to_multiset() =~= b.to_multiset().remove(x));
        assert(a2.to_multiset() =~= a.to_multiset().remove(x));
        lemma_figures_depend_on_multiset(a2, b2);
        assert(durations(a).drop_last() =~= durations(a2));
        assert(sizes(a).drop_last() =~= sizes(a2));
        assert(durations(b).remove(i) =~= durations(b2));
        assert(sizes(b).remove(i) =~= sizes(b2));
        lemma_sum_remove(durations(b), i);
        lemma_min_remove(durations(b), i);
        lemma_max_remove(durations(b), i);
        lemma_sum_remove(sizes(b), i);
        lemma_min_remove(sizes(b), i);
        lemma_max_remove(sizes(b), i);
        assert forall|c: u16| #[trigger] status_count(a, c) == status_count(b, c) by {
            assert(status_count(a2, c) == status_count(b2, c));
            lemma_status_count_remove(b, i, c);
        }
    }
}

/// The summary depends only on which outcomes were fed and how often, not
/// on their order: any interleaving of the channels gives the same summary.
pub proof fn lemma_summary_order_independent(a: Seq<RequestStat>, b: Seq<RequestStat>)
    requires
        a.to_multiset() == b.to_multiset(),
    ensures
        summary_of(a) == summary_of(b),
{
    lemma_figures_depend_on_multiset(a, b);
    assert(summary_of(a).status_counts =~= summary_of(b).status_counts);
}

proof fn lemma_min_is_least_element(v: Seq<u64>)
    requires
        v.len() > 0,
    ensures
        exists|i: int| 0 <= i < v.len() && v[i] == min_of(v),
        forall|i: int| 0 <= i < v.len() ==> min_of(v) <= #[trigger] v[i],
    decreases v.len(),
{
    let d = v.drop_last();
    if d.len() > 0 {
        lemma_min_is_least_element(d);
        let j = choose|j: int| 0 <= j < d.len() && d[j] == min_of(d);
        assert(v[j] == d[j]);
    }
    assert forall|i: int| 0 <= i < v.len() implies min_of(v) <= #[trigger] v[i] by {
        if i < v.len() - 1 {
            assert(v[i] == d[i]);
        }
    }
    if d.len() == 0 {
        assert(min_of(d) == u64::MAX);
        assert(v[0] == min_of(v));
    } else if v.last() < min_of(d) {
        assert(v[v.len() - 1] == min_of(v));
    }
}

proof fn lemma_max_is_greatest_element(v: Seq<u64>)
    requires
        v.len() > 0,
    ensures
        exists|i: int| 0 <= i < v.len() && v[i] == max_of(v),
        forall|i: int| 0 <= i < v.len() ==> #[trigger] v[i] <= max_of(v),
    decreases v.len(),
{
    let d = v.drop_last();
    if d.len() > 0 {
        lemma_max_is_greatest_element(d);
        let j = choose|j: int| 0 <= j < d.len() && d[j] == max_of(d);
        assert(v[j] == d[j]);
    }
    assert forall|i: int| 0 <= i < v.len() implies #[trigger] v[i] <= max_of(v) by {
        if i < v.len() - 1 {
            assert(v[i] == d[i]);
        }
    }
    if d.len() == 0 {
        assert(max_of(d) == 0);
        assert(v[0] == max_of(v));
    } else if v.last() > max_of(d) {
        assert(v[v.len() - 1] == max_of(v));
    }
}

proof fn lemma_status_count_is_filter_len(s: Seq<RequestStat>, c: u16)
    ensures
        status_count(s, c) == s.filter(|o: RequestStat| o.status == c).len(),
    decreases s.len(),
{
    reveal(Seq::filter);
    if s.len() > 0 {
        lemma_status_count_is_filter_len(s.drop_last(), c);
    }
}

proof fn lemma_status_count_positive(s: Seq<RequestStat>, c: u16)
    ensures
        status_count(s, c) > 0 <==> exists|i: int| 0 <= i < s.len() && s[i].status == c,
    decreases s.len(),
{
    if s.len() > 0 {
        let d = s.drop_last();
        lemma_status_count_positive(d, c);
        if exists|i: int| 0 <= i < d.len() && d[i].status == c {
            let i = choose|i: int| 0 <= i < d.len() && d[i].status == c;
            assert(s[i] == d[i]);
        }
        if exists|i: int| 0 <= i < s.len() && s[i].status == c {
            let i = choose|i: int| 0 <= i < s.len() && s[i].status == c;
            if i < s.len() - 1 {
                assert(s[i] == d[i]);
            }
        }
    }
}

/// `m` is the latency of one of the outcomes of `s` and at most every other.
pub open spec fn is_least_duration(s: Seq<RequestStat>, m: nat) -> bool {
    &&& exists|i: int| 0 <= i < s.len() && s[i].duration == m
    &&& forall|i: int| 0 <= i < s.len() ==> m <= #[trigger] s[i].duration
}

/// `m` is the latency of one of the outcomes of `s` and at least every other.
pub open spec fn is_greatest_duration(s: Seq<RequestStat>, m: nat) -> bool {
    &&& exists|i: int| 0 <= i < s.len() && s[i].duration == m
    &&& forall|i: int| 0 <= i < s.len() ==> #[trigger] s[i].duration <= m
}

/// `m` is the body size of one of the outcomes of `s` and at most every other.
pub open spec fn is_least_size(s: Seq<RequestStat>, m: nat) -> bool {
    &&& exists|i: int| 0 <= i < s.len() && s[i].size == m
    &&& forall|i: int| 0 <= i < s.len() ==> m <= #[trigger] s[i].size
}

/// `m` is the body size of one of the outcomes of `s` and at least every other.
pub open spec fn is_greatest_size(s: Seq<RequestStat>, m: nat) -> bool {
    &&& exists|i: int| 0 <= i < s.len() && s[i].size == m
    &&& forall|i: int| 0 <= i < s.len() ==> #[trigger] s[i].size <= m
}

/// For any non-empty list of outcomes, the one-pass summary agrees with the
/// figures computed directly from the whole list: its count is the list's
/// length, its extremes are the least and greatest values in the list, its
/// means are the totals divided by the count, and each status code is
/// counted as often as it occurs.
pub proof fn lemma_summary_matches_direct_figures(s: Seq<RequestStat>)
    requires
        s.len() > 0,
    ensures
        summary_of(s).count == s.len(),
        is_least_duration(s, summary_of(s).min_duration),
        is_greatest_duration(s, summary_of(s).max_duration),
        is_least_size(s, summary_of(s).min_size),
        is_greatest_size(s, summary_of(s).max_size),
        summary_of(s).mean_duration == summary_of(s).total_duration / (s.len() as nat),
        summary_of(s).mean_size == summary_of(s).total_size / (s.len() as nat),
        forall|c: u16|
            #![trigger summary_of(s).status_counts.dom().contains(c)]
            summary_of(s).status_counts.dom().contains(c) <==> exists|i: int|
                0 <= i < s.len() && s[i].status == c,
        forall|c: u16|
            summary_of(s).status_counts.dom().contains(c) ==> #[trigger] summary_of(
                s,
            ).status_counts[c] == s.filter(|o: RequestStat| o.status == c).len(),
{
    let d = durations(s);
    let z = sizes(s);
    lemma_min_is_least_element(d);
    lemma_max_is_greatest_element(d);
    lemma_min_is_least_element(z);
    lemma_max_is_greatest_element(z);
    let i = choose|i: int| 0 <= i < d.len() && d[i] == min_of(d);
    assert(s[i].duration == d[i]);
    let i = choose|i: int| 0 <= i < d.len() && d[i] == max_of(d);
    assert(s[i].duration == d[i]);
    let k = choose|k: int| 0 <= k < z.len() && z[k] == min_of(z);
    assert(s[k].size == z[k]);
    assert(s[k].size == summary_of(s).min_size);
    let k = choose|k: int| 0 <= k < z.len() && z[k] == max_of(z);
    assert(s[k].size == z[k]);
    assert(s[k].size == summary_of(s).max_size);
    assert forall|i: int| 0 <= i < s.len() implies summary_of(s).min_duration
        <= #[trigger] s[i].duration <= summary_of(s).max_duration by {
        assert(d[i] == s[i].duration);
    }
    assert forall|i: int| 0 <= i < s.len() implies summary_of(s).min_size
        <= #[trigger] s[i].size <= summary_of(s).max_size by {
        assert(z[i] == s[i].size);
    }
    assert forall|c: u16|
        #![trigger summary_of(s).status_counts.dom().contains(c)]
        summary_of(s).status_counts.dom().contains(c) <==> exists|i: int|
            0 <= i < s.len() && s[i].status == c by {
        lemma_status_count_positive(s, c);
    }
    assert forall|c: u16| summary_of(s).status_counts.dom().contains(c) implies #[trigger] summary_of(
        s,
    ).status_counts[c] == s.filter(|o: RequestStat| o.status == c).len() by {
        lemma_status_count_is_filter_len(s, c);
    }
}

/// With no outcomes at all the summary is well defined: every figure is
/// zero and no status code is counted.
pub proof fn lemma_empty_summary()
    ensures
        summary_of(Seq::<RequestStat>::empty()) == (SummaryModel {
            count: 0,
            mean_duration: 0,
            min_duration: 0,
            max_duration: 0,
            total_duration: 0,
            mean_size: 0,
            min_size: 0,
            max_size: 0,
            total_size: 0,
            status_counts: Map::empty(),
        }),
{
    let s = Seq::<RequestStat>::empty();
    assert(summary_of(s).status_counts =~= Map::<u16, nat>::empty());
}

/// Spreading the same outcomes over the channels in another way, or
/// reading the channels in another order, leaves the summary unchanged.
pub proof fn lemma_channel_layout_irrelevant(a: Seq<Vec<RequestStat>>, b: Seq<Vec<RequestStat>>)
    requires
        all_outcomes(a).to_multiset() == all_outcomes(b).to_multiset(),
    ensures
        summary_of(all_outcomes(a)) == summary_of(all_outcomes(b)),
{
    lemma_summary_order_independent(all_outcomes(a), all_outcomes(b));
}

} // verus!
