//! A histogram of HTTP status codes, kept in an ordered map from code to
//! count.

use std::collections::BTreeMap;
use vstd::prelude::*;
use vstd::std_specs::btree::{increasing_seq, key_obeys_cmp_spec, spec_btree_map_iter};
use vstd::std_specs::cmp::OrdSpec;
use vstd::std_specs::iter::IteratorSpec;

verus! {

broadcast use vstd::std_specs::btree::group_btree_axioms, vstd::laws_cmp::group_laws_cmp;

/// How many times `code` occurs in `codes`.
pub open spec fn occurrences(codes: Seq<u16>, code: u16) -> nat
    decreases codes.len(),
{
    if codes.len() == 0 {
        0
    } else {
        occurrences(codes.drop_last(), code) + if codes.last() == code {
            1nat
        } else {
            0nat
        }
    }
}

/// The sum of all counts in `entries`.
pub open spec fn sum_counts(entries: Seq<(u16, u64)>) -> nat
    decreases entries.len(),
{
    if entries.len() == 0 {
        0
    } else {
        sum_counts(entries.drop_last()) + entries.last().1 as nat
    }
}

/// Codes appear in strictly increasing order, so each appears at most once.
pub open spec fn strictly_sorted(entries: Seq<(u16, u64)>) -> bool {
    forall|i: int, j: int| 0 <= i < j < entries.len() ==> entries[i].0 < entries[j].0
}

proof fn lemma_occurrences_bound(codes: Seq<u16>, code: u16)
    ensures
        occurrences(codes, code) <= codes.len(),
    decreases codes.len(),
{
    if codes.len() > 0 {
        lemma_occurrences_bound(codes.drop_last(), code);
    }
}

proof fn lemma_sum_counts_update(entries: Seq<(u16, u64)>, p: int, x: (u16, u64))
    requires
        0 <= p < entries.len(),
    ensures
        sum_counts(entries.update(p, x)) + entries[p].1 == sum_counts(entries) + x.1,
    decreases entries.len(),
{
    let u = entries.update(p, x);
    if p == entries.len() - 1 {
        assert(u.drop_last() =~= entries.drop_last());
    } else {
        assert(u.drop_last() =~= entries.drop_last().update(p, x));
        lemma_sum_counts_update(entries.drop_last(), p, x);
    }
}

proof fn lemma_sum_counts_zero(entries: Seq<(u16, u64)>)
    requires
        forall|i: int| 0 <= i < entries.len() ==> #[trigger] entries[i].1 == 0,
    ensures
        sum_counts(entries) == 0,
    decreases entries.len(),
{
    if entries.len() > 0 {
        lemma_sum_counts_zero(entries.drop_last());
    }
}

/// A listing with each code at most once, that gives every occurring code
/// of `codes` with its number of occurrences, has counts adding up to the
/// length of `codes`.
pub proof fn lemma_listing_sums_to_length(codes: Seq<u16>, entries: Seq<(u16, u64)>)
    requires
        strictly_sorted(entries),
        forall|i: int|
            0 <= i < entries.len() ==> #[trigger] entries[i].1 == occurrences(codes, entries[i].0),
        forall|code: u16|
            occurrences(codes, code) > 0 ==> exists|i: int|
                0 <= i < entries.len() && #[trigger] entries[i].0 == code,
    ensures
        sum_counts(entries) == codes.len(),
    decreases codes.len(),
{
    if codes.len() == 0 {
        lemma_sum_counts_zero(entries);
    } else {
        let x = codes.last();
        let rest = codes.drop_last();
        assert(occurrences(codes, x) > 0);
        let p = choose|p: int| 0 <= p < entries.len() && #[trigger] entries[p].0 == x;
        let smaller = entries.update(p, (x, (entries[p].1 - 1) as u64));
        assert forall|i: int| 0 <= i < smaller.len() implies #[trigger] smaller[i].1
            == occurrences(rest, smaller[i].0) by {
            assert(occurrences(codes, entries[i].0) == occurrences(rest, entries[i].0) + if x
                == entries[i].0 {
                1nat
            } else {
                0nat
            });
            if i != p {
                assert(entries[i].0 != x);
            }
        }
        assert forall|code: u16| occurrences(rest, code) > 0 implies exists|i: int|
            0 <= i < smaller.len() && #[trigger] smaller[i].0 == code by {
            assert(occurrences(codes, code) >= occurrences(rest, code));
            let i = choose|i: int| 0 <= i < entries.len() && #[trigger] entries[i].0 == code;
            assert(smaller[i].0 == code);
        }
        lemma_listing_sums_to_length(rest, smaller);
        lemma_sum_counts_update(entries, p, (x, (entries[p].1 - 1) as u64));
    }
}

/// Occurrence counts of status codes, keyed by code.
pub struct StatusHistogram {
    counts: BTreeMap<u16, u64>,
    total: u64,
    recorded: Ghost<Seq<u16>>,
}

impl StatusHistogram {
    /// The codes recorded so far, in order.
    pub closed spec fn recorded(&self) -> Seq<u16> {
        self.recorded@
    }

    /// How many codes were recorded in all.
    pub closed spec fn total(&self) -> nat {
        self.total as nat
    }

    /// How many times `code` was recorded.
    pub closed spec fn count(&self, code: u16) -> nat {
        if self.counts@.contains_key(code) {
            self.counts@[code] as nat
        } else {
            0
        }
    }

    /// The histogram as a map from each recorded code to its count.
    pub open spec fn counts(&self) -> Map<u16, nat> {
        Map::new(|code: u16| self.count(code) > 0, |code: u16| self.count(code))
    }

    pub closed spec fn wf(&self) -> bool {
        &&& self.total == self.recorded@.len()
        &&& forall|code: u16| #[trigger] self.count(code) == occurrences(self.recorded@, code)
        &&& forall|code: u16| #[trigger] self.counts@.contains_key(code) ==> self.counts@[code] > 0
    }

    /// An empty histogram.
    pub fn new() -> (r: StatusHistogram)
        ensures
            r.wf(),
            r.total() == 0,
            forall|code: u16| r.count(code) == 0,
    {
        StatusHistogram { counts: BTreeMap::new(), total: 0, recorded: Ghost(Seq::empty()) }
    }

    /// Counts one more occurrence of `code`.
    pub fn record(&mut self, code: u16)
        requires
            old(self).wf(),
            old(self).total() < u64::MAX,
        ensures
            final(self).wf(),
            final(self).total() == old(self).total() + 1,
            forall|c: u16|
                #[trigger] final(self).count(c) == old(self).count(c) + if c == code {
                    1nat
                } else {
                    0nat
                },
    {
        let ghost before = self.recorded@;
        proof {
            lemma_occurrences_bound(before, code);
            assert(self.count(code) == occurrences(before, code));
        }
        let ghost old_self = *self;
        let c = match self.counts.get(&code) {
            Some(c) => *c + 1,
            None => 1,
        };
        assert(c == old_self.count(code) + 1);
        self.counts.insert(code, c);
        self.total = self.total + 1;
        self.recorded = Ghost(before.push(code));
        proof {
            assert(self.recorded@.drop_last() =~= before);
            assert forall|c2: u16| #[trigger] self.count(c2) == occurrences(self.recorded@, c2) by {
                assert(old_self.count(c2) == occurrences(before, c2));
                if c2 != code {
                    assert(self.counts@[c2] == old_self.counts@[c2]);
                }
                assert(occurrences(self.recorded@, c2) == occurrences(before, c2) + if code == c2 {
                    1nat
                } else {
                    0nat
                });
            }
        }
    }

    /// How many times `code` was recorded.
    pub fn get(&self, code: u16) -> (r: u64)
        requires
            self.wf(),
        ensures
            r == self.count(code),
    {
        match self.counts.get(&code) {
            Some(c) => *c,
            None => 0,
        }
    }

    /// A histogram with the same counts.
    pub fn copy(&self) -> (r: StatusHistogram)
        requires
            self.wf(),
        ensures
            r.wf(),
            r.total() == self.total(),
            forall|code: u16| #[trigger] r.count(code) == self.count(code),
    {
        let r = StatusHistogram {
            counts: self.counts.clone(),
            total: self.total,
            recorded: self.recorded,
        };
        proof {
            assert forall|code: u16| #[trigger] r.count(code) == self.count(code) by {}
        }
        r
    }

    /// The recorded `(code, count)` pairs in increasing order of code: each
    /// recorded code once, with its count. The counts add up to the number
    /// of codes recorded.
    pub fn sorted_counts(&self) -> (r: Vec<(u16, u64)>)
        requires
            self.wf(),
        ensures
            strictly_sorted(r@),
            forall|i: int| 0 <= i < r@.len() ==> #[trigger] r@[i].1 == self.count(r@[i].0),
            forall|code: u16|
                #[trigger] self.count(code) > 0 <==> exists|i: int|
                    0 <= i < r@.len() && r@[i].0 == code,
            sum_counts(r@) == self.total(),
    {
        let mut r: Vec<(u16, u64)> = Vec::new();
        let iter = self.counts.iter();
        let ghost v = iter.remaining();
        let ghost keys = v.map_values(|kv: (&u16, &u64)| *kv.0);
        proof {
            assert(key_obeys_cmp_spec::<u16>());
            assert(v == spec_btree_map_iter(&self.counts).remaining());
            assert(increasing_seq(keys));
        }
        for kv in it: iter
            invariant
                r@.len() == it.index(),
                keys == it.seq().map_values(|kv: (&u16, &u64)| *kv.0),
                forall|i: int| 0 <= i < r@.len() ==> r@[i] == (*it.seq()[i].0, *it.seq()[i].1),
        {
            r.push((*kv.0, *kv.1));
        }
        proof {
            assert forall|i: int, j: int| 0 <= i < j < r@.len() implies r@[i].0 < r@[j].0 by {
                assert(keys[i] == r@[i].0);
                assert(keys[j] == r@[j].0);
                assert(keys[i].cmp_spec(&keys[j]) is Less);
            }
            assert forall|i: int| 0 <= i < r@.len() implies #[trigger] r@[i].1 == self.count(
                r@[i].0,
            ) by {
                assert(self.counts@.contains_key(r@[i].0));
            }
            assert forall|code: u16|
                #[trigger] self.count(code) > 0 <==> exists|i: int|
                    0 <= i < r@.len() && r@[i].0 == code by {
                if self.count(code) > 0 {
                    assert(self.counts@.contains_key(code));
                    assert(v.contains((&code, &self.counts@[code])));
                    let j = choose|j: int| 0 <= j < v.len() && v[j] == (&code, &self.counts@[code]);
                    assert(keys[j] == code);
                    assert(r@[j].0 == code);
                }
                if exists|i: int| 0 <= i < r@.len() && r@[i].0 == code {
                    let i = choose|i: int| 0 <= i < r@.len() && r@[i].0 == code;
                    assert(self.counts@.contains_key(r@[i].0));
                }
            }
            assert forall|code: u16| occurrences(self.recorded@, code) > 0 implies exists|i: int|
                0 <= i < r@.len() && #[trigger] r@[i].0 == code by {
                assert(self.count(code) == occurrences(self.recorded@, code));
            }
            assert forall|i: int| 0 <= i < r@.len() implies #[trigger] r@[i].1 == occurrences(
                self.recorded@,
                r@[i].0,
            ) by {
                assert(self.count(r@[i].0) == occurrences(self.recorded@, r@[i].0));
            }
            lemma_listing_sums_to_length(self.recorded@, r@);
        }
        r
    }
}

} // verus!
