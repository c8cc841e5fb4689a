//! Pending-request table: a mapping from sequence number to the nanosecond
//! timestamp at which that request was sent. The sender records an entry just
//! before transmitting; the receiver takes it exactly once when the matching
//! reply arrives. A taken entry that is absent signals a correlation fault
//! (a reply for a sequence number never sent, or a duplicate reply), which the
//! caller treats as fatal. Drivers that share the table between a send path
//! and a receive path wrap it in their own mutual-exclusion guard; every
//! operation here is O(1) and none does any I/O.

use vstd::prelude::*;

verus! {

use std::collections::HashMap;

broadcast use vstd::std_specs::hash::group_hash_axioms;

/// The table of in-flight requests, keyed by sequence number, valued by the
/// send timestamp in nanoseconds.
pub struct PendingTable {
    entries: HashMap<u64, u64>,
}

impl View for PendingTable {
    type V = Map<u64, u64>;

    closed spec fn view(&self) -> Map<u64, u64> {
        self.entries@
    }
}

impl PendingTable {
    /// A fresh table with no in-flight requests.
    pub fn new() -> (t: PendingTable)
        ensures
            t@ == Map::<u64, u64>::empty(),
    {
        PendingTable { entries: HashMap::new() }
    }

    /// Number of in-flight requests.
    pub fn len(&self) -> (n: usize)
        ensures
            n == self@.len(),
    {
        self.entries.len()
    }

    /// Whether no request is in flight.
    pub fn is_empty(&self) -> (r: bool)
        ensures
            r == self@.is_empty(),
    {
        self.entries.is_empty()
    }

    /// Whether a request with sequence number `seq` is in flight.
    pub fn contains(&self, seq: u64) -> (r: bool)
        ensures
            r == self@.contains_key(seq),
    {
        self.entries.contains_key(&seq)
    }

    /// Record that the request numbered `seq` was sent at `sent_at_ns`. The
    /// caller guarantees that `seq` is not currently in flight, which holds by
    /// construction while the sequence space is far from exhaustion.
    pub fn record(&mut self, seq: u64, sent_at_ns: u64)
        requires
            !old(self)@.contains_key(seq),
        ensures
            final(self)@ == old(self)@.insert(seq, sent_at_ns),
    {
        self.entries.insert(seq, sent_at_ns);
    }

    /// Atomically remove and return the send timestamp recorded for `seq`.
    /// Returns `Some` exactly when `seq` is in flight; `None` signals a
    /// correlation fault and leaves the table unchanged.
    pub fn take(&mut self, seq: u64) -> (r: Option<u64>)
        ensures
            old(self)@.contains_key(seq) ==> r == Some(old(self)@[seq]) && final(self)@ == old(
                self,
            )@.remove(seq),
            !old(self)@.contains_key(seq) ==> r == None::<u64> && final(self)@ == old(self)@,
    {
        self.entries.remove(&seq)
    }
}

/// The table contents after recording, in order, the first `n` sends
/// `seqs[i]` at times `times[i]` into an initially empty table.
pub open spec fn recorded(seqs: Seq<u64>, times: Seq<u64>, n: int) -> Map<u64, u64>
    recommends
        0 <= n <= seqs.len(),
        times.len() == seqs.len(),
    decreases n,
{
    if n <= 0 {
        Map::empty()
    } else {
        recorded(seqs, times, n - 1).insert(seqs[n - 1], times[n - 1])
    }
}

/// The table contents after taking, in order, the replies numbered
/// `seqs[order[0]], ..., seqs[order[j - 1]]` out of `m`.
pub open spec fn drained(m: Map<u64, u64>, seqs: Seq<u64>, order: Seq<int>, j: int) -> Map<
    u64,
    u64,
>
    recommends
        0 <= j <= order.len(),
    decreases j,
{
    if j <= 0 {
        m
    } else {
        drained(m, seqs, order, j - 1).remove(seqs[order[j - 1]])
    }
}

proof fn lemma_recorded_at(seqs: Seq<u64>, times: Seq<u64>, n: int, i: int)
    requires
        0 <= i < n <= seqs.len(),
        times.len() == seqs.len(),
        seqs.no_duplicates(),
    ensures
        recorded(seqs, times, n).contains_key(seqs[i]),
        recorded(seqs, times, n)[seqs[i]] == times[i],
    decreases n,
{
    if i < n - 1 {
        lemma_recorded_at(seqs, times, n - 1, i);
        assert(seqs[i] != seqs[n - 1]);
    }
}

proof fn lemma_recorded_key(seqs: Seq<u64>, times: Seq<u64>, n: int, s: u64) -> (i: int)
    requires
        0 <= n <= seqs.len(),
        times.len() == seqs.len(),
        recorded(seqs, times, n).contains_key(s),
    ensures
        0 <= i < n,
        seqs[i] == s,
    decreases n,
{
    if s == seqs[n - 1] {
        n - 1
    } else {
        lemma_recorded_key(seqs, times, n - 1, s)
    }
}

proof fn lemma_drained_at(m: Map<u64, u64>, seqs: Seq<u64>, order: Seq<int>, j: int, s: u64)
    requires
        0 <= j <= order.len(),
    ensures
        drained(m, seqs, order, j).contains_key(s) <==> (m.contains_key(s) && !(exists|k: int|
            0 <= k < j && seqs[#[trigger] order[k]] == s)),
        drained(m, seqs, order, j).contains_key(s) ==> drained(m, seqs, order, j)[s] == m[s],
    decreases j,
{
    if j > 0 {
        lemma_drained_at(m, seqs, order, j - 1, s);
        let prev = drained(m, seqs, order, j - 1);
        let cur = drained(m, seqs, order, j);
        if cur.contains_key(s) {
            assert(prev.contains_key(s) && s != seqs[order[j - 1]]);
            assert forall|k: int| 0 <= k < j implies seqs[#[trigger] order[k]] != s by {
                if k < j - 1 {
                    assert(!(exists|k2: int| 0 <= k2 < j - 1 && seqs[#[trigger] order[k2]] == s));
                }
            }
        }
        if m.contains_key(s) && !(exists|k: int| 0 <= k < j && seqs[#[trigger] order[k]] == s) {
            assert forall|k: int| 0 <= k < j - 1 implies seqs[#[trigger] order[k]] != s by {
                assert(0 <= k < j);
            }
            assert(prev.contains_key(s));
            assert(0 <= j - 1 < j);
            assert(seqs[order[j - 1]] != s);
            assert(cur.contains_key(s));
        }
    }
}

/// A duplicate-free index sequence of length `n` with entries in [0, n)
/// mentions every index in that range.
proof fn lemma_order_is_onto(order: Seq<int>, n: int, i: int) -> (k: int)
    requires
        order.no_duplicates(),
        order.len() == n,
        forall|j: int| 0 <= j < n ==> 0 <= #[trigger] order[j] < n,
        0 <= i < n,
    ensures
        0 <= k < n,
        order[k] == i,
{
    order.unique_seq_to_set();
    vstd::set_lib::lemma_int_range(0, n);
    assert(order.to_set().subset_of(vstd::set_lib::set_int_range(0, n))) by {
        assert forall|x: int| order.to_set().contains(x) implies vstd::set_lib::set_int_range(
            0,
            n,
        ).contains(x) by {
            assert(order.contains(x));
            let j = choose|j: int| 0 <= j < order.len() && order[j] == x;
            assert(0 <= order[j] < n);
        }
    }
    vstd::set_lib::lemma_subset_equality(order.to_set(), vstd::set_lib::set_int_range(0, n));
    assert(vstd::set_lib::set_int_range(0, n).contains(i));
    assert(order.to_set().contains(i));
    assert(order.contains(i));
    let k = choose|k: int| 0 <= k < order.len() && order[k] == i;
    k
}

/// Correlation uniqueness: record distinct sequence numbers
/// `seqs[0], ..., seqs[N - 1]` into an empty table, then take the matching
/// replies back out in any order (`order` is a permutation of the indices).
/// Every take finds its entry still present, carrying exactly the timestamp
/// recorded at send time, and once all N replies are processed the table is
/// empty.
pub proof fn lemma_correlation_uniqueness(seqs: Seq<u64>, times: Seq<u64>, order: Seq<int>)
    requires
        seqs.no_duplicates(),
        times.len() == seqs.len(),
        order.len() == seqs.len(),
        order.no_duplicates(),
        forall|j: int| 0 <= j < order.len() ==> 0 <= #[trigger] order[j] < seqs.len(),
    ensures
        forall|j: int|
            0 <= j < order.len() ==> {
                let m = drained(recorded(seqs, times, seqs.len() as int), seqs, order, j);
                &&& m.contains_key(seqs[#[trigger] order[j]])
                &&& m[seqs[order[j]]] == times[order[j]]
            },
        drained(recorded(seqs, times, seqs.len() as int), seqs, order, order.len() as int)
            == Map::<u64, u64>::empty(),
{
    let n = seqs.len() as int;
    let full = recorded(seqs, times, n);
    assert forall|j: int| 0 <= j < order.len() implies {
        let m = drained(full, seqs, order, j);
        &&& m.contains_key(seqs[#[trigger] order[j]])
        &&& m[seqs[order[j]]] == times[order[j]]
    } by {
        let s = seqs[order[j]];
        lemma_recorded_at(seqs, times, n, order[j]);
        lemma_drained_at(full, seqs, order, j, s);
        assert forall|k: int| 0 <= k < j implies seqs[#[trigger] order[k]] != s by {
            assert(order[k] != order[j]);
        }
    }
    let end = drained(full, seqs, order, n);
    assert forall|s: u64| !(#[trigger] end.contains_key(s)) by {
        lemma_drained_at(full, seqs, order, n, s);
        if end.contains_key(s) {
            let i = lemma_recorded_key(seqs, times, n, s);
            let k = lemma_order_is_onto(order, n, i);
            assert(seqs[order[k]] == s);
        }
    }
    assert(end =~= Map::<u64, u64>::empty());
}

} // verus!
