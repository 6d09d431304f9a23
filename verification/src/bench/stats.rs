//! Summaries of measured times.
use vstd::prelude::*;

verus! {

/// How long after a moment another one is, or nothing where it comes before.
pub open spec fn elapsed_of(now: u64, then: u64) -> int {
    if now >= then {
        now - then
    } else {
        0
    }
}

/// How long after a moment another one is, or nothing where it comes before.
pub fn elapsed(now: u64, then: u64) -> (r: u64)
    ensures
        r == elapsed_of(now, then),
{
    if now >= then {
        now - then
    } else {
        0
    }
}

/// The samples in ascending order.
pub open spec fn ascending(samples: Seq<u64>) -> Seq<u64> {
    samples.sort_by(|a: u64, b: u64| a <= b)
}

/// Whether numbers are in ascending order.
pub open spec fn is_ascending(s: Seq<u64>) -> bool {
    forall|i: int, j: int| 0 <= i < j < s.len() ==> s[i] <= s[j]
}

/// There is one way to put samples in ascending order.
proof fn lemma_ascending_is_unique(samples: Seq<u64>, sorted: Seq<u64>)
    requires
        is_ascending(sorted),
        sorted.to_multiset() == samples.to_multiset(),
    ensures
        sorted == ascending(samples),
{
    let leq = |a: u64, b: u64| a <= b;
    assert(vstd::relations::sorted_by(sorted, leq));
    samples.lemma_sort_by_ensures(leq);
    vstd::seq_lib::lemma_sorted_unique(sorted, ascending(samples), leq);
}

/// The order of the samples does not matter, only what they are; as many come
/// out as went in, in ascending order.
pub proof fn law_ascending_keeps_the_samples(samples: Seq<u64>)
    ensures
        is_ascending(ascending(samples)),
        ascending(samples).to_multiset() == samples.to_multiset(),
        ascending(samples).len() == samples.len(),
{
    broadcast use vstd::seq_lib::group_to_multiset_ensures;

    let leq = |a: u64, b: u64| a <= b;
    samples.lemma_sort_by_ensures(leq);
    let s = ascending(samples);
    assert(s.len() == s.to_multiset().len());
    assert(samples.len() == samples.to_multiset().len());
    assert forall|i: int, j: int| 0 <= i < j < s.len() implies s[i] <= s[j] by {
        assert(leq(s[i], s[j]));
    }
}

/// Two ascending lists as one.
fn merge(a: &Vec<u64>, b: &Vec<u64>) -> (r: Vec<u64>)
    requires
        is_ascending(a@),
        is_ascending(b@),
    ensures
        is_ascending(r@),
        r@.to_multiset() == a@.to_multiset().add(b@.to_multiset()),
{
    broadcast use vstd::seq_lib::group_to_multiset_ensures;
    broadcast use vstd::multiset::group_multiset_axioms;

    let mut out: Vec<u64> = Vec::new();
    let mut i: usize = 0;
    let mut j: usize = 0;
    assert(a@.take(0) =~= Seq::<u64>::empty());
    assert(b@.take(0) =~= Seq::<u64>::empty());
    assert(out@.to_multiset() =~= a@.take(0).to_multiset().add(b@.take(0).to_multiset()));
    while i < a.len() || j < b.len()
        invariant
            i <= a@.len(),
            j <= b@.len(),
            is_ascending(a@),
            is_ascending(b@),
            is_ascending(out@),
            out@.to_multiset() == a@.take(i as int).to_multiset().add(
                b@.take(j as int).to_multiset(),
            ),
            out@.len() == i + j,
            out@.len() > 0 && i < a@.len() ==> out@.last() <= a@[i as int],
            out@.len() > 0 && j < b@.len() ==> out@.last() <= b@[j as int],
        decreases a@.len() - i + b@.len() - j,
    {
        broadcast use vstd::seq_lib::group_to_multiset_ensures;
        broadcast use vstd::multiset::group_multiset_axioms;

        let ghost before = out@;
        if i < a.len() && (j >= b.len() || a[i] <= b[j]) {
            assert(a@.take(i + 1) =~= a@.take(i as int).push(a@[i as int]));
            out.push(a[i]);
            i += 1;
        } else {
            assert(b@.take(j + 1) =~= b@.take(j as int).push(b@[j as int]));
            out.push(b[j]);
            j += 1;
        }
        assert(out@.to_multiset() =~= a@.take(i as int).to_multiset().add(
            b@.take(j as int).to_multiset(),
        ));
        assert forall|x: int, y: int| 0 <= x < y < out@.len() implies out@[x] <= out@[y] by {
            if y == before.len() && before.len() > 0 {
                assert(before[x] <= before.last());
            }
        }
    }
    assert(a@.take(i as int) =~= a@);
    assert(b@.take(j as int) =~= b@);
    out
}

/// Numbers in ascending order.
fn sort(v: &[u64]) -> (r: Vec<u64>)
    ensures
        is_ascending(r@),
        r@.to_multiset() == v@.to_multiset(),
    decreases v@.len(),
{
    if v.len() <= 1 {
        return vstd::slice::slice_to_vec(v);
    }
    let half: usize = v.len() / 2;
    let left = sort(vstd::slice::slice_subrange(v, 0, half));
    let right = sort(vstd::slice::slice_subrange(v, half, v.len()));
    proof {
        let l = v@.subrange(0, half as int);
        let r = v@.subrange(half as int, v@.len() as int);
        assert(v@ =~= l + r);
        vstd::seq_lib::lemma_multiset_commutative(l, r);
    }
    merge(&left, &right)
}

/// The samples in ascending order.
pub fn sorted(samples: &[u64]) -> (r: Vec<u64>)
    ensures
        r@ == ascending(samples@),
{
    let r = sort(samples);
    proof {
        lemma_ascending_is_unique(samples@, r@);
    }
    r
}

/// The rank that stands for a percentage of `n` samples: the percentage of
/// the number of samples, rounded up, and at least the first.
pub open spec fn rank_of(pct: int, n: int) -> int {
    let rank = (pct * n + 99) / 100;
    if rank < 1 {
        1
    } else if rank > n {
        n
    } else {
        rank
    }
}

/// The nearest-rank percentile of samples: always one of them.
pub open spec fn percentile_of(samples: Seq<u64>, pct: int) -> u64 {
    ascending(samples)[rank_of(pct, samples.len() as int) - 1]
}

/// The nearest-rank percentile of ascending numbers: half of them for the
/// median, all of them for the largest.
pub fn percentile(sorted: &Vec<u64>, pct: u64) -> (r: u64)
    requires
        sorted@.len() > 0,
        pct <= 100,
    ensures
        r == sorted@[rank_of(pct as int, sorted@.len() as int) - 1],
{
    let n: u128 = sorted.len() as u128;
    assert(pct * n <= 100 * n) by (nonlinear_arith)
        requires
            0 <= pct <= 100,
            0 <= n,
    ;
    let rank: u128 = (pct as u128 * n + 99) / 100;
    let at: u128 = if rank < 1 {
        1
    } else if rank > n {
        n
    } else {
        rank
    };
    sorted[(at - 1) as usize]
}

/// A percentile is one of the samples, at least as many percent of them are
/// no larger, and a larger percentage gives no smaller one.
pub proof fn law_percentile_is_a_sample(samples: Seq<u64>, p: int, q: int)
    requires
        samples.len() > 0,
        0 <= p <= q <= 100,
    ensures
        samples.contains(percentile_of(samples, p)),
        percentile_of(samples, p) <= percentile_of(samples, q),
        rank_of(p, samples.len() as int) * 100 >= p * samples.len(),
{
    law_ascending_keeps_the_samples(samples);
    let s = ascending(samples);
    let n = samples.len() as int;
    assert(p * n <= q * n) by (nonlinear_arith)
        requires
            0 <= p <= q,
            n > 0,
    ;
    assert(0 <= p * n <= 100 * n) by (nonlinear_arith)
        requires
            0 <= p <= 100,
            n > 0,
    ;
    let i = rank_of(p, n) - 1;
    let j = rank_of(q, n) - 1;
    assert(i <= j);
    broadcast use vstd::seq_lib::group_to_multiset_ensures;

    assert(s.contains(s[i]));
    assert(s.to_multiset().count(s[i]) > 0);
    assert(samples.to_multiset().count(s[i]) > 0);
}

/// The sum of samples.
pub open spec fn sum_of(samples: Seq<u64>) -> int
    decreases samples.len(),
{
    if samples.len() == 0 {
        0
    } else {
        sum_of(samples.drop_last()) + samples.last()
    }
}

/// A summary of a set of times in nanoseconds. The average is the total over
/// the count.
#[derive(Debug, Clone, Copy, PartialEq, Eq, Structural)]
pub struct LatencyStats {
    pub count: usize,
    pub total: u128,
    pub median: u64,
    pub p95: u64,
    pub p99: u64,
    pub max: u64,
}

/// The summary of no samples.
pub open spec fn no_stats() -> LatencyStats {
    LatencyStats { count: 0, total: 0, median: 0, p95: 0, p99: 0, max: 0 }
}

/// The summary of samples.
pub open spec fn stats_of(samples: Seq<u64>) -> LatencyStats {
    if samples.len() == 0 {
        no_stats()
    } else {
        LatencyStats {
            count: samples.len() as usize,
            total: sum_of(samples) as u128,
            median: percentile_of(samples, 50),
            p95: percentile_of(samples, 95),
            p99: percentile_of(samples, 99),
            max: percentile_of(samples, 100),
        }
    }
}

impl Default for LatencyStats {
    /// The summary of no samples.
    fn default() -> (r: Self)
        ensures
            r == no_stats(),
    {
        LatencyStats { count: 0, total: 0, median: 0, p95: 0, p99: 0, max: 0 }
    }
}

impl LatencyStats {
    /// The summary of samples.
    pub fn from_samples(samples: &Vec<u64>) -> (r: Self)
        ensures
            r == stats_of(samples@),
    {
        if samples.len() == 0 {
            return LatencyStats { count: 0, total: 0, median: 0, p95: 0, p99: 0, max: 0 };
        }
        assert(samples@.len() == samples.len());
        let mut total: u128 = 0;
        let mut i: usize = 0;
        while i < samples.len()
            invariant
                i <= samples@.len(),
                samples@.len() <= usize::MAX,
                total == sum_of(samples@.take(i as int)),
                total <= i * (u64::MAX as int),
            decreases samples@.len() - i,
        {
            assert(samples@.take(i + 1).drop_last() =~= samples@.take(i as int));
            assert(i * (u64::MAX as int) + u64::MAX == (i + 1) * (u64::MAX as int))
                by (nonlinear_arith);
            assert((i + 1) * (u64::MAX as int) <= u128::MAX) by (nonlinear_arith)
                requires
                    0 <= i + 1 <= u64::MAX,
            ;
            total = total + samples[i] as u128;
            i += 1;
        }
        assert(samples@.take(i as int) =~= samples@);
        proof {
            law_ascending_keeps_the_samples(samples@);
        }
        let order = sorted(samples.as_slice());
        LatencyStats {
            count: samples.len(),
            total,
            median: percentile(&order, 50),
            p95: percentile(&order, 95),
            p99: percentile(&order, 99),
            max: percentile(&order, 100),
        }
    }
}

/// Where the `i`-th visit goes: front, back, front + 1, back - 1, and so on.
pub open spec fn scrambled(n: int, i: int) -> int {
    if i % 2 == 0 {
        i / 2
    } else {
        n - 1 - i / 2
    }
}

/// A visiting order that jumps across the list instead of walking to
/// neighbours, so that what comes next is never cached.
pub fn scrambled_order(n: usize) -> (r: Vec<usize>)
    ensures
        r@.len() == n,
        forall|i: int| 0 <= i < n ==> #[trigger] r@[i] == scrambled(n as int, i),
{
    let mut order: Vec<usize> = Vec::new();
    let mut i: usize = 0;
    while i < n
        invariant
            i <= n,
            order@.len() == i,
            forall|k: int| 0 <= k < i ==> #[trigger] order@[k] == scrambled(n as int, k),
        decreases n - i,
    {
        order.push(if i % 2 == 0 {
            i / 2
        } else {
            n - 1 - i / 2
        });
        i += 1;
    }
    order
}

/// Every place is visited once.
pub proof fn law_scrambled_order_visits_each_once(n: int, place: int)
    requires
        0 <= place < n,
    ensures
        exists|i: int| 0 <= i < n && scrambled(n, i) == place,
        forall|i: int, j: int|
            0 <= i < n && 0 <= j < n && #[trigger] scrambled(n, i) == place && #[trigger] scrambled(
                n,
                j,
            ) == place ==> i == j,
{
    if 2 * place < n {
        assert(scrambled(n, 2 * place) == place);
    } else {
        let i = 2 * (n - 1 - place) + 1;
        assert(scrambled(n, i) == place);
    }
}

/// From an earlier moment to a later one passes their difference.
pub proof fn law_time_passes(then: u64, now: u64)
    ensures
        then <= now ==> then + elapsed_of(now, then) == now,
        now <= then ==> elapsed_of(now, then) == 0,
{
}

/// The rank of a percentage is the smallest that has as many percent of the
/// samples up to it, and one at least.
pub proof fn law_the_rank_is_the_smallest_that_does(pct: int, n: int)
    requires
        0 <= pct <= 100,
        1 <= n,
    ensures
        1 <= rank_of(pct, n) <= n,
        100 * rank_of(pct, n) >= pct * n,
        rank_of(pct, n) == 1 || 100 * (rank_of(pct, n) - 1) < pct * n,
{
    assert(0 <= pct * n <= 100 * n) by (nonlinear_arith)
        requires
            0 <= pct <= 100,
            1 <= n,
    ;
}

/// The summary of samples: as many as there are; a largest one that is a sample
/// and no smaller than any; and of the samples in ascending order the one in the
/// middle, and those that ninety-five and ninety-nine of a hundred do not
/// exceed.
pub proof fn law_the_summary_of_samples(samples: Seq<u64>, i: int)
    requires
        0 <= i < samples.len() <= usize::MAX,
    ensures
        ({
            let s = stats_of(samples);
            let n = samples.len() as int;
            &&& s.count == n
            &&& samples.contains(s.max)
            &&& samples[i] <= s.max
            &&& s.median == ascending(samples)[(n + 1) / 2 - 1]
            &&& s.p95 == ascending(samples)[(95 * n + 99) / 100 - 1]
            &&& s.p99 == ascending(samples)[(99 * n + 99) / 100 - 1]
            &&& s.median <= s.p95 <= s.p99 <= s.max
            &&& s.total == sum_of(samples) as u128
        }),
{
    let n = samples.len() as int;
    let sorted = ascending(samples);
    law_ascending_keeps_the_samples(samples);
    law_percentile_is_a_sample(samples, 50, 95);
    law_percentile_is_a_sample(samples, 95, 99);
    law_percentile_is_a_sample(samples, 99, 100);
    law_percentile_is_a_sample(samples, 100, 100);
    assert(rank_of(50, n) == (n + 1) / 2);
    assert(rank_of(95, n) == (95 * n + 99) / 100);
    assert(rank_of(99, n) == (99 * n + 99) / 100);
    assert(rank_of(100, n) == n);
    broadcast use vstd::seq_lib::group_to_multiset_ensures;

    assert(samples.contains(samples[i]));
    assert(samples.to_multiset().count(samples[i]) > 0);
    assert(sorted.to_multiset().count(samples[i]) > 0);
    assert(sorted.contains(samples[i]));
    let k = choose|k: int| 0 <= k < sorted.len() && sorted[k] == samples[i];
    assert(k < n - 1 ==> sorted[k] <= sorted[n - 1]);
}

/// The sum grows by each sample.
pub proof fn law_samples_add_up(samples: Seq<u64>, more: u64)
    ensures
        sum_of(samples.push(more)) == sum_of(samples) + more,
        sum_of(Seq::<u64>::empty()) == 0,
{
    assert(samples.push(more).drop_last() =~= samples);
}

/// One visit and the next go to opposite ends of what is left: the first to the
/// front, the second to the back, and no two neighbours of the list follow each
/// other while more than two are left.
pub proof fn law_visits_go_far(n: int, i: int)
    requires
        0 <= i,
        i + 1 < n,
    ensures
        scrambled(n, 0) == 0,
        scrambled(n, 1) == n - 1,
        scrambled(n, i) - scrambled(n, i + 1) == n - 1 - i || scrambled(n, i + 1) - scrambled(n, i) == n - 1 - i,
{
}

/// Without samples there is nothing to tell.
pub proof fn law_no_samples_tell_nothing(samples: Seq<u64>)
    requires
        samples.len() == 0,
    ensures
        stats_of(samples).count == 0,
        stats_of(samples).total == 0,
        stats_of(samples).median == 0 && stats_of(samples).p95 == 0 && stats_of(samples).p99 == 0,
        stats_of(samples).max == 0,
{
}

} // verus!
