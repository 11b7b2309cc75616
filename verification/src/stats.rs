//! Rolling timing statistics (min, max, median, 95th percentile) over
//! millisecond samples.

use vstd::prelude::*;
use vstd::relations::{sorted_by, total_ordering};
use vstd::seq_lib::{group_to_multiset_ensures, lemma_sorted_unique};

verus! {

/// Numeric order on samples.
pub open spec fn u64_leq() -> spec_fn(u64, u64) -> bool {
    |a: u64, b: u64| a <= b
}

/// The samples in ascending order.
pub open spec fn sorted_samples(s: Seq<u64>) -> Seq<u64> {
    s.sort_by(u64_leq())
}

/// Sum of the samples.
pub open spec fn seq_sum(s: Seq<u64>) -> nat
    decreases s.len(),
{
    if s.len() == 0 {
        0
    } else {
        seq_sum(s.drop_last()) + s.last() as nat
    }
}

/// Index of the 95th percentile in `n` sorted samples:
/// `ceil(0.95 * n) - 1`, clamped to `0..n`.
pub open spec fn p95_index(n: nat) -> nat {
    let c = (95 * n + 99) / 100;
    let i = if c >= 1 {
        (c - 1) as nat
    } else {
        0nat
    };
    if i < n {
        i
    } else {
        (n - 1) as nat
    }
}

/// Median of sorted samples: the middle one, or the floor of the mean of
/// the two middle ones.
pub open spec fn median_of_sorted(s: Seq<u64>) -> u64 {
    let n = s.len();
    if n % 2 == 1 {
        s[(n / 2) as int]
    } else {
        ((s[(n / 2 - 1) as int] as nat + s[(n / 2) as int] as nat) / 2) as u64
    }
}

/// Summary of a window of per-job durations.
#[derive(Clone, Debug, Default, PartialEq, Eq)]
pub struct StageTimingStats {
    pub sample_count: usize,
    pub min_ms: Option<u64>,
    pub max_ms: Option<u64>,
    /// Sum of the samples; the arithmetic mean is `sum_ms / sample_count`.
    pub sum_ms: Option<u128>,
    pub p50_ms: Option<u64>,
    pub p95_ms: Option<u64>,
}

/// The statistics of a list of samples: all `None` (count 0) when empty.
pub open spec fn summary_spec(s: Seq<u64>) -> StageTimingStats {
    if s.len() == 0 {
        StageTimingStats {
            sample_count: 0,
            min_ms: None,
            max_ms: None,
            sum_ms: None,
            p50_ms: None,
            p95_ms: None,
        }
    } else {
        let t = sorted_samples(s);
        StageTimingStats {
            sample_count: s.len() as usize,
            min_ms: Some(t[0]),
            max_ms: Some(t[s.len() - 1]),
            sum_ms: Some(seq_sum(s) as u128),
            p50_ms: Some(median_of_sorted(t)),
            p95_ms: Some(t[p95_index(s.len()) as int]),
        }
    }
}

proof fn lemma_leq_total()
    ensures
        total_ordering(u64_leq()),
{
}

proof fn lemma_sum_bound(s: Seq<u64>)
    ensures
        seq_sum(s) <= s.len() * 0xffff_ffff_ffff_ffff,
    decreases s.len(),
{
    if s.len() > 0 {
        lemma_sum_bound(s.drop_last());
    }
}

proof fn lemma_sum_prefix(s: Seq<u64>, i: int)
    requires
        0 <= i <= s.len(),
    ensures
        seq_sum(s.subrange(0, i)) <= seq_sum(s),
    decreases s.len() - i,
{
    if i < s.len() {
        lemma_sum_prefix(s, i + 1);
        assert(s.subrange(0, i + 1).drop_last() =~= s.subrange(0, i));
    } else {
        assert(s.subrange(0, i) =~= s);
    }
}

/// The samples in ascending order (insertion sort).
pub fn sort_samples(v: &Vec<u64>) -> (r: Vec<u64>)
    ensures
        r@ == sorted_samples(v@),
{
    broadcast use group_to_multiset_ensures;

    let mut r: Vec<u64> = Vec::new();
    let mut i: usize = 0;
    while i < v.len()
        invariant
            i <= v@.len(),
            sorted_by(r@, u64_leq()),
            r@.to_multiset() == v@.subrange(0, i as int).to_multiset(),
        decreases v@.len() - i,
    {
        let x = v[i];
        let mut k: usize = 0;
        while k < r.len() && r[k] <= x
            invariant
                k <= r@.len(),
                forall|j: int| 0 <= j < k ==> r@[j] <= x,
            decreases r@.len() - k,
        {
            k = k + 1;
        }
        let ghost before = r@;
        r.insert(k, x);
        proof {
            before.insert_ensures(k as int, x);
            assert forall|a: int, b: int| 0 <= a < b < r@.len() implies #[trigger] (u64_leq())(
                r@[a],
                r@[b],
            ) by {
                if b < k {
                    assert((u64_leq())(before[a], before[b]));
                } else if b == k {
                } else if a < k {
                    assert(r@[b] == before[b - 1]);
                    if k < before.len() {
                        assert((u64_leq())(before[k as int], before[b - 1]));
                    }
                } else if a == k {
                    assert(r@[b] == before[b - 1]);
                    assert((u64_leq())(before[k as int], before[b - 1]));
                } else {
                    assert((u64_leq())(before[a - 1], before[b - 1]));
                }
            }
            assert(v@.subrange(0, i as int + 1) =~= v@.subrange(0, i as int).push(x));
            vstd::seq_lib::to_multiset_insert(before, k as int, x);
            vstd::seq_lib::to_multiset_build(v@.subrange(0, i as int), x);
            assert(r@.to_multiset() == before.to_multiset().insert(x));
            assert(v@.subrange(0, i as int).push(x).to_multiset() == v@.subrange(
                0,
                i as int,
            ).to_multiset().insert(x));
        }
        i = i + 1;
    }
    proof {
        assert(v@.subrange(0, v@.len() as int) =~= v@);
        lemma_leq_total();
        v@.lemma_sort_by_ensures(u64_leq());
        lemma_sorted_unique(r@, sorted_samples(v@), u64_leq());
    }
    r
}

/// Summarizes a window of samples. Minimum, median, 95th percentile and
/// maximum come in increasing order, and any reordering of the samples gives
/// the same summary.
pub fn summarize_ms(samples: &Vec<u64>) -> (st: StageTimingStats)
    ensures
        st == summary_spec(samples@),
        samples@.len() > 0 ==> {
            &&& st.min_ms.unwrap() <= st.p50_ms.unwrap()
            &&& st.p50_ms.unwrap() <= st.p95_ms.unwrap()
            &&& st.p95_ms.unwrap() <= st.max_ms.unwrap()
        },
        forall|t: Seq<u64>|
            t.to_multiset() == samples@.to_multiset() ==> #[trigger] summary_spec(t) == st,
{
    proof {
        assert forall|t: Seq<u64>| t.to_multiset() == samples@.to_multiset() implies #[trigger] summary_spec(
            t,
        ) == summary_spec(samples@) by {
            lemma_summary_ignores_order(samples@, t);
        }
        if samples@.len() > 0 {
            lemma_summary_ordered(samples@);
        }
    }
    let n = samples.len();
    if n == 0 {
        return StageTimingStats {
            sample_count: 0,
            min_ms: None,
            max_ms: None,
            sum_ms: None,
            p50_ms: None,
            p95_ms: None,
        };
    }
    let mut sum: u128 = 0;
    let mut i: usize = 0;
    proof {
        lemma_sum_bound(samples@);
        assert(samples@.len() * 0xffff_ffff_ffff_ffff <= u128::MAX) by (nonlinear_arith)
            requires
                samples@.len() <= usize::MAX,
        ;
    }
    while i < n
        invariant
            n == samples@.len(),
            i <= n,
            sum == seq_sum(samples@.subrange(0, i as int)),
            seq_sum(samples@) <= u128::MAX,
        decreases n - i,
    {
        proof {
            lemma_sum_prefix(samples@, i as int + 1);
            assert(samples@.subrange(0, i as int + 1).drop_last() =~= samples@.subrange(
                0,
                i as int,
            ));
        }
        sum = sum + samples[i] as u128;
        i = i + 1;
    }
    proof {
        assert(samples@.subrange(0, n as int) =~= samples@);
    }
    let s = sort_samples(samples);
    proof {
        lemma_leq_total();
        samples@.lemma_sort_by_ensures(u64_leq());
        assert(s@.len() == n) by {
            broadcast use group_to_multiset_ensures;

            assert(s@.to_multiset().len() == samples@.to_multiset().len());
        }
    }
    let p50 = if n % 2 == 1 {
        s[n / 2]
    } else {
        let a = s[n / 2 - 1];
        let b = s[n / 2];
        a / 2 + b / 2 + (a % 2 + b % 2) / 2
    };
    let c = (95 * (n as u128) + 99) / 100;
    let pi: usize = if c >= 1 {
        (c - 1) as usize
    } else {
        0
    };
    let pi = if pi < n {
        pi
    } else {
        n - 1
    };
    StageTimingStats {
        sample_count: n,
        min_ms: Some(s[0]),
        max_ms: Some(s[n - 1]),
        sum_ms: Some(sum),
        p50_ms: Some(p50),
        p95_ms: Some(s[pi]),
    }
}

proof fn lemma_sum_remove(b: Seq<u64>, j: int)
    requires
        0 <= j < b.len(),
    ensures
        seq_sum(b) == seq_sum(b.remove(j)) + b[j],
    decreases b.len(),
{
    if j == b.len() - 1 {
        assert(b.remove(j) =~= b.drop_last());
    } else {
        lemma_sum_remove(b.drop_last(), j);
        assert(b.remove(j).drop_last() =~= b.drop_last().remove(j));
        assert(b.remove(j).last() == b.last());
    }
}

proof fn lemma_sum_perm(a: Seq<u64>, b: Seq<u64>)
    requires
        a.to_multiset() == b.to_multiset(),
    ensures
        seq_sum(a) == seq_sum(b),
    decreases a.len(),
{
    broadcast use group_to_multiset_ensures;
    broadcast use vstd::multiset::group_multiset_axioms;

    if a.len() == 0 {
        assert(b.to_multiset().len() == 0);
        assert(b.len() == 0);
    } else {
        let x = a.last();
        let p = a.drop_last();
        assert(a =~= p.push(x));
        assert(a.to_multiset() =~= p.to_multiset().insert(x));
        assert(b.to_multiset().count(x) > 0);
        assert(b.contains(x));
        let j = choose|j: int| 0 <= j < b.len() && b[j] == x;
        assert(b.remove(j).to_multiset() =~= b.to_multiset().remove(x));
        assert(p.to_multiset().insert(x).remove(x) =~= p.to_multiset());
        lemma_sum_perm(p, b.remove(j));
        lemma_sum_remove(b, j);
    }
}

/// The summary depends only on which samples there are, not on their
/// order: two windows holding the same samples summarize alike.
pub proof fn lemma_summary_ignores_order(a: Seq<u64>, b: Seq<u64>)
    requires
        a.to_multiset() == b.to_multiset(),
    ensures
        summary_spec(a) == summary_spec(b),
{
    broadcast use group_to_multiset_ensures;

    lemma_leq_total();
    a.lemma_sort_by_ensures(u64_leq());
    b.lemma_sort_by_ensures(u64_leq());
    lemma_sorted_unique(sorted_samples(a), sorted_samples(b), u64_leq());
    lemma_sum_perm(a, b);
    assert(a.len() == a.to_multiset().len());
    assert(b.len() == b.to_multiset().len());
}

/// The lesser of two optional minima (a missing one is ignored).
pub open spec fn opt_min(a: Option<u64>, b: Option<u64>) -> Option<u64> {
    match (a, b) {
        (Some(x), Some(y)) => Some(if x <= y { x } else { y }),
        (Some(x), None) => Some(x),
        (None, y) => y,
    }
}

/// The greater of two optional maxima (a missing one is ignored).
pub open spec fn opt_max(a: Option<u64>, b: Option<u64>) -> Option<u64> {
    match (a, b) {
        (Some(x), Some(y)) => Some(if x >= y { x } else { y }),
        (Some(x), None) => Some(x),
        (None, y) => y,
    }
}

/// The minimum and maximum of two windows taken together are the lesser
/// minimum and the greater maximum of the two: no sample is lost.
pub proof fn lemma_min_max_of_concat(a: Seq<u64>, b: Seq<u64>)
    ensures
        summary_spec(a + b).min_ms == opt_min(summary_spec(a).min_ms, summary_spec(b).min_ms),
        summary_spec(a + b).max_ms == opt_max(summary_spec(a).max_ms, summary_spec(b).max_ms),
{
    if a.len() == 0 {
        assert(a + b =~= b);
    } else if b.len() == 0 {
        assert(a + b =~= a);
    } else {
        let c = a + b;
        lemma_summary_ordered(a);
        lemma_summary_ordered(b);
        lemma_summary_ordered(c);
        let ma = summary_spec(a).min_ms.unwrap();
        let mb = summary_spec(b).min_ms.unwrap();
        let m = summary_spec(c).min_ms.unwrap();
        let xa = summary_spec(a).max_ms.unwrap();
        let xb = summary_spec(b).max_ms.unwrap();
        let x = summary_spec(c).max_ms.unwrap();
        let ia = choose|i: int| 0 <= i < a.len() && a[i] == ma;
        let ib = choose|i: int| 0 <= i < b.len() && b[i] == mb;
        let ja = choose|i: int| 0 <= i < a.len() && a[i] == xa;
        let jb = choose|i: int| 0 <= i < b.len() && b[i] == xb;
        assert(c[ia] == ma && c[a.len() + ib] == mb);
        assert(c[ja] == xa && c[a.len() + jb] == xb);
        let i = choose|i: int| 0 <= i < c.len() && c[i] == m;
        if i < a.len() {
            assert(a[i] == m);
        } else {
            assert(b[i - a.len()] == m);
        }
        let j = choose|j: int| 0 <= j < c.len() && c[j] == x;
        if j < a.len() {
            assert(a[j] == x);
        } else {
            assert(b[j - a.len()] == x);
        }
    }
}

/// The summary is ordered: minimum, median, 95th percentile and maximum
/// never decrease in that order, and the minimum and maximum are samples.
pub proof fn lemma_summary_ordered(s: Seq<u64>)
    requires
        s.len() > 0,
    ensures
        summary_spec(s).min_ms.unwrap() <= summary_spec(s).p50_ms.unwrap(),
        summary_spec(s).p50_ms.unwrap() <= summary_spec(s).p95_ms.unwrap(),
        summary_spec(s).p95_ms.unwrap() <= summary_spec(s).max_ms.unwrap(),
        s.contains(summary_spec(s).min_ms.unwrap()),
        s.contains(summary_spec(s).max_ms.unwrap()),
        forall|i: int| 0 <= i < s.len() ==> summary_spec(s).min_ms.unwrap() <= #[trigger] s[i],
        forall|i: int| 0 <= i < s.len() ==> #[trigger] s[i] <= summary_spec(s).max_ms.unwrap(),
{
    broadcast use group_to_multiset_ensures;
    broadcast use vstd::multiset::group_multiset_axioms;

    lemma_leq_total();
    s.lemma_sort_by_ensures(u64_leq());
    let t = sorted_samples(s);
    let n = s.len();
    assert(t.to_multiset().len() == s.to_multiset().len());
    assert(t.len() == n);
    assert((u64_leq())(t[0], t[(n / 2) as int]) || n / 2 == 0);
    if n % 2 == 0 {
        assert((u64_leq())(t[0], t[(n / 2 - 1) as int]) || n / 2 - 1 == 0);
        assert((u64_leq())(t[0], t[(n / 2) as int]));
    }
    assert((u64_leq())(t[p95_index(n) as int], t[n - 1]) || p95_index(n) == n - 1);
    assert(p95_index(n) >= n / 2) by {
        if n >= 2 {
            assert((95 * n + 99) / 100 >= n / 2 + 1);
        }
    }
    assert((u64_leq())(t[(n / 2) as int], t[p95_index(n) as int]) || n / 2 == p95_index(n));
    if n % 2 == 0 {
        assert((u64_leq())(t[(n / 2 - 1) as int], t[(n / 2) as int]));
    }
    assert(t.contains(t[0]));
    assert(t.contains(t[n - 1]));
    assert forall|i: int| 0 <= i < n implies t[0] <= #[trigger] s[i] && s[i] <= t[n - 1] by {
        assert(s.to_multiset().count(s[i]) > 0);
        assert(t.contains(s[i]));
        let j = choose|j: int| 0 <= j < n && t[j] == s[i];
        assert((u64_leq())(t[0], t[j]) || j == 0);
        assert((u64_leq())(t[j], t[n - 1]) || j == n - 1);
    }
}

} // verus!
