//! Orderings of candidate dividers, and a stable sort by them.
use vstd::math::abs;
use vstd::prelude::*;

use crate::quantity::{RangedValue, Ratio};
use crate::search::CircuitParameters;

verus! {

/// The two orderings of candidates.
#[derive(Debug, Clone, Copy, PartialEq, Eq, Structural)]
pub enum Ranking {
    /// Ascending by the squared voltage error, then ascending by total
    /// resistance.
    ByError,
    /// Descending by the estimated output current `k · vref`, for the given
    /// typical current gain `k` (a positive-denominator ratio; only its
    /// numerator affects the order).
    ByOutputCurrent(Ratio),
}

/// The key a ranking sorts by, compared lexicographically, smallest first.
pub open spec fn rank_key(ranking: Ranking, p: CircuitParameters) -> (int, int) {
    match ranking {
        Ranking::ByError => (p.vref_error * p.vref_error, p.r1.value + p.r2.value),
        Ranking::ByOutputCurrent(k) => (-(k.num * p.vref.value), 0),
    }
}

/// `a` must come strictly before `b`.
pub open spec fn precedes(ranking: Ranking, a: CircuitParameters, b: CircuitParameters) -> bool {
    let ka = rank_key(ranking, a);
    let kb = rank_key(ranking, b);
    ka.0 < kb.0 || (ka.0 == kb.0 && ka.1 < kb.1)
}

/// No candidate comes strictly before one ahead of it.
pub open spec fn sorted_by(ranking: Ranking, s: Seq<CircuitParameters>) -> bool {
    forall|i: int, j: int| 0 <= i < j < s.len() ==> !precedes(ranking, #[trigger] s[j], #[trigger] s[i])
}

/// Where `x` goes in `s`: after every candidate that it does not precede.
pub open spec fn insert_pos(ranking: Ranking, s: Seq<CircuitParameters>, x: CircuitParameters) -> int
    decreases s.len(),
{
    if s.len() == 0 {
        0
    } else if precedes(ranking, x, s.last()) {
        insert_pos(ranking, s.drop_last(), x)
    } else {
        s.len() as int
    }
}

pub open spec fn insert_by(ranking: Ranking, s: Seq<CircuitParameters>, x: CircuitParameters) -> Seq<
    CircuitParameters,
> {
    s.insert(insert_pos(ranking, s, x), x)
}

/// `s` sorted by `ranking`, stably: equal keys keep their order.
pub open spec fn sort_by(ranking: Ranking, s: Seq<CircuitParameters>) -> Seq<CircuitParameters>
    decreases s.len(),
{
    if s.len() == 0 {
        s
    } else {
        insert_by(ranking, sort_by(ranking, s.drop_last()), s.last())
    }
}

proof fn lemma_insert_pos(ranking: Ranking, s: Seq<CircuitParameters>, x: CircuitParameters)
    ensures
        0 <= insert_pos(ranking, s, x) <= s.len(),
        forall|k: int| insert_pos(ranking, s, x) <= k < s.len() ==> precedes(ranking, x, #[trigger] s[k]),
        insert_pos(ranking, s, x) == 0 || !precedes(ranking, x, s[insert_pos(ranking, s, x) - 1]),
    decreases s.len(),
{
    if s.len() > 0 && precedes(ranking, x, s.last()) {
        let t = s.drop_last();
        lemma_insert_pos(ranking, t, x);
        assert forall|k: int| insert_pos(ranking, s, x) <= k < s.len() implies precedes(ranking, x, #[trigger] s[k]) by {
            if k < t.len() {
                assert(s[k] == t[k]);
            }
        }
        if insert_pos(ranking, s, x) > 0 {
            assert(s[insert_pos(ranking, s, x) - 1] == t[insert_pos(ranking, s, x) - 1]);
        }
    }
}

/// The only position that has every candidate ahead of it not preceded by `x`
/// and every one after it preceded by `x` is `insert_pos`.
proof fn lemma_insert_pos_unique(ranking: Ranking, s: Seq<CircuitParameters>, x: CircuitParameters, j: int)
    requires
        0 <= j <= s.len(),
        forall|k: int| j <= k < s.len() ==> precedes(ranking, x, #[trigger] s[k]),
        j == 0 || !precedes(ranking, x, s[j - 1]),
    ensures
        j == insert_pos(ranking, s, x),
    decreases s.len(),
{
    if s.len() > 0 {
        if precedes(ranking, x, s.last()) {
            assert(j < s.len());
            lemma_insert_pos_unique(ranking, s.drop_last(), x, j);
        } else if j < s.len() {
            assert(precedes(ranking, x, s[s.len() - 1]));
        }
    }
}

proof fn lemma_insert_sorted(ranking: Ranking, s: Seq<CircuitParameters>, x: CircuitParameters)
    requires
        sorted_by(ranking, s),
    ensures
        sorted_by(ranking, insert_by(ranking, s, x)),
{
    lemma_insert_pos(ranking, s, x);
    let p = insert_pos(ranking, s, x);
    let r = insert_by(ranking, s, x);
    assert forall|i: int, j: int| 0 <= i < j < r.len() implies !precedes(ranking, #[trigger] r[j], #[trigger] r[i]) by {
        if j < p {
            assert(r[i] == s[i] && r[j] == s[j]);
        } else if j == p {
            assert(r[i] == s[i]);
            assert(!precedes(ranking, s[p - 1], s[i]) || i == p - 1);
        } else if i == p {
            assert(r[j] == s[j - 1]);
            assert(precedes(ranking, x, s[j - 1]));
        } else if i < p {
            assert(r[i] == s[i] && r[j] == s[j - 1]);
        } else {
            assert(r[i] == s[i - 1] && r[j] == s[j - 1]);
        }
    }
}

/// The stable sort is ordered and holds the same candidates as its input.
pub proof fn lemma_sort_by(ranking: Ranking, s: Seq<CircuitParameters>)
    ensures
        sorted_by(ranking, sort_by(ranking, s)),
        sort_by(ranking, s).to_multiset() == s.to_multiset(),
        sort_by(ranking, s).len() == s.len(),
    decreases s.len(),
{
    broadcast use vstd::seq_lib::group_to_multiset_ensures;

    if s.len() > 0 {
        let t = sort_by(ranking, s.drop_last());
        lemma_sort_by(ranking, s.drop_last());
        lemma_insert_sorted(ranking, t, s.last());
        lemma_insert_pos(ranking, t, s.last());
        vstd::seq_lib::to_multiset_insert(t, insert_pos(ranking, t, s.last()), s.last());
        assert(s.drop_last().push(s.last()) =~= s);
    }
}

/// Whether `a` must come strictly before `b` under `ranking`.
pub fn precedes_exec(ranking: &Ranking, a: &CircuitParameters, b: &CircuitParameters) -> (r: bool)
    ensures
        r == precedes(*ranking, *a, *b),
{
    match ranking {
        Ranking::ByError => {
            let ea = a.vref_error as i128;
            let eb = b.vref_error as i128;
            proof {
                assert(ea * ea <= 0x8000_0000_0000_0000 * 0x8000_0000_0000_0000) by (nonlinear_arith)
                    requires -0x8000_0000_0000_0000 <= ea <= 0x8000_0000_0000_0000;
                assert(eb * eb <= 0x8000_0000_0000_0000 * 0x8000_0000_0000_0000) by (nonlinear_arith)
                    requires -0x8000_0000_0000_0000 <= eb <= 0x8000_0000_0000_0000;
                assert(ea * ea >= 0 && eb * eb >= 0) by (nonlinear_arith);
            }
            let sa = ea * ea;
            let sb = eb * eb;
            let ta = a.r1.value as u128 + a.r2.value as u128;
            let tb = b.r1.value as u128 + b.r2.value as u128;
            sa < sb || (sa == sb && ta < tb)
        },
        Ranking::ByOutputCurrent(k) => {
            proof {
                assert((k.num as int) * (a.vref.value as int) <= u64::MAX * u64::MAX) by (nonlinear_arith)
                    requires 0 <= k.num <= u64::MAX, 0 <= a.vref.value <= u64::MAX;
                assert((k.num as int) * (b.vref.value as int) <= u64::MAX * u64::MAX) by (nonlinear_arith)
                    requires 0 <= k.num <= u64::MAX, 0 <= b.vref.value <= u64::MAX;
            }
            let ia = k.num as u128 * a.vref.value as u128;
            let ib = k.num as u128 * b.vref.value as u128;
            ia > ib
        },
    }
}

/// `candidates` sorted stably by `ranking`.
pub fn rank(ranking: &Ranking, candidates: Vec<CircuitParameters>) -> (r: Vec<CircuitParameters>)
    ensures
        r@ == sort_by(*ranking, candidates@),
        sorted_by(*ranking, r@),
        r@.to_multiset() == candidates@.to_multiset(),
{
    let n = candidates.len();
    let mut out: Vec<CircuitParameters> = Vec::new();
    let mut i: usize = 0;
    while i < n
        invariant
            n == candidates@.len(),
            i <= n,
            out@ == sort_by(*ranking, candidates@.take(i as int)),
        decreases n - i,
    {
        let x = candidates[i];
        let mut j: usize = out.len();
        while j > 0 && precedes_exec(ranking, &x, &out[j - 1])
            invariant
                j <= out@.len(),
                forall|k: int| j <= k < out@.len() ==> precedes(*ranking, x, #[trigger] out@[k]),
            decreases j,
        {
            j = j - 1;
        }
        proof {
            lemma_insert_pos_unique(*ranking, out@, x, j as int);
            assert(candidates@.take(i + 1).drop_last() =~= candidates@.take(i as int));
            assert(candidates@.take(i + 1).last() == x);
        }
        out.insert(j, x);
        i = i + 1;
    }
    proof {
        assert(candidates@.take(n as int) =~= candidates@);
        lemma_sort_by(*ranking, candidates@);
    }
    out
}

/// Stage one of the ranking: smallest voltage error first, then smallest total
/// resistance.
pub fn rank_by_error(candidates: Vec<CircuitParameters>) -> (r: Vec<CircuitParameters>)
    ensures
        r@ == sort_by(Ranking::ByError, candidates@),
        sorted_by(Ranking::ByError, r@),
        r@.to_multiset() == candidates@.to_multiset(),
{
    rank(&Ranking::ByError, candidates)
}

/// Stage two of the ranking: largest estimated output current `k · vref` first,
/// for the typical gain of `k`.
pub fn rank_by_output_current(candidates: Vec<CircuitParameters>, k: &RangedValue<Ratio>) -> (r: Vec<
    CircuitParameters,
>)
    ensures
        r@ == sort_by(Ranking::ByOutputCurrent(k.value), candidates@),
        sorted_by(Ranking::ByOutputCurrent(k.value), r@),
        r@.to_multiset() == candidates@.to_multiset(),
{
    rank(&Ranking::ByOutputCurrent(k.value), candidates)
}

/// After stage one, a candidate whose voltage error is smaller in magnitude
/// stands ahead of one whose error is larger.
pub proof fn lemma_smaller_error_first(candidates: Seq<CircuitParameters>, i: int, j: int)
    requires
        0 <= i < sort_by(Ranking::ByError, candidates).len(),
        0 <= j < sort_by(Ranking::ByError, candidates).len(),
        abs(sort_by(Ranking::ByError, candidates)[i].vref_error as int) < abs(
            sort_by(Ranking::ByError, candidates)[j].vref_error as int,
        ),
    ensures
        i < j,
{
    let r = sort_by(Ranking::ByError, candidates);
    lemma_sort_by(Ranking::ByError, candidates);
    let a = r[i].vref_error as int;
    let b = r[j].vref_error as int;
    assert(a * a < b * b) by (nonlinear_arith)
        requires abs(a) < abs(b);
    assert(precedes(Ranking::ByError, r[i], r[j]));
    if j < i {
        assert(!precedes(Ranking::ByError, r[i], r[j]));
    }
    assert(i != j);
}

} // verus!
