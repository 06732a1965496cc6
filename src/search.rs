//! The search for resistor pairs that form an acceptable voltage divider.
use vstd::prelude::*;

use crate::component::{PassiveComponent, Resistor};
use crate::quantity::{lemma_scaled_bounds, Voltage, MAX_MAGNITUDE};

verus! {

/// Nanoamperes per ampere: a voltage in microvolts over a resistance in
/// micro-ohms is a current in amperes.
pub const NANO: u64 = 1_000_000_000;

/// What a divider must achieve: an output voltage window (microvolts) and a
/// largest current through the divider (nanoamperes).
#[derive(Debug, Clone, Copy, PartialEq, Eq, Structural)]
pub struct Constraint {
    pub voltage: Voltage,
    pub max_current: u64,
}

/// One candidate divider: `r1` on the supply side, `r2` on the ground side, the
/// range of its output voltage, and how far its typical output lies from the
/// target's typical value (microvolts, signed).
#[derive(Debug, Clone, Copy, PartialEq, Eq, Structural)]
pub struct CircuitParameters {
    pub r1: Resistor,
    pub r2: Resistor,
    pub vref: Voltage,
    pub vref_error: i64,
}

/// Where a reference voltage comes from.
#[derive(Debug, Clone, Copy, PartialEq, Eq, Structural)]
pub enum VrefSource {
    Vcc(Voltage),
    Regulator(Voltage),
}

/// A supply voltage the search can work with.
pub open spec fn supply_ok(v: Voltage) -> bool {
    v.value <= MAX_MAGNITUDE
}

/// A constraint the search can work with.
pub open spec fn constraint_ok(c: Constraint) -> bool {
    c.voltage.value <= MAX_MAGNITUDE
}

/// Every resistor of the catalog is usable.
pub open spec fn catalog_ok(cat: Seq<Resistor>) -> bool {
    forall|i: int| 0 <= i < cat.len() ==> (#[trigger] cat[i]).wf()
}

/// The typical output of the divider: `r2 / (r1 + r2) · v_src`, rounded down.
pub open spec fn divider_typical(r1: Resistor, r2: Resistor, v_src: Voltage) -> int {
    (r2.value * v_src.value) as int / (r1.value + r2.value) as int
}

/// The output range of the divider at its worst corners: the highest output has
/// `r2` high, `r1` low and the supply high; the lowest has `r2` low, `r1` high and
/// the supply low. Each is rounded down.
pub open spec fn divider_spec(r1: Resistor, r2: Resistor, v_src: Voltage) -> Voltage {
    Voltage {
        value: divider_typical(r1, r2, v_src) as u64,
        min: ((r2.spec_min() * v_src.min) / (r1.spec_max() + r2.spec_min())) as u64,
        max: ((r2.spec_max() * v_src.max) / (r1.spec_min() + r2.spec_max())) as u64,
    }
}

/// The divider stays within the current limit even with both resistors at their
/// lowest: `v_src / (r1.min + r2.min) ≤ max_current`.
pub open spec fn current_ok(c: Constraint, v_src: Voltage, r1: Resistor, r2: Resistor) -> bool {
    v_src.value * NANO <= c.max_current * (r1.spec_min() + r2.spec_min())
}

/// The pair is accepted: within the current limit, and its typical output lies in
/// the target window.
pub open spec fn pair_accepted(c: Constraint, v_src: Voltage, r1: Resistor, r2: Resistor) -> bool {
    &&& current_ok(c, v_src, r1, r2)
    &&& c.voltage.min <= divider_typical(r1, r2, v_src) <= c.voltage.max
}

/// The candidate made of an accepted pair.
pub open spec fn params_spec(c: Constraint, v_src: Voltage, r1: Resistor, r2: Resistor) -> CircuitParameters {
    let vref = divider_spec(r1, r2, v_src);
    CircuitParameters { r1, r2, vref, vref_error: (vref.value - c.voltage.value) as i64 }
}

/// The candidates with `r1` as the first resistor and the second taken from
/// `seconds`, in its order.
pub open spec fn row(c: Constraint, v_src: Voltage, r1: Resistor, seconds: Seq<Resistor>) -> Seq<
    CircuitParameters,
>
    decreases seconds.len(),
{
    if seconds.len() == 0 {
        seq![]
    } else {
        let before = row(c, v_src, r1, seconds.drop_last());
        if pair_accepted(c, v_src, r1, seconds.last()) {
            before.push(params_spec(c, v_src, r1, seconds.last()))
        } else {
            before
        }
    }
}

/// The candidates with the first resistor taken from `firsts` and the second from
/// `seconds`: first-resistor-major.
pub open spec fn combinations(c: Constraint, v_src: Voltage, firsts: Seq<Resistor>, seconds: Seq<Resistor>) -> Seq<
    CircuitParameters,
>
    decreases firsts.len(),
{
    if firsts.len() == 0 {
        seq![]
    } else {
        combinations(c, v_src, firsts.drop_last(), seconds) + row(c, v_src, firsts.last(), seconds)
    }
}

/// A candidate that meets the constraint: typical output in the window and the
/// current limit kept.
pub open spec fn meets_constraint(c: Constraint, v_src: Voltage, p: CircuitParameters) -> bool {
    &&& c.voltage.min <= p.vref.value <= c.voltage.max
    &&& current_ok(c, v_src, p.r1, p.r2)
}

/// A candidate as the search makes them: it meets the constraint, both resistors
/// are usable, and its highest output does not exceed the supply's highest.
pub open spec fn candidate_ok(c: Constraint, v_src: Voltage, p: CircuitParameters) -> bool {
    &&& meets_constraint(c, v_src, p)
    &&& p.r1.wf()
    &&& p.r2.wf()
    &&& p.vref.max <= v_src.max
}

/// Every candidate of `t` is one of `s`, where `s` holds only good candidates.
pub proof fn lemma_same_candidates(c: Constraint, v_src: Voltage, s: Seq<CircuitParameters>, t: Seq<CircuitParameters>)
    requires
        s.to_multiset() == t.to_multiset(),
        forall|k: int| 0 <= k < s.len() ==> candidate_ok(c, v_src, #[trigger] s[k]),
    ensures
        forall|k: int| 0 <= k < t.len() ==> candidate_ok(c, v_src, #[trigger] t[k]),
{
    broadcast use vstd::seq_lib::group_to_multiset_ensures;

    assert forall|k: int| 0 <= k < t.len() implies candidate_ok(c, v_src, #[trigger] t[k]) by {
        assert(t.contains(t[k]));
        assert(t.to_multiset().count(t[k]) > 0);
        assert(s.contains(t[k]));
    }
}

/// Widening the supply's band while keeping its typical value never narrows the
/// output band of a divider, and leaves its typical output as it is.
pub proof fn lemma_wider_supply_wider_output(r1: Resistor, r2: Resistor, narrow: Voltage, wide: Voltage)
    requires
        r1.wf(),
        r2.wf(),
        wide.value == narrow.value,
        wide.min <= narrow.min,
        narrow.max <= wide.max,
    ensures
        divider_spec(r1, r2, wide).value == divider_spec(r1, r2, narrow).value,
        divider_spec(r1, r2, wide).min <= divider_spec(r1, r2, narrow).min,
        divider_spec(r1, r2, narrow).max <= divider_spec(r1, r2, wide).max,
{
    lemma_scaled_bounds(r1.value as int, r1.tolerance as int);
    lemma_scaled_bounds(r2.value as int, r2.tolerance as int);
    let (a, b) = (r2.spec_min(), r1.spec_max());
    lemma_share_bounded(a, b, narrow.min as int);
    lemma_share_bounded(a, b, wide.min as int);
    lemma_share_bounded_monotone(a, b, wide.min as int, narrow.min as int);
    let (a, b) = (r2.spec_max(), r1.spec_min());
    lemma_share_bounded(a, b, narrow.max as int);
    lemma_share_bounded(a, b, wide.max as int);
    lemma_share_bounded_monotone(a, b, narrow.max as int, wide.max as int);
}

proof fn lemma_share_bounded_monotone(a: int, b: int, v: int, w: int)
    requires
        0 <= a,
        0 <= b,
        a + b > 0,
        0 <= v <= w,
    ensures
        a * v / (a + b) <= a * w / (a + b),
{
    assert(a * v <= a * w) by (nonlinear_arith) requires 0 <= a, v <= w;
    assert(a * v / (a + b) <= a * w / (a + b)) by (nonlinear_arith) requires a * v <= a * w, a + b > 0;
}

proof fn lemma_row_empty(c: Constraint, v_src: Voltage, r1: Resistor, seconds: Seq<Resistor>)
    requires
        forall|j: int| 0 <= j < seconds.len() ==> !current_ok(c, v_src, r1, #[trigger] seconds[j]),
    ensures
        row(c, v_src, r1, seconds).len() == 0,
    decreases seconds.len(),
{
    if seconds.len() > 0 {
        let rest = seconds.drop_last();
        assert forall|j: int| 0 <= j < rest.len() implies !current_ok(c, v_src, r1, #[trigger] rest[j]) by {
            assert(rest[j] == seconds[j]);
        }
        lemma_row_empty(c, v_src, r1, rest);
        assert(!current_ok(c, v_src, r1, seconds[seconds.len() - 1]));
    }
}

/// Where no pair of the catalog keeps within the current limit, the search finds
/// no candidate at all.
pub proof fn lemma_no_pair_within_current(c: Constraint, v_src: Voltage, firsts: Seq<Resistor>, seconds: Seq<Resistor>)
    requires
        forall|i: int, j: int|
            0 <= i < firsts.len() && 0 <= j < seconds.len() ==> !current_ok(
                c,
                v_src,
                #[trigger] firsts[i],
                #[trigger] seconds[j],
            ),
    ensures
        combinations(c, v_src, firsts, seconds).len() == 0,
    decreases firsts.len(),
{
    if firsts.len() > 0 {
        let rest = firsts.drop_last();
        assert forall|i: int, j: int| 0 <= i < rest.len() && 0 <= j < seconds.len() implies !current_ok(
            c,
            v_src,
            #[trigger] rest[i],
            #[trigger] seconds[j],
        ) by {
            assert(rest[i] == firsts[i]);
        }
        lemma_no_pair_within_current(c, v_src, rest, seconds);
        let last = firsts[firsts.len() - 1];
        assert forall|j: int| 0 <= j < seconds.len() implies !current_ok(c, v_src, last, #[trigger] seconds[j]) by {
            assert(!current_ok(c, v_src, firsts[firsts.len() - 1], seconds[j]));
        }
        lemma_row_empty(c, v_src, last, seconds);
    }
}

/// The output range of the divider `r1`, `r2` fed from `v_src`.
pub fn divider_output(r1: &Resistor, r2: &Resistor, v_src: &Voltage) -> (r: Voltage)
    requires
        r1.wf(),
        r2.wf(),
    ensures
        r == divider_spec(*r1, *r2, *v_src),
        r.value <= v_src.value,
        r.min <= v_src.min,
        r.max <= v_src.max,
{
    let r1_min = r1.min() as u128;
    let r1_max = r1.max() as u128;
    let r2_min = r2.min() as u128;
    let r2_max = r2.max() as u128;
    let r1_v = r1.get_value() as u128;
    let r2_v = r2.get_value() as u128;
    proof {
        lemma_scaled_bounds(r1.value as int, r1.tolerance as int);
        lemma_scaled_bounds(r2.value as int, r2.tolerance as int);
        lemma_share_bounded(r2_v as int, r1_v as int, v_src.value as int);
        lemma_share_bounded(r2_min as int, r1_max as int, v_src.min as int);
        lemma_share_bounded(r2_max as int, r1_min as int, v_src.max as int);
    }
    let value = (r2_v * (v_src.value as u128) / (r1_v + r2_v)) as u64;
    let min = (r2_min * (v_src.min as u128) / (r1_max + r2_min)) as u64;
    let max = (r2_max * (v_src.max as u128) / (r1_min + r2_max)) as u64;
    Voltage::new_by_values(value, min, max)
}

/// `a · v / (a + b)` for non-negative `a`, `b` with `a + b > 0` lies in `[0, v]`,
/// and its numerator fits in 128 bits for operands of 64 bits.
proof fn lemma_share_bounded(a: int, b: int, v: int)
    requires
        0 <= a <= 2 * MAX_MAGNITUDE,
        0 <= b <= 2 * MAX_MAGNITUDE,
        a + b > 0,
        0 <= v <= u64::MAX,
    ensures
        0 <= a * v <= u128::MAX,
        0 <= a * v / (a + b) <= v,
{
    assert(0 <= a * v <= (2 * MAX_MAGNITUDE) * u64::MAX) by (nonlinear_arith)
        requires 0 <= a <= 2 * MAX_MAGNITUDE, 0 <= v <= u64::MAX;
    assert(a * v <= (a + b) * v) by (nonlinear_arith) requires 0 <= b, 0 <= v;
    assert((a + b) * v / (a + b) == v) by (nonlinear_arith) requires a + b > 0;
    assert(a * v / (a + b) <= (a + b) * v / (a + b)) by (nonlinear_arith)
        requires a * v <= (a + b) * v, a + b > 0;
    assert(0 <= a * v / (a + b)) by (nonlinear_arith) requires a * v >= 0, a + b > 0;
}

/// Whether the pair `r1`, `r2` is accepted under `constraint` with supply `v_src`.
pub fn is_pair_accepted(constraint: &Constraint, v_src: &Voltage, r1: &Resistor, r2: &Resistor) -> (r: bool)
    requires
        r1.wf(),
        r2.wf(),
    ensures
        r == pair_accepted(*constraint, *v_src, *r1, *r2),
{
    proof {
        lemma_scaled_bounds(r1.value as int, r1.tolerance as int);
        lemma_scaled_bounds(r2.value as int, r2.tolerance as int);
    }
    let sum_min = r1.min() as u128 + r2.min() as u128;
    proof {
        assert((v_src.value as int) * (NANO as int) <= u64::MAX * (NANO as int)) by (nonlinear_arith)
            requires 0 <= v_src.value <= u64::MAX;
        assert((constraint.max_current as int) * (sum_min as int) <= u64::MAX * (4 * MAX_MAGNITUDE))
            by (nonlinear_arith)
            requires 0 <= sum_min <= 4 * MAX_MAGNITUDE, 0 <= constraint.max_current <= u64::MAX;
        lemma_share_bounded(r2.value as int, r1.value as int, v_src.value as int);
    }
    let current_fits = (v_src.value as u128) * (NANO as u128) <= (constraint.max_current as u128) * sum_min;
    let r1_v = r1.get_value() as u128;
    let r2_v = r2.get_value() as u128;
    let vref = r2_v * (v_src.value as u128) / (r1_v + r2_v);
    current_fits && constraint.voltage.min as u128 <= vref && vref <= constraint.voltage.max as u128
}

/// Every ordered pair of resistors from `resistors` (a resistor paired with
/// itself, and both orders of two resistors, included) that is accepted under
/// `constraint` with supply `v_src`, as a candidate: first-resistor-major, in
/// catalog order.
pub fn find_combinations(constraint: Constraint, v_src: Voltage, resistors: Vec<Resistor>) -> (r: Vec<
    CircuitParameters,
>)
    requires
        catalog_ok(resistors@),
        supply_ok(v_src),
        constraint_ok(constraint),
    ensures
        r@ == combinations(constraint, v_src, resistors@, resistors@),
        forall|k: int| 0 <= k < r@.len() ==> meets_constraint(constraint, v_src, #[trigger] r@[k]),
        forall|k: int| 0 <= k < r@.len() ==> candidate_ok(constraint, v_src, #[trigger] r@[k]),
{
    let n = resistors.len();
    let mut out: Vec<CircuitParameters> = Vec::new();
    let mut i: usize = 0;
    while i < n
        invariant
            n == resistors@.len(),
            catalog_ok(resistors@),
            supply_ok(v_src),
            constraint_ok(constraint),
            i <= n,
            out@ == combinations(constraint, v_src, resistors@.take(i as int), resistors@),
            forall|k: int| 0 <= k < out@.len() ==> candidate_ok(constraint, v_src, #[trigger] out@[k]),
        decreases n - i,
    {
        let r1 = resistors[i];
        let ghost done = out@;
        let mut j: usize = 0;
        while j < n
            invariant
                n == resistors@.len(),
                catalog_ok(resistors@),
                supply_ok(v_src),
                constraint_ok(constraint),
                i < n,
                r1 == resistors@[i as int],
                j <= n,
                out@ == done + row(constraint, v_src, r1, resistors@.take(j as int)),
                forall|k: int| 0 <= k < out@.len() ==> candidate_ok(constraint, v_src, #[trigger] out@[k]),
            decreases n - j,
        {
            let r2 = resistors[j];
            proof {
                assert(resistors@.take(j + 1).drop_last() =~= resistors@.take(j as int));
                assert(resistors@.take(j + 1).last() == r2);
                assert(r1.wf() && r2.wf());
            }
            if is_pair_accepted(&constraint, &v_src, &r1, &r2) {
                let vref = divider_output(&r1, &r2, &v_src);
                let vref_error = vref.value as i64 - constraint.voltage.value as i64;
                let p = CircuitParameters { r1, r2, vref, vref_error };
                out.push(p);
                assert(out@ =~= done + row(constraint, v_src, r1, resistors@.take(j + 1)));
            } else {
                assert(out@ =~= done + row(constraint, v_src, r1, resistors@.take(j + 1)));
            }
            j = j + 1;
        }
        proof {
            assert(resistors@.take(i + 1).drop_last() =~= resistors@.take(i as int));
            assert(resistors@.take(i + 1).last() == r1);
            assert(resistors@.take(n as int) =~= resistors@);
        }
        i = i + 1;
    }
    assert(resistors@.take(n as int) =~= resistors@);
    out
}

} // verus!
