//! The whole selection: search, both rankings, the acceptance filters and the
//! final cut to a number of results.
use vstd::prelude::*;

use crate::catalog::{get_resistor_list, standard_resistors};
use crate::component::{PassiveComponent, Resistor};
use crate::quantity::{lemma_scaled_bounds, lowered, raised, RangedValue, Ratio, Voltage, MAX_MAGNITUDE, PPM};
use crate::ranking::{rank_by_error, rank_by_output_current, sort_by, Ranking};
use crate::search::{
    candidate_ok, catalog_ok, combinations, find_combinations, lemma_same_candidates, meets_constraint,
    CircuitParameters, Constraint,
};

verus! {

/// The largest gain, in parts per million, a design may use.
pub const MAX_GAIN: u64 = 1_000_000_000_000;

/// A dimensionless gain in parts per million: typical, lowest and highest.
pub type Gain = RangedValue<u64>;

/// Everything one selection run depends on.
#[derive(Debug, Clone, Copy, PartialEq, Eq)]
pub struct DesignConfig {
    /// The output voltage window, microvolts.
    pub target_voltage: Voltage,
    /// The typical supply voltage, microvolts.
    pub supply_voltage: u64,
    /// How far the supply may deviate either way, parts per million.
    pub supply_tolerance: u64,
    /// The largest current through the divider, nanoamperes.
    pub max_current: u64,
    /// The tolerance of every catalog resistor, parts per million.
    pub resistor_tolerance: u64,
    /// The current-sense resistor.
    pub sense_resistor: Resistor,
    /// The gain ratio of the current stage, parts per million.
    pub gain: Gain,
    /// The largest output current allowed, nanoamperes.
    pub output_current_limit: u64,
    /// The smallest total resistance of a divider at its lowest, micro-ohms.
    pub resistance_floor: u64,
    /// The largest total resistance of a divider at its highest, micro-ohms.
    pub resistance_ceiling: u64,
    /// How many designs to return at most.
    pub result_limit: usize,
}

/// A configuration the selection can work with.
pub open spec fn config_ok(cfg: DesignConfig) -> bool {
    &&& cfg.target_voltage.value <= MAX_MAGNITUDE
    &&& cfg.supply_voltage <= MAX_MAGNITUDE
    &&& cfg.supply_tolerance <= PPM
    &&& cfg.resistor_tolerance <= PPM
    &&& cfg.sense_resistor.wf()
    &&& cfg.gain.max <= MAX_GAIN
}

/// Whether `cfg` is a configuration the selection can work with.
pub fn config_values_fit(cfg: &DesignConfig) -> (r: bool)
    ensures
        r == config_ok(*cfg),
{
    let sense = &cfg.sense_resistor;
    cfg.target_voltage.value <= MAX_MAGNITUDE && cfg.supply_voltage <= MAX_MAGNITUDE && cfg.supply_tolerance
        <= PPM && cfg.resistor_tolerance <= PPM && 0 < sense.value && sense.value <= MAX_MAGNITUDE
        && sense.tolerance <= PPM && cfg.gain.max <= MAX_GAIN
}

pub open spec fn constraint_of(cfg: DesignConfig) -> Constraint {
    Constraint { voltage: cfg.target_voltage, max_current: cfg.max_current }
}

pub open spec fn supply_of(cfg: DesignConfig) -> Voltage {
    Voltage {
        value: cfg.supply_voltage,
        min: lowered(cfg.supply_voltage as int, cfg.supply_tolerance as int) as u64,
        max: raised(cfg.supply_voltage as int, cfg.supply_tolerance as int) as u64,
    }
}

/// The current gain `k = gain / sense` in siemens, at its worst corners: the
/// lowest gain over the highest sense resistance, and the highest gain over the
/// lowest.
pub open spec fn current_gain_spec(gain: Gain, sense: Resistor) -> RangedValue<Ratio> {
    RangedValue {
        value: Ratio { num: gain.value, den: sense.value },
        min: Ratio { num: gain.min, den: sense.spec_max() as u64 },
        max: Ratio { num: gain.max, den: sense.spec_min() as u64 },
    }
}

/// A candidate survives the acceptance filters: its highest output stays in the
/// target window, its highest output current `k.max · vref.max` stays within the
/// limit, and its total resistance stays above the floor at its lowest and below
/// the ceiling at its highest.
pub open spec fn passes_filters(cfg: DesignConfig, k: RangedValue<Ratio>, p: CircuitParameters) -> bool {
    &&& p.vref.max <= cfg.target_voltage.max
    &&& k.max.num * p.vref.max * 1000 <= cfg.output_current_limit * k.max.den
    &&& p.r1.spec_min() + p.r2.spec_min() >= cfg.resistance_floor
    &&& p.r1.spec_max() + p.r2.spec_max() <= cfg.resistance_ceiling
}

/// The candidates of `s` that pass the filters, in order.
pub open spec fn kept(cfg: DesignConfig, k: RangedValue<Ratio>, s: Seq<CircuitParameters>) -> Seq<
    CircuitParameters,
>
    decreases s.len(),
{
    if s.len() == 0 {
        s
    } else if passes_filters(cfg, k, s.last()) {
        kept(cfg, k, s.drop_last()).push(s.last())
    } else {
        kept(cfg, k, s.drop_last())
    }
}

/// The first `n` candidates of `s`, or all of them where `s` holds fewer.
pub open spec fn truncated(s: Seq<CircuitParameters>, n: int) -> Seq<CircuitParameters> {
    if s.len() <= n {
        s
    } else {
        s.take(n)
    }
}

/// The designs selected from `catalog`: the accepted pairs, ranked by error and
/// then by output current, filtered, and cut to the result limit.
pub open spec fn selection(cfg: DesignConfig, catalog: Seq<Resistor>) -> Seq<CircuitParameters> {
    let k = current_gain_spec(cfg.gain, cfg.sense_resistor);
    let found = combinations(constraint_of(cfg), supply_of(cfg), catalog, catalog);
    let ranked = sort_by(Ranking::ByOutputCurrent(k.value), sort_by(Ranking::ByError, found));
    truncated(kept(cfg, k, ranked), cfg.result_limit as int)
}

/// The current gain of a stage with gain ratio `gain` and sense resistor `sense`.
pub fn current_gain(gain: &Gain, sense: &Resistor) -> (r: RangedValue<Ratio>)
    requires
        sense.wf(),
    ensures
        r == current_gain_spec(*gain, *sense),
{
    let typical = Ratio { num: gain.get_typical_value(), den: sense.get_value() };
    let lowest = Ratio { num: gain.get_min(), den: sense.max() };
    let highest = Ratio { num: gain.get_max(), den: sense.min() };
    RangedValue::new(typical, lowest, highest)
}

/// The output current `k · v` in nanoamperes, rounded down, for a gain `k` in
/// siemens and a voltage `v` in microvolts.
pub fn output_current(k: &Ratio, v: u64) -> (r: u128)
    requires
        k.den > 0,
        k.num <= MAX_GAIN,
        v <= 2 * MAX_MAGNITUDE,
    ensures
        r == (k.num as int) * (v as int) * 1000 / (k.den as int),
{
    proof {
        assert(k.num * v * 1000 <= MAX_GAIN * (2 * MAX_MAGNITUDE) * 1000) by (nonlinear_arith)
            requires k.num <= MAX_GAIN, v <= 2 * MAX_MAGNITUDE;
    }
    (k.num as u128) * (v as u128) * 1000 / (k.den as u128)
}

/// Whether candidate `p` survives the acceptance filters.
pub fn passes_filters_exec(cfg: &DesignConfig, k: &RangedValue<Ratio>, p: &CircuitParameters) -> (r: bool)
    requires
        p.r1.wf(),
        p.r2.wf(),
        p.vref.max <= 2 * MAX_MAGNITUDE,
        k.max.num <= MAX_GAIN,
    ensures
        r == passes_filters(*cfg, *k, *p),
{
    proof {
        lemma_scaled_bounds(p.r1.value as int, p.r1.tolerance as int);
        lemma_scaled_bounds(p.r2.value as int, p.r2.tolerance as int);
        assert(k.max.num * p.vref.max * 1000 <= MAX_GAIN * (2 * MAX_MAGNITUDE) * 1000) by (nonlinear_arith)
            requires k.max.num <= MAX_GAIN, p.vref.max <= 2 * MAX_MAGNITUDE;
        assert(cfg.output_current_limit * k.max.den <= u64::MAX * u64::MAX) by (nonlinear_arith)
            requires cfg.output_current_limit <= u64::MAX, k.max.den <= u64::MAX;
    }
    let within_window = p.vref.max() <= cfg.target_voltage.max();
    let current = (k.max.num as u128) * (p.vref.max as u128) * 1000;
    let within_current = current <= (cfg.output_current_limit as u128) * (k.max.den as u128);
    let lowest = p.r1.min() as u128 + p.r2.min() as u128;
    let highest = p.r1.max() as u128 + p.r2.max() as u128;
    within_window && within_current && lowest >= cfg.resistance_floor as u128 && highest
        <= cfg.resistance_ceiling as u128
}

/// The designs selected from `resistors` under `cfg`: every accepted pair, ranked
/// by voltage error and then by estimated output current (largest first; equal
/// estimates keep their error order), filtered by the acceptance rules, and cut
/// to at most `cfg.result_limit` designs.
pub fn select_designs(cfg: &DesignConfig, resistors: Vec<Resistor>) -> (r: Vec<CircuitParameters>)
    requires
        config_ok(*cfg),
        catalog_ok(resistors@),
    ensures
        r@ == selection(*cfg, resistors@),
        r@.len() <= cfg.result_limit,
        forall|i: int|
            0 <= i < r@.len() ==> {
                &&& meets_constraint(constraint_of(*cfg), supply_of(*cfg), #[trigger] r@[i])
                &&& passes_filters(*cfg, current_gain_spec(cfg.gain, cfg.sense_resistor), r@[i])
            },
{
    let constraint = Constraint { voltage: cfg.target_voltage, max_current: cfg.max_current };
    let v_src = Voltage::new_by_allowance(cfg.supply_voltage, cfg.supply_tolerance);
    proof {
        lemma_scaled_bounds(cfg.supply_voltage as int, cfg.supply_tolerance as int);
        assert(v_src == supply_of(*cfg));
    }
    let found = find_combinations(constraint, v_src, resistors);
    let by_error = rank_by_error(found);
    let k = current_gain(&cfg.gain, &cfg.sense_resistor);
    let ranked = rank_by_output_current(by_error, &k);
    proof {
        lemma_same_candidates(constraint, v_src, found@, by_error@);
        lemma_same_candidates(constraint, v_src, by_error@, ranked@);
    }
    let limit = cfg.result_limit;
    let mut out: Vec<CircuitParameters> = Vec::new();
    let mut i: usize = 0;
    while i < ranked.len()
        invariant
            config_ok(*cfg),
            k == current_gain_spec(cfg.gain, cfg.sense_resistor),
            limit == cfg.result_limit,
            v_src == supply_of(*cfg),
            constraint == constraint_of(*cfg),
            v_src.max <= 2 * MAX_MAGNITUDE,
            forall|j: int| 0 <= j < ranked@.len() ==> candidate_ok(constraint, v_src, #[trigger] ranked@[j]),
            i <= ranked@.len(),
            out@ == truncated(kept(*cfg, k, ranked@.take(i as int)), limit as int),
            out@.len() <= limit,
            forall|j: int|
                0 <= j < out@.len() ==> {
                    &&& meets_constraint(constraint, v_src, #[trigger] out@[j])
                    &&& passes_filters(*cfg, k, out@[j])
                },
        decreases ranked@.len() - i,
    {
        let p = ranked[i];
        let ghost before = kept(*cfg, k, ranked@.take(i as int));
        proof {
            assert(ranked@.take(i + 1).drop_last() =~= ranked@.take(i as int));
            assert(ranked@.take(i + 1).last() == p);
            assert(candidate_ok(constraint, v_src, ranked@[i as int]));
        }
        if passes_filters_exec(cfg, &k, &p) {
            if out.len() < limit {
                out.push(p);
                assert(out@ =~= truncated(before.push(p), limit as int));
            } else {
                assert(truncated(before.push(p), limit as int) =~= truncated(before, limit as int));
            }
        }
        i = i + 1;
    }
    proof {
        assert(ranked@.take(ranked@.len() as int) =~= ranked@);
    }
    out
}

/// The designs selected under `cfg` from the standard catalog of 144 resistors of
/// tolerance `cfg.resistor_tolerance`.
pub fn run_pipeline(cfg: &DesignConfig) -> (r: Vec<CircuitParameters>)
    requires
        config_ok(*cfg),
    ensures
        r@ == selection(*cfg, standard_resistors(cfg.resistor_tolerance)),
        r@.len() <= cfg.result_limit,
        forall|i: int|
            0 <= i < r@.len() ==> {
                &&& meets_constraint(constraint_of(*cfg), supply_of(*cfg), #[trigger] r@[i])
                &&& passes_filters(*cfg, current_gain_spec(cfg.gain, cfg.sense_resistor), r@[i])
            },
{
    let resistors = get_resistor_list(cfg.resistor_tolerance);
    proof {
        assert forall|j: int| 0 <= j < resistors@.len() implies (#[trigger] resistors@[j]).wf() by {
            assert(resistors@[j].wf());
        }
    }
    select_designs(cfg, resistors)
}

/// The selection is a function of the configuration and the catalog alone: two
/// runs with the same configuration select the same designs in the same order.
pub proof fn lemma_selection_deterministic(a: DesignConfig, b: DesignConfig)
    requires
        a == b,
    ensures
        selection(a, standard_resistors(a.resistor_tolerance)) == selection(
            b,
            standard_resistors(b.resistor_tolerance),
        ),
{
}

} // verus!
