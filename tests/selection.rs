use vdivider::component::{PassiveComponent, Resistor};
use vdivider::design::{current_gain, output_current, passes_filters_exec, run_pipeline, select_designs, DesignConfig, Gain};
use vdivider::prefix::{prefixed_for_resistance, UnitPrefix};
use vdivider::quantity::{Ratio, Voltage};
use vdivider::ranking::{precedes_exec, rank_by_error, rank_by_output_current, Ranking};
use vdivider::search::CircuitParameters;

fn config() -> DesignConfig {
    DesignConfig {
        target_voltage: Voltage::new_by_values(2_000_000, 500_000, 4_000_000),
        supply_voltage: 5_000_000,
        supply_tolerance: 50_000,
        max_current: 500_000,
        resistor_tolerance: 10_000,
        sense_resistor: <Resistor as PassiveComponent>::new(470_000, 10_000),
        gain: Gain::new(200_000, 192_308, 208_333),
        output_current_limit: 1_900_000_000,
        resistance_floor: 10_000_000_000,
        resistance_ceiling: 120_000_000_000,
        result_limit: 10,
    }
}

fn candidate(r1: u64, r2: u64, vref: u64, err: i64) -> CircuitParameters {
    CircuitParameters {
        r1: <Resistor as PassiveComponent>::new(r1, 10_000),
        r2: <Resistor as PassiveComponent>::new(r2, 10_000),
        vref: Voltage::new_by_values(vref, vref, vref),
        vref_error: err,
    }
}

#[test]
fn end_to_end_scenario() {
    let result = run_pipeline(&config());
    assert!(!result.is_empty());
    assert!(result.len() <= 10);
    for p in &result {
        assert!(p.r1.min() + p.r2.min() >= 10_000_000_000);
        assert!(p.r1.max() + p.r2.max() <= 120_000_000_000);
        assert!(p.vref.value >= 500_000 && p.vref.value <= 4_000_000);
        assert!(p.vref.max <= 4_000_000);
    }
    for w in result.windows(2) {
        assert!(w[0].vref.value >= w[1].vref.value);
    }
}

#[test]
fn pipeline_is_idempotent() {
    let a = run_pipeline(&config());
    let b = run_pipeline(&config());
    assert_eq!(a, b);
}

#[test]
fn result_limit_cuts_the_list() {
    let mut cfg = config();
    cfg.result_limit = 3;
    let three = run_pipeline(&cfg);
    let ten = run_pipeline(&config());
    assert_eq!(three.len(), 3);
    assert_eq!(three[..], ten[..3]);
    cfg.result_limit = 0;
    assert!(run_pipeline(&cfg).is_empty());
}

#[test]
fn select_from_a_small_catalog() {
    let ohm = |v: u64| <Resistor as PassiveComponent>::new(v * 1_000_000, 10_000);
    let result = select_designs(&config(), vec![ohm(10_000), ohm(22_000), ohm(47_000)]);
    let pairs: Vec<(u64, u64)> = result.iter().map(|p| (p.r1.value / 1_000_000, p.r2.value / 1_000_000)).collect();
    // 10 k over 47 k gives 4.12 V, outside the window; every other pair passes.
    // Largest output first; the three 2.5 V pairs keep their total-resistance order.
    assert_eq!(
        pairs,
        vec![
            (10_000, 22_000),
            (22_000, 47_000),
            (10_000, 10_000),
            (22_000, 22_000),
            (47_000, 47_000),
            (47_000, 22_000),
            (22_000, 10_000),
            (47_000, 10_000),
        ]
    );
    assert_eq!(result[0].vref, Voltage::new_by_values(3_437_500, 3_245_138, 3_631_849));
    assert_eq!(result[0].vref_error, 1_437_500);
}

#[test]
fn current_gain_takes_worst_corners() {
    let sense = <Resistor as PassiveComponent>::new(470_000, 10_000);
    let k = current_gain(&Gain::new(200_000, 192_308, 208_333), &sense);
    assert_eq!(k.value, Ratio { num: 200_000, den: 470_000 });
    assert_eq!(k.min, Ratio { num: 192_308, den: 474_700 });
    assert_eq!(k.max, Ratio { num: 208_333, den: 465_300 });
    // 0.2 / 0.47 S at 2 V is about 0.851 A
    assert_eq!(output_current(&k.value, 2_000_000), 851_063_829);
}

#[test]
fn filters_reject_each_rule() {
    let cfg = config();
    let sense = <Resistor as PassiveComponent>::new(470_000, 10_000);
    let k = current_gain(&cfg.gain, &sense);
    assert!(passes_filters_exec(&cfg, &k, &candidate(20_000_000_000, 20_000_000_000, 2_500_000, 500_000)));
    // highest output above the window
    assert!(!passes_filters_exec(&cfg, &k, &candidate(20_000_000_000, 20_000_000_000, 4_100_000, 0)));
    // below the resistance floor
    assert!(!passes_filters_exec(&cfg, &k, &candidate(4_000_000_000, 4_000_000_000, 2_500_000, 0)));
    // above the resistance ceiling
    assert!(!passes_filters_exec(&cfg, &k, &candidate(60_000_000_000, 60_000_000_000, 2_500_000, 0)));
    // output current above the limit
    let mut tight = cfg;
    tight.output_current_limit = 1_000_000_000;
    assert!(!passes_filters_exec(&tight, &k, &candidate(20_000_000_000, 20_000_000_000, 2_500_000, 0)));
}

#[test]
fn stage_a_orders_by_error_magnitude_then_resistance() {
    let list = vec![
        candidate(3_000_000, 1_000_000, 1, -300),
        candidate(5_000_000, 1_000_000, 1, 100),
        candidate(2_000_000, 1_000_000, 1, -100),
        candidate(1_000_000, 1_000_000, 1, 200),
    ];
    let ranked = rank_by_error(list);
    let errors: Vec<i64> = ranked.iter().map(|p| p.vref_error).collect();
    assert_eq!(errors, vec![-100, 100, 200, -300]);
    assert_eq!(ranked[0].r1.value, 2_000_000);
}

#[test]
fn stage_b_orders_by_output_current_descending() {
    let list = vec![
        candidate(1_000_000, 1_000_000, 1_000_000, 0),
        candidate(2_000_000, 1_000_000, 3_000_000, 0),
        candidate(3_000_000, 1_000_000, 2_000_000, 0),
        candidate(4_000_000, 1_000_000, 3_000_000, 0),
    ];
    let k = current_gain(&Gain::new(200_000, 192_308, 208_333), &<Resistor as PassiveComponent>::new(470_000, 10_000));
    let ranked = rank_by_output_current(list, &k);
    let order: Vec<u64> = ranked.iter().map(|p| p.r1.value).collect();
    assert_eq!(order, vec![2_000_000, 4_000_000, 3_000_000, 1_000_000]);
}

#[test]
fn precedence_is_strict() {
    let a = candidate(1_000_000, 1_000_000, 1, 5);
    let b = candidate(1_000_000, 1_000_000, 1, -5);
    assert!(!precedes_exec(&Ranking::ByError, &a, &b));
    assert!(!precedes_exec(&Ranking::ByError, &b, &a));
}

#[test]
fn unit_prefix_formatting() {
    // 1500 ohms -> "1.5 k"
    assert_eq!(prefixed_for_resistance(1_500_000_000), (15, UnitPrefix::Kilo));
    assert_eq!(UnitPrefix::Kilo.symbol(), "k");
    // 0.0022 ohms -> "2.2 m"
    assert_eq!(prefixed_for_resistance(2_200), (22, UnitPrefix::Milli));
    assert_eq!(UnitPrefix::Milli.symbol(), "m");
    // 47 ohms -> "47 "
    assert_eq!(prefixed_for_resistance(47_000_000), (470, UnitPrefix::Unprefixed));
    assert_eq!(UnitPrefix::Unprefixed.symbol(), "");
    // 2.5 mega-ohms -> "2.5 M"
    assert_eq!(prefixed_for_resistance(2_500_000_000_000), (25, UnitPrefix::Mega));
    assert_eq!(UnitPrefix::Mega.symbol(), "M");
}

#[test]
fn unit_prefix_rounds_to_a_tenth() {
    assert_eq!(prefixed_for_resistance(999_960_000), (10_000, UnitPrefix::Unprefixed));
    assert_eq!(prefixed_for_resistance(1_250_000), (13, UnitPrefix::Unprefixed));
    assert_eq!(prefixed_for_resistance(500), (0, UnitPrefix::Unprefixed));
}
