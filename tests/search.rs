use vdivider::catalog::get_resistor_list;
use vdivider::component::{PassiveComponent, Resistor};
use vdivider::quantity::{lower_by, raise_by, RangedValue, Voltage};
use vdivider::search::{divider_output, find_combinations, is_pair_accepted, Constraint};

fn target() -> Constraint {
    Constraint { voltage: Voltage::new_by_values(2_000_000, 500_000, 4_000_000), max_current: 500_000 }
}

fn supply() -> Voltage {
    Voltage::new_by_allowance(5_000_000, 50_000)
}

fn ohms(v: u64) -> Resistor {
    <Resistor as PassiveComponent>::new(v * 1_000_000, 10_000)
}

#[test]
fn voltage_by_allowance() {
    let v = supply();
    assert_eq!(v.get_typical_value(), 5_000_000);
    assert_eq!(v.min(), 4_750_000);
    assert_eq!(v.max(), 5_250_000);
    assert_eq!(v.get_min(), 4_750_000);
    assert_eq!(v.get_max(), 5_250_000);
    assert_eq!(lower_by(3, 500_000), 1);
    assert_eq!(raise_by(3, 500_000), 4);
}

#[test]
fn ranged_value_keeps_its_fields() {
    let g = RangedValue::new(200_000u64, 192_308, 208_333);
    assert_eq!(g.get_typical_value(), 200_000);
    assert_eq!(g.get_min(), 192_308);
    assert_eq!(g.get_max(), 208_333);
}

#[test]
fn divider_output_uses_worst_corners() {
    let v = divider_output(&ohms(10_000), &ohms(10_000), &supply());
    assert_eq!(v.value, 2_500_000);
    assert_eq!(v.max, 2_651_250);
    assert_eq!(v.min, 2_351_250);
}

#[test]
fn wider_supply_band_never_narrows_output() {
    let narrow = Voltage::new_by_allowance(5_000_000, 10_000);
    let wide = Voltage::new_by_allowance(5_000_000, 100_000);
    let a = divider_output(&ohms(4_700), &ohms(2_200), &narrow);
    let b = divider_output(&ohms(4_700), &ohms(2_200), &wide);
    assert_eq!(a.value, b.value);
    assert!(b.min <= a.min);
    assert!(a.max <= b.max);
    assert!(b.min < a.min && a.max < b.max);
}

#[test]
fn pair_acceptance_follows_current_and_window() {
    let c = target();
    let v = supply();
    // 10 k + 10 k: 2.5 V, about 0.25 mA
    assert!(is_pair_accepted(&c, &v, &ohms(10_000), &ohms(10_000)));
    // 1 k + 1 k draws about 2.5 mA
    assert!(!is_pair_accepted(&c, &v, &ohms(1_000), &ohms(1_000)));
    // 91 k over 1 k gives about 0.05 V, below the window
    assert!(!is_pair_accepted(&c, &v, &ohms(91_000), &ohms(1_000)));
}

#[test]
fn every_accepted_pair_meets_the_constraint() {
    let c = target();
    let v = supply();
    let found = find_combinations(c, v, get_resistor_list(10_000));
    assert!(!found.is_empty());
    for p in &found {
        assert!(p.vref.value >= 500_000 && p.vref.value <= 4_000_000);
        let lowest = p.r1.min() as u128 + p.r2.min() as u128;
        assert!(5_000_000u128 * 1_000_000_000 <= 500_000u128 * lowest);
        assert_eq!(p.vref_error, p.vref.value as i64 - 2_000_000);
        assert!(p.vref.min <= p.vref.value && p.vref.value <= p.vref.max);
    }
}

#[test]
fn self_pairs_and_both_orders_appear() {
    let found = find_combinations(target(), supply(), vec![ohms(10_000), ohms(22_000)]);
    let pairs: Vec<(u64, u64)> = found.iter().map(|p| (p.r1.get_value(), p.r2.get_value())).collect();
    assert_eq!(
        pairs,
        vec![
            (10_000_000_000, 10_000_000_000),
            (10_000_000_000, 22_000_000_000),
            (22_000_000_000, 10_000_000_000),
            (22_000_000_000, 22_000_000_000),
        ]
    );
}

#[test]
fn unreachable_current_limit_yields_no_candidates() {
    let c = Constraint { voltage: Voltage::new_by_values(2_000_000, 500_000, 4_000_000), max_current: 1 };
    let found = find_combinations(c, supply(), get_resistor_list(10_000));
    assert!(found.is_empty());
}

#[test]
fn empty_catalog_yields_no_candidates() {
    assert!(find_combinations(target(), supply(), Vec::new()).is_empty());
}
