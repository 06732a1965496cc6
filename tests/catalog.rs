use vdivider::catalog::{get_capacitor_list, get_e_series_values, get_resistor_list, Series};
use vdivider::component::{Capacitor, PassiveComponent, Resistor};

#[test]
fn resistor_list_has_144_entries_with_exact_bounds() {
    let list = get_resistor_list(10_000);
    assert_eq!(list.len(), 144);
    for r in &list {
        assert_eq!(r.get_tolerance(), 10_000);
        assert_eq!(r.min(), r.get_value() / 100 * 99);
        assert_eq!(r.max(), r.get_value() / 100 * 101);
    }
}

#[test]
fn resistor_list_is_decade_major() {
    let list = get_resistor_list(50_000);
    assert_eq!(list[0].get_value(), 1_000_000);
    assert_eq!(list[1].get_value(), 1_100_000);
    assert_eq!(list[23].get_value(), 9_100_000);
    assert_eq!(list[24].get_value(), 10_000_000);
    assert_eq!(list[28].get_value(), 15_000_000);
    assert_eq!(list[143].get_value(), 910_000_000_000);
    assert_eq!(list[143].min(), 864_500_000_000);
    assert_eq!(list[143].max(), 955_500_000_000);
}

#[test]
fn coarser_series_take_every_nth_value() {
    assert_eq!(get_e_series_values(Series::E24).len(), 24);
    assert_eq!(get_e_series_values(Series::E12)[1], 12);
    assert_eq!(get_e_series_values(Series::E6), vec![10, 15, 22, 33, 47, 68]);
    assert_eq!(get_e_series_values(Series::E3), vec![10, 22, 47]);
}

#[test]
fn capacitor_list_covers_picofarads_to_microfarads() {
    let list = get_capacitor_list(200_000);
    assert_eq!(list.len(), 39);
    // 10 pF, in femtofarads
    assert_eq!(list[0].get_value(), 10_000);
    assert_eq!(list[5].get_value(), 68_000);
    // 680 nF
    assert_eq!(list[29].get_value(), 680_000_000);
    // 1 uF, then 470 uF last
    assert_eq!(list[30].get_value(), 1_000_000_000);
    assert_eq!(list[38].get_value(), 470_000_000_000);
    assert_eq!(list[38].get_tolerance(), 200_000);
}

#[test]
fn components_default_tolerances() {
    let r = Resistor::new_from_value(4_700_000);
    assert_eq!(r.get_tolerance(), 50_000);
    assert_eq!(r.min(), 4_465_000);
    assert_eq!(r.max(), 4_935_000);
    let c = Capacitor::new_from_value(100_000);
    assert_eq!(c.get_tolerance(), 200_000);
    assert_eq!(c.min(), 80_000);
    assert_eq!(c.max(), 120_000);
}

#[test]
fn tolerance_bounds_round_down() {
    let r = <Resistor as PassiveComponent>::new(1_000_003, 10_000);
    assert_eq!(r.min(), 990_002);
    assert_eq!(r.max(), 1_010_003);
}
