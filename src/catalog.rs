//! The standard geometric value series and the component catalogs built from them.
use vstd::prelude::*;

use crate::component::{Capacitor, PassiveComponent, Resistor};
use crate::quantity::{lowered, raised, PPM};

verus! {

/// The 24-step series, in tenths: 1.0, 1.1, ..., 9.1.
pub open spec fn e24() -> Seq<u64> {
    seq![10, 11, 12, 13, 15, 16, 18, 20, 22, 24, 27, 30, 33, 36, 39, 43, 47, 51, 56, 62, 68, 75, 82, 91]
}

/// The coarser series, each keeping every `step`-th value of the 24-step one.
pub enum Series {
    E24,
    E12,
    E6,
    E3,
}

pub open spec fn series_step(series: Series) -> int {
    match series {
        Series::E24 => 1,
        Series::E12 => 2,
        Series::E6 => 4,
        Series::E3 => 8,
    }
}

/// The values of a series, in tenths, ascending.
pub open spec fn e_series(series: Series) -> Seq<u64> {
    let step = series_step(series);
    Seq::new((24int / step) as nat, |i: int| e24()[i * step])
}

/// `10^n`.
pub open spec fn pow10(n: nat) -> int
    decreases n,
{
    if n == 0 {
        1
    } else {
        10 * pow10((n - 1) as nat)
    }
}

/// The standard resistor catalog: the 24-step series over six decades from 1 ohm,
/// decade-major, in micro-ohms, all of tolerance `t`.
pub open spec fn standard_resistors(t: u64) -> Seq<Resistor> {
    Seq::new(
        144,
        |k: int| Resistor { value: (e24()[k % 24] * pow10((k / 24) as nat) * 100_000) as u64, tolerance: t },
    )
}

/// The position of entry `i` of decade `d` in a catalog of `n` values per decade.
pub open spec fn slot(d: int, i: int, n: int) -> int {
    d * n + i
}

proof fn lemma_pow10_mono(a: nat, b: nat)
    requires
        a <= b,
    ensures
        1 <= pow10(a) <= pow10(b),
    decreases b,
{
    if b > a {
        lemma_pow10_mono(a, (b - 1) as nat);
    } else if a > 0 {
        lemma_pow10_mono((a - 1) as nat, (a - 1) as nat);
    }
}

proof fn lemma_pow10_values()
    ensures
        pow10(5) == 100_000,
        pow10(12) == 1_000_000_000_000,
        pow10(18) == 1_000_000_000_000_000_000,
{
    reveal_with_fuel(pow10, 19);
}

fn e24_table() -> (r: Vec<u64>)
    ensures
        r@ == e24(),
        forall|i: int| 0 <= i < 24 ==> 0 < #[trigger] r@[i] <= 91,
{
    let r = vec![10, 11, 12, 13, 15, 16, 18, 20, 22, 24, 27, 30, 33, 36, 39, 43, 47, 51, 56, 62, 68, 75, 82, 91];
    assert(r@ =~= e24());
    r
}

/// The values of `series`, in tenths.
pub fn get_e_series_values(series: Series) -> (r: Vec<u64>)
    ensures
        r@ == e_series(series),
        r@.len() == 24int / series_step(series),
        forall|i: int| 0 <= i < r@.len() ==> 0 < #[trigger] r@[i] <= 91,
{
    let table = e24_table();
    let step: usize = match series {
        Series::E24 => 1,
        Series::E12 => 2,
        Series::E6 => 4,
        Series::E3 => 8,
    };
    let mut r: Vec<u64> = Vec::new();
    let mut i: usize = 0;
    while i < 24
        invariant
            table@ == e24(),
            step == series_step(series),
            i % step == 0,
            i <= 24,
            r@.len() == i / step,
            forall|j: int| 0 <= j < 24 ==> 0 < #[trigger] table@[j] <= 91,
            forall|j: int| 0 <= j < r@.len() ==> r@[j] == e24()[j * step] && 0 < r@[j] <= 91,
        decreases 24 - i,
    {
        r.push(table[i]);
        i = i + step;
    }
    assert(r@ =~= e_series(series));
    r
}

fn pow10_exec(n: u32) -> (r: u64)
    requires
        n <= 18,
    ensures
        r == pow10(n as nat),
{
    let mut r: u64 = 1;
    let mut i: u32 = 0;
    while i < n
        invariant
            i <= n <= 18,
            r == pow10(i as nat),
        decreases n - i,
    {
        proof {
            lemma_pow10_mono((i + 1) as nat, 18);
            lemma_pow10_values();
        }
        r = r * 10;
        i = i + 1;
    }
    r
}

/// Each value of `values` times `unit` and each power of ten from `first` on, for
/// `decades` powers: decade-major, then in the order of `values`.
fn scaled_series(values: &Vec<u64>, first: u32, decades: u32, unit: u64) -> (r: Vec<u64>)
    requires
        first + decades <= 12,
        1 <= unit <= 100_000,
        values@.len() <= 24,
        forall|i: int| 0 <= i < values@.len() ==> values@[i] <= 100,
    ensures
        r@.len() == decades * values@.len(),
        forall|d: int, i: int|
            0 <= d < decades && 0 <= i < values@.len() ==> #[trigger] r@[slot(d, i, values@.len() as int)]
                == values@[i] * pow10((first + d) as nat) * unit,
{
    let n = values.len();
    let mut r: Vec<u64> = Vec::new();
    let mut d: u32 = 0;
    while d < decades
        invariant
            n == values@.len() <= 24,
            first + decades <= 12,
            1 <= unit <= 100_000,
            forall|i: int| 0 <= i < n ==> values@[i] <= 100,
            d <= decades,
            r@.len() == d * n,
            forall|e: int, i: int|
                0 <= e < d && 0 <= i < n ==> #[trigger] r@[slot(e, i, n as int)] == values@[i] * pow10(
                    (first + e) as nat,
                ) * unit,
        decreases decades - d,
    {
        proof {
            lemma_pow10_mono((first + d) as nat, 12);
            lemma_pow10_values();
            let p = pow10((first + d) as nat);
            assert(p * unit <= 1_000_000_000_000 * 100_000) by (nonlinear_arith)
                requires 1 <= p <= 1_000_000_000_000, 1 <= unit <= 100_000;
        }
        let scale: u64 = pow10_exec(first + d) * unit;
        let mut i: usize = 0;
        while i < n
            invariant
                n == values@.len() <= 24,
                forall|i: int| 0 <= i < n ==> values@[i] <= 100,
                d < decades,
                scale == pow10((first + d) as nat) * unit,
                scale <= 100_000_000_000_000_000,
                i <= n,
                r@.len() == d * n + i,
                forall|e: int, j: int|
                    0 <= e < d && 0 <= j < n ==> #[trigger] r@[slot(e, j, n as int)] == values@[j] * pow10(
                        (first + e) as nat,
                    ) * unit,
                forall|j: int|
                    0 <= j < i ==> #[trigger] r@[slot(d as int, j, n as int)] == values@[j] * scale,
            decreases n - i,
        {
            proof {
                assert forall|e: int, j: int| 0 <= e < d && 0 <= j < n implies slot(e, j, n as int) < d * n by {
                    assert(e * n + j < d * n) by (nonlinear_arith)
                        requires 0 <= e < d, 0 <= j < n;
                }
            }
            assert(values@[i as int] * scale <= 100 * 100_000_000_000_000_000) by (nonlinear_arith)
                requires values@[i as int] <= 100, scale <= 100_000_000_000_000_000;
            r.push(values[i] * scale);
            i = i + 1;
        }
        proof {
            assert((d + 1) * n == d * n + n) by (nonlinear_arith);
            assert forall|j: int| 0 <= j < n implies #[trigger] r@[slot(d as int, j, n as int)] == values@[j]
                * pow10((first + d) as nat) * unit by {
                let p = pow10((first + d) as nat);
                let v = values@[j] as int;
                assert(v * (p * unit) == v * p * unit) by (nonlinear_arith);
            }
        }
        d = d + 1;
    }
    r
}

/// Components of `tolerance` for each value of `values`, in order.
fn resistors_of(values: &Vec<u64>, tolerance: u64) -> (r: Vec<Resistor>)
    ensures
        r@.len() == values@.len(),
        forall|k: int| 0 <= k < r@.len() ==> #[trigger] r@[k] == (Resistor { value: values@[k], tolerance }),
{
    let mut r: Vec<Resistor> = Vec::new();
    let mut k: usize = 0;
    while k < values.len()
        invariant
            k <= values@.len(),
            r@.len() == k,
            forall|j: int| 0 <= j < k ==> #[trigger] r@[j] == (Resistor { value: values@[j], tolerance }),
        decreases values@.len() - k,
    {
        r.push(<Resistor as PassiveComponent>::new(values[k], tolerance));
        k = k + 1;
    }
    r
}

fn capacitors_of(values: &Vec<u64>, tolerance: u64) -> (r: Vec<Capacitor>)
    ensures
        r@.len() == values@.len(),
        forall|k: int| 0 <= k < r@.len() ==> #[trigger] r@[k] == (Capacitor { value: values@[k], tolerance }),
{
    let mut r: Vec<Capacitor> = Vec::new();
    let mut k: usize = 0;
    while k < values.len()
        invariant
            k <= values@.len(),
            r@.len() == k,
            forall|j: int| 0 <= j < k ==> #[trigger] r@[j] == (Capacitor { value: values@[j], tolerance }),
        decreases values@.len() - k,
    {
        r.push(<Capacitor as PassiveComponent>::new(values[k], tolerance));
        k = k + 1;
    }
    r
}

/// The 144 standard resistors of the 24-step series over six decades, from 1 ohm
/// to 910 kilo-ohms, decade-major, all of the given tolerance.
pub fn get_resistor_list(tolerance: u64) -> (r: Vec<Resistor>)
    ensures
        r@.len() == 144,
        r@ == standard_resistors(tolerance),
        forall|d: int, i: int|
            0 <= d < 6 && 0 <= i < 24 ==> #[trigger] r@[slot(d, i, 24)] == (Resistor {
                value: (e24()[i] * pow10(d as nat) * 100_000) as u64,
                tolerance,
            }),
        tolerance <= PPM ==> forall|k: int|
            0 <= k < 144 ==> {
                &&& (#[trigger] r@[k]).wf()
                &&& r@[k].spec_min() == lowered(r@[k].value as int, tolerance as int)
                &&& r@[k].spec_max() == raised(r@[k].value as int, tolerance as int)
            },
{
    let series = get_e_series_values(Series::E24);
    proof {
        assert(e_series(Series::E24) =~= e24());
    }
    let values = scaled_series(&series, 0, 6, 100_000);
    let r = resistors_of(&values, tolerance);
    proof {
        assert forall|k: int| 0 <= k < 144 implies 0 < (#[trigger] values@[k]) <= 1_000_000_000_000 by {
            let d = k / 24;
            let i = k % 24;
            assert(k == slot(d, i, 24));
            assert(0 <= d < 6);
            lemma_pow10_mono(d as nat, 5);
            lemma_pow10_values();
            assert(0 < e24()[i] <= 91);
            let p = pow10(d as nat);
            assert(0 < e24()[i] * p * 100_000 <= 91 * 100_000 * 100_000) by (nonlinear_arith)
                requires 1 <= p <= 100_000, 0 < e24()[i] <= 91;
        }
        assert forall|k: int| 0 <= k < 144 implies #[trigger] r@[k] == standard_resistors(tolerance)[k] by {
            assert(k == slot(k / 24, k % 24, 24));
        }
        assert(r@ =~= standard_resistors(tolerance));
    }
    r
}

/// The standard capacitors: the 6-step series from 10 pF to 680 nF, then the
/// 3-step series from 1 uF to 470 uF, all of the given tolerance.
pub fn get_capacitor_list(tolerance: u64) -> (r: Vec<Capacitor>)
    ensures
        r@.len() == 39,
        forall|d: int, i: int|
            0 <= d < 5 && 0 <= i < 6 ==> #[trigger] r@[slot(d, i, 6)] == (Capacitor {
                value: (e_series(Series::E6)[i] * pow10((d + 1) as nat) * 100) as u64,
                tolerance,
            }),
        forall|d: int, i: int|
            0 <= d < 3 && 0 <= i < 3 ==> #[trigger] r@[30 + slot(d, i, 3)] == (Capacitor {
                value: (e_series(Series::E3)[i] * pow10((d + 6) as nat) * 100) as u64,
                tolerance,
            }),
{
    let e6 = get_e_series_values(Series::E6);
    let e3 = get_e_series_values(Series::E3);
    assert(series_step(Series::E6) == 4 && series_step(Series::E3) == 8);
    assert(24int / 4 == 6 && 24int / 8 == 3) by (nonlinear_arith);
    assert(e6@.len() == 6);
    assert(e3@.len() == 3);
    let mut values = scaled_series(&e6, 1, 5, 100);
    let tail = scaled_series(&e3, 6, 3, 100);
    assert(values@.len() == 30);
    let ghost head = values@;
    let mut k: usize = 0;
    while k < tail.len()
        invariant
            head.len() == 30,
            tail@.len() == 9,
            k <= 9,
            values@ == head + tail@.take(k as int),
        decreases 9 - k,
    {
        values.push(tail[k]);
        k = k + 1;
        assert(values@ =~= head + tail@.take(k as int));
    }
    assert(tail@.take(9) =~= tail@);
    let r = capacitors_of(&values, tolerance);
    proof {
        assert forall|d: int, i: int| 0 <= d < 3 && 0 <= i < 3 implies #[trigger] values@[30 + slot(d, i, 3)]
            == tail@[slot(d, i, 3)] by {
            assert(0 <= slot(d, i, 3) < 9);
        }
        assert forall|d: int, i: int| 0 <= d < 5 && 0 <= i < 6 implies #[trigger] values@[slot(d, i, 6)]
            == head[slot(d, i, 6)] by {
            assert(0 <= slot(d, i, 6) < 30);
        }
    }
    r
}

} // verus!
