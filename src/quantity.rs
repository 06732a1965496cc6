//! Ranged quantities: a typical value with a lower and an upper bound.
use vstd::prelude::*;

verus! {

/// One part per million: the unit of every fraction.
pub const PPM: u64 = 1_000_000;

/// The largest magnitude a component value or a voltage may have, in its unit.
pub const MAX_MAGNITUDE: u64 = 1_000_000_000_000_000_000;

/// `value · (1 − f)`, with `f` in parts per million, rounded down.
pub open spec fn lowered(value: int, f: int) -> int {
    value * (PPM - f) / (PPM as int)
}

/// `value · (1 + f)`, with `f` in parts per million, rounded down.
pub open spec fn raised(value: int, f: int) -> int {
    value * (PPM + f) / (PPM as int)
}

/// A value lowered by a fraction lies between zero and the value; raised, it lies
/// between the value and twice the value.
pub proof fn lemma_scaled_bounds(value: int, f: int)
    requires
        0 <= value,
        0 <= f <= PPM,
    ensures
        0 <= lowered(value, f) <= value <= raised(value, f) <= 2 * value,
{
    let m = PPM as int;
    assert(0 <= value * (m - f) <= value * m) by (nonlinear_arith)
        requires 0 <= value, 0 <= f <= m;
    assert(value * m <= value * (m + f) <= value * (2 * m)) by (nonlinear_arith)
        requires 0 <= value, 0 <= f <= m;
    assert(value * m / m == value) by (nonlinear_arith) requires m > 0;
    assert(value * (2 * m) / m == 2 * value) by (nonlinear_arith) requires m > 0;
    assert(0 <= value * (m - f) / m <= value * m / m) by (nonlinear_arith)
        requires 0 <= value * (m - f) <= value * m, m > 0;
    assert(value * m / m <= value * (m + f) / m <= value * (2 * m) / m) by (nonlinear_arith)
        requires value * m <= value * (m + f) <= value * (2 * m), m > 0;
}

/// Lowers `value` by the fraction `f`.
pub fn lower_by(value: u64, f: u64) -> (r: u64)
    requires
        value <= MAX_MAGNITUDE,
        f <= PPM,
    ensures
        r == lowered(value as int, f as int),
        r <= value,
{
    proof {
        let v = value as int;
        let g = (PPM - f) as int;
        assert(0 <= v * g <= v * (PPM as int)) by (nonlinear_arith)
            requires 0 <= v, 0 <= g <= PPM as int;
        assert(v * (PPM as int) / (PPM as int) == v) by (nonlinear_arith);
        assert(v * g / (PPM as int) <= v * (PPM as int) / (PPM as int)) by (nonlinear_arith)
            requires 0 <= v * g <= v * (PPM as int);
    }
    let p: u128 = (value as u128) * ((PPM - f) as u128);
    (p / (PPM as u128)) as u64
}

/// Raises `value` by the fraction `f`.
pub fn raise_by(value: u64, f: u64) -> (r: u64)
    requires
        value <= MAX_MAGNITUDE,
        f <= PPM,
    ensures
        r == raised(value as int, f as int),
        value <= r <= 2 * value,
{
    proof {
        let v = value as int;
        let g = (PPM + f) as int;
        let m = PPM as int;
        assert(v * m <= v * g <= v * (2 * m)) by (nonlinear_arith)
            requires 0 <= v, m <= g <= 2 * m;
        assert(v * m / m == v) by (nonlinear_arith) requires m > 0;
        assert(v * (2 * m) / m == 2 * v) by (nonlinear_arith) requires m > 0;
        assert(v * m / m <= v * g / m <= v * (2 * m) / m) by (nonlinear_arith)
            requires v * m <= v * g <= v * (2 * m), m > 0;
    }
    let p: u128 = (value as u128) * ((PPM + f) as u128);
    (p / (PPM as u128)) as u64
}

/// A voltage in microvolts: a typical value with a lower and an upper bound.
#[derive(Debug, Clone, Copy, PartialEq, Eq, Structural)]
pub struct Voltage {
    pub value: u64,
    pub min: u64,
    pub max: u64,
}

impl Voltage {
    /// A voltage of `value` that may deviate from it by the fraction `allowance`
    /// either way.
    pub fn new_by_allowance(value: u64, allowance: u64) -> (r: Voltage)
        requires
            value <= MAX_MAGNITUDE,
            allowance <= PPM,
        ensures
            r.value == value,
            r.min == lowered(value as int, allowance as int),
            r.max == raised(value as int, allowance as int),
            r.min <= r.value <= r.max,
    {
        Voltage { value, min: lower_by(value, allowance), max: raise_by(value, allowance) }
    }

    /// A voltage with its bounds given explicitly.
    pub fn new_by_values(value: u64, min: u64, max: u64) -> (r: Voltage)
        ensures
            r == (Voltage { value, min, max }),
    {
        Voltage { value, min, max }
    }

    pub fn get_typical_value(&self) -> (r: u64)
        ensures
            r == self.value,
    {
        self.value
    }

    pub fn get_min(&self) -> (r: u64)
        ensures
            r == self.min,
    {
        self.min
    }

    pub fn get_max(&self) -> (r: u64)
        ensures
            r == self.max,
    {
        self.max
    }

    pub fn min(&self) -> (r: u64)
        ensures
            r == self.min,
    {
        self.min
    }

    pub fn max(&self) -> (r: u64)
        ensures
            r == self.max,
    {
        self.max
    }
}

/// A typical value of any copyable kind with a lower and an upper bound.
#[derive(Debug, Clone, Copy, PartialEq, Eq)]
pub struct RangedValue<T: Copy> {
    pub value: T,
    pub min: T,
    pub max: T,
}

impl<T: Copy> RangedValue<T> {
    pub fn new(value: T, min: T, max: T) -> (r: RangedValue<T>)
        ensures
            r.value == value,
            r.min == min,
            r.max == max,
    {
        RangedValue { value, min, max }
    }

    pub fn get_typical_value(&self) -> (r: T)
        ensures
            r == self.value,
    {
        self.value
    }

    pub fn get_min(&self) -> (r: T)
        ensures
            r == self.min,
    {
        self.min
    }

    pub fn get_max(&self) -> (r: T)
        ensures
            r == self.max,
    {
        self.max
    }
}

/// The exact quotient `num / den`.
#[derive(Debug, Clone, Copy, PartialEq, Eq, Structural)]
pub struct Ratio {
    pub num: u64,
    pub den: u64,
}

} // verus!
