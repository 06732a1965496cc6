//! Resistances written with an SI unit prefix, to one decimal place.
use vstd::prelude::*;

verus! {

/// The unit prefix a resistance is shown with.
#[derive(Debug, Clone, Copy, PartialEq, Eq, Structural)]
pub enum UnitPrefix {
    Unprefixed,
    Milli,
    Kilo,
    Mega,
}

pub open spec fn prefix_symbol(p: UnitPrefix) -> Seq<char> {
    match p {
        UnitPrefix::Unprefixed => seq![],
        UnitPrefix::Milli => seq!['m'],
        UnitPrefix::Kilo => seq!['k'],
        UnitPrefix::Mega => seq!['M'],
    }
}

impl UnitPrefix {
    /// The prefix's symbol: empty, `m`, `k` or `M`.
    pub fn symbol(&self) -> (r: &'static str)
        ensures
            r@ == prefix_symbol(*self),
    {
        match self {
            UnitPrefix::Unprefixed => {
                proof {
                    reveal_strlit("");
                }
                ""
            },
            UnitPrefix::Milli => {
                proof {
                    reveal_strlit("m");
                }
                "m"
            },
            UnitPrefix::Kilo => {
                proof {
                    reveal_strlit("k");
                }
                "k"
            },
            UnitPrefix::Mega => {
                proof {
                    reveal_strlit("M");
                }
                "M"
            },
        }
    }
}

/// `val / unit` rounded to the nearest integer, halves upward.
pub open spec fn rounded(val: int, unit: int) -> int {
    (val + unit / 2) / unit
}

/// A resistance of `val` micro-ohms in tenths of the prefixed unit, rounded to
/// the nearest tenth: no prefix from 1 ohm up to 1000 ohms, then mega from
/// 1 mega-ohm, kilo from 1 kilo-ohm, milli from 1 milli-ohm, and no prefix below.
pub open spec fn prefixed_spec(val: int) -> (int, UnitPrefix) {
    if 1_000_000 <= val < 1_000_000_000 {
        (rounded(val, 100_000), UnitPrefix::Unprefixed)
    } else if val >= 1_000_000_000_000 {
        (rounded(val, 100_000_000_000), UnitPrefix::Mega)
    } else if val >= 1_000_000_000 {
        (rounded(val, 100_000_000), UnitPrefix::Kilo)
    } else if val >= 1_000 {
        (rounded(val, 100), UnitPrefix::Milli)
    } else {
        (rounded(val, 100_000), UnitPrefix::Unprefixed)
    }
}

fn rounded_exec(val: u64, unit: u64) -> (r: u64)
    requires
        unit > 0,
    ensures
        r == rounded(val as int, unit as int),
{
    let q = ((val as u128) + (unit as u128) / 2) / (unit as u128);
    proof {
        let v = val as int;
        let u = unit as int;
        assert((v + u / 2) / u <= v) by (nonlinear_arith)
            requires u >= 1, v >= 0;
    }
    q as u64
}

/// The resistance `val`, in micro-ohms, as a count of tenths of a prefixed unit
/// and that prefix.
pub fn prefixed_for_resistance(val: u64) -> (r: (u64, UnitPrefix))
    ensures
        (r.0 as int, r.1) == prefixed_spec(val as int),
{
    if 1_000_000 <= val && val < 1_000_000_000 {
        (rounded_exec(val, 100_000), UnitPrefix::Unprefixed)
    } else if val >= 1_000_000_000_000 {
        (rounded_exec(val, 100_000_000_000), UnitPrefix::Mega)
    } else if val >= 1_000_000_000 {
        (rounded_exec(val, 100_000_000), UnitPrefix::Kilo)
    } else if val >= 1_000 {
        (rounded_exec(val, 100), UnitPrefix::Milli)
    } else {
        (rounded_exec(val, 100_000), UnitPrefix::Unprefixed)
    }
}

} // verus!
