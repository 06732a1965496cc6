//! Passive components with a toleranced value, and the standard catalogs.
use vstd::prelude::*;

use crate::quantity::{lower_by, lowered, raise_by, raised, MAX_MAGNITUDE, PPM};

verus! {

/// A component whose actual value lies within a fractional tolerance of its
/// nominal value.
pub trait PassiveComponent: Sized {
    spec fn spec_value(&self) -> int;

    spec fn spec_tolerance(&self) -> int;

    fn get_value(&self) -> (r: u64)
        ensures
            r == self.spec_value(),
    ;

    fn get_tolerance(&self) -> (r: u64)
        ensures
            r == self.spec_tolerance(),
    ;

    /// The largest value the component may have.
    fn max(&self) -> (r: u64)
        requires
            self.spec_value() <= MAX_MAGNITUDE,
            self.spec_tolerance() <= PPM,
        ensures
            r == raised(self.spec_value(), self.spec_tolerance()),
    ;

    /// The smallest value the component may have.
    fn min(&self) -> (r: u64)
        requires
            self.spec_value() <= MAX_MAGNITUDE,
            self.spec_tolerance() <= PPM,
        ensures
            r == lowered(self.spec_value(), self.spec_tolerance()),
    ;

    fn new(value: u64, tolerance: u64) -> (r: Self)
        ensures
            r.spec_value() == value,
            r.spec_tolerance() == tolerance,
    ;
}

/// A resistor: nominal value in micro-ohms, tolerance in parts per million.
#[derive(Debug, Clone, Copy, PartialEq, Eq, Structural)]
pub struct Resistor {
    pub value: u64,
    pub tolerance: u64,
}

impl Resistor {
    /// A resistor with a usable value and tolerance: positive, not above
    /// `MAX_MAGNITUDE`, and a tolerance of at most the whole value.
    pub open spec fn wf(&self) -> bool {
        0 < self.value <= MAX_MAGNITUDE && self.tolerance <= PPM
    }

    pub open spec fn spec_min(&self) -> int {
        lowered(self.value as int, self.tolerance as int)
    }

    pub open spec fn spec_max(&self) -> int {
        raised(self.value as int, self.tolerance as int)
    }

    /// A resistor of the common five percent tolerance.
    pub fn new_from_value(value: u64) -> (r: Resistor)
        ensures
            r.value == value,
            r.tolerance == 50_000,
    {
        <Resistor as PassiveComponent>::new(value, 50_000)
    }
}

impl PassiveComponent for Resistor {
    open spec fn spec_value(&self) -> int {
        self.value as int
    }

    open spec fn spec_tolerance(&self) -> int {
        self.tolerance as int
    }

    fn get_value(&self) -> (r: u64) {
        self.value
    }

    fn get_tolerance(&self) -> (r: u64) {
        self.tolerance
    }

    fn max(&self) -> (r: u64) {
        raise_by(self.value, self.tolerance)
    }

    fn min(&self) -> (r: u64) {
        lower_by(self.value, self.tolerance)
    }

    fn new(value: u64, tolerance: u64) -> (r: Resistor) {
        Resistor { value, tolerance }
    }
}

/// A capacitor: nominal value in femtofarads, tolerance in parts per million.
#[derive(Debug, Clone, Copy, PartialEq, Eq, Structural)]
pub struct Capacitor {
    pub value: u64,
    pub tolerance: u64,
}

impl Capacitor {
    /// A capacitor of the common twenty percent tolerance.
    pub fn new_from_value(value: u64) -> (r: Capacitor)
        ensures
            r.value == value,
            r.tolerance == 200_000,
    {
        <Capacitor as PassiveComponent>::new(value, 200_000)
    }
}

impl PassiveComponent for Capacitor {
    open spec fn spec_value(&self) -> int {
        self.value as int
    }

    open spec fn spec_tolerance(&self) -> int {
        self.tolerance as int
    }

    fn get_value(&self) -> (r: u64) {
        self.value
    }

    fn get_tolerance(&self) -> (r: u64) {
        self.tolerance
    }

    fn max(&self) -> (r: u64) {
        raise_by(self.value, self.tolerance)
    }

    fn min(&self) -> (r: u64) {
        lower_by(self.value, self.tolerance)
    }

    fn new(value: u64, tolerance: u64) -> (r: Capacitor) {
        Capacitor { value, tolerance }
    }
}

} // verus!
