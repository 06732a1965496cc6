//! Voltage-divider design search over a catalog of standard resistor values.
//!
//! Every physical quantity is held as an integer in a fixed unit, so that all
//! comparisons are exact:
//! resistance in micro-ohms, capacitance in femtofarads, voltage in microvolts,
//! current in nanoamperes, and every fraction (tolerance, allowance, gain) in
//! parts per million.
pub mod catalog;
pub mod component;
pub mod design;
pub mod prefix;
pub mod quantity;
pub mod ranking;
pub mod search;
