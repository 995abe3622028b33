//! Kinds of macro-scale pressure systems.

use vstd::prelude::*;

verus! {

/// Type of pressure system, determining its steering, lifecycle and the
/// sign of its pressure anomaly.
#[derive(Debug, Clone, Copy, PartialEq, Eq, Hash, Structural)]
pub enum PressureSystemType {
    MidLatCyclone,
    SubtropicalHigh,
    TropicalLow,
    PolarHigh,
    ThermalLow,
}

} // verus!
