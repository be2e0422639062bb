//! Thermal states and mitigation tiers of the governor.

use vstd::prelude::*;

verus! {

/// Phase of the thermal control cycle.
#[derive(Debug, Clone, Copy, PartialEq, Eq, Structural)]
pub enum ThermalState {
    Normal,
    Rising,
    Controlled,
    Critical,
    Recovery,
}

/// Strength of mitigation, from none to emergency.
#[derive(Debug, Clone, Copy, PartialEq, Eq, Structural, PartialOrd)]
pub enum MitigationTier {
    /// No mitigation.
    Off,
    Gentle,
    Moderate,
    Emergency,
}

} // verus!
