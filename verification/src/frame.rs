//! The decoded sensor reading: one immutable value per checksum-valid frame.

use vstd::prelude::*;

verus! {

/// One validated reading from the sensor.
///
/// All fields are unsigned 16-bit values taken verbatim from one
/// checksum-valid wire frame; no cross-field invariant is enforced.
/// Concentrations are in micrograms per cubic metre; particle counts are per
/// 0.1 litre of air.
#[derive(Clone, Copy, Debug, PartialEq, Eq, Structural)]
pub struct SensorFrame {
    pub pm1_0_standard: u16,
    pub pm2_5_standard: u16,
    pub pm10_standard: u16,
    pub pm1_0_atmospheric: u16,
    pub pm2_5_atmospheric: u16,
    pub pm10_atmospheric: u16,
    pub particles_gt_0_3um: u16,
    pub particles_gt_0_5um: u16,
    pub particles_gt_1_0um: u16,
    pub particles_gt_2_5um: u16,
    pub particles_gt_5_0um: u16,
    pub particles_gt_10um: u16,
}

} // verus!
