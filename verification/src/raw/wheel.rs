//! Offsets inside one wheel record of a vehicle telemetry record.

use vstd::prelude::*;

verus! {

pub const SIZE: usize = 260;
pub const SUSPENSION_DEFLECTION: usize = 0;
pub const RIDE_HEIGHT: usize = 8;
pub const SUSPENSION_FORCE: usize = 16;
pub const PRESSURE: usize = 120;
pub const TEMPERATURE: usize = 128;
pub const WEAR: usize = 152;
pub const BRAKE_TEMP: usize = 24;
pub const BRAKE_PRESSURE: usize = 32;
pub const ROTATION: usize = 40;
pub const CAMBER: usize = 80;
pub const TYRE_LOAD: usize = 104;
pub const SURFACE_TYPE: usize = 176;
pub const FLAT: usize = 177;
pub const DETACHED: usize = 178;
pub const VERTICAL_DEFLECTION: usize = 180;
pub const WHEEL_Y_LOCATION: usize = 188;
pub const TOE: usize = 196;
pub const CARCASS_TEMP: usize = 204;
pub const INNER_TEMP: usize = 212;
pub const OPTIMAL_TEMP: usize = 236;
pub const COMPOUND_INDEX: usize = 240;
pub const COMPOUND_TYPE: usize = 241;

} // verus!
