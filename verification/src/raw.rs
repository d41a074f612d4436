//! Layout of the game's shared-memory telemetry buffer: sizes and byte
//! offsets of the sections and fields the reader uses.

use vstd::prelude::*;

pub mod telemetry;
pub mod wheel;
pub mod scoring;
pub mod session;

verus! {

pub const MAX_VEHICLES: usize = 104;
pub const LMU_DATA_SIZE: usize = 324_820;
pub const SCORING_DATA_OFFSET: usize = 1_632;
pub const TELEMETRY_DATA_OFFSET: usize = 128_464;
pub const SCORING_INFO_SIZE: usize = 548;
pub const VEHICLE_SCORING_SIZE: usize = 584;
pub const VEHICLE_TELEMETRY_SIZE: usize = 1_888;
pub const SCORING_VEHICLES_OFFSET: usize = SCORING_DATA_OFFSET + 560;
pub const TELEMETRY_VEHICLES_OFFSET: usize = TELEMETRY_DATA_OFFSET + 4;
pub const GENERIC_GAME_VERSION: usize = 64;
pub const SCORING_INFO: usize = SCORING_DATA_OFFSET;
pub const TELEMETRY_ACTIVE_VEHICLES: usize = TELEMETRY_DATA_OFFSET;
pub const TELEMETRY_PLAYER_INDEX: usize = TELEMETRY_DATA_OFFSET + 1;
pub const TELEMETRY_PLAYER_HAS_VEHICLE: usize = TELEMETRY_DATA_OFFSET + 2;

} // verus!
