//! Offsets inside the scoring header that describes the session.

use vstd::prelude::*;

verus! {

pub const TRACK_NAME: usize = 0;
pub const SESSION: usize = 64;
pub const CURRENT_ET: usize = 68;
pub const END_ET: usize = 76;
pub const MAX_LAPS: usize = 84;
pub const TRACK_LENGTH: usize = 88;
pub const VEHICLE_COUNT: usize = 104;
pub const GAME_PHASE: usize = 108;
pub const YELLOW_FLAG: usize = 109;
pub const SECTOR_FLAGS: usize = 110;
pub const START_LIGHT: usize = 113;
pub const AMBIENT_TEMP: usize = 228;
pub const TRACK_TEMP: usize = 236;
pub const RAINING: usize = 220;
pub const MIN_WETNESS: usize = 268;
pub const MAX_WETNESS: usize = 276;
pub const SESSION_REMAINING: usize = 340;
pub const TIME_OF_DAY: usize = 344;
pub const CLOUD_COVERAGE: usize = 350;
pub const TRACK_GRIP: usize = 348;

} // verus!
