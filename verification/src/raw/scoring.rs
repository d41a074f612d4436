//! Offsets inside one vehicle scoring record.

use vstd::prelude::*;

verus! {

pub const SLOT_ID: usize = 0;
pub const DRIVER_NAME: usize = 4;
pub const VEHICLE_NAME: usize = 36;
pub const TOTAL_LAPS: usize = 100;
pub const SECTOR: usize = 102;
pub const LAP_DISTANCE: usize = 104;
pub const FINISH_STATUS: usize = 103;
pub const BEST_SECTOR1: usize = 128;
pub const BEST_SECTOR2: usize = 136;
pub const BEST_LAP: usize = 144;
pub const LAST_SECTOR1: usize = 152;
pub const LAST_SECTOR2: usize = 160;
pub const LAST_LAP: usize = 168;
pub const CURRENT_SECTOR1: usize = 176;
pub const CURRENT_SECTOR2: usize = 184;
pub const NUM_PITSTOPS: usize = 192;
pub const NUM_PENALTIES: usize = 194;
pub const IS_PLAYER: usize = 196;
pub const CONTROL: usize = 197;
pub const IN_PITS: usize = 198;
pub const PLACE: usize = 199;
pub const VEHICLE_CLASS: usize = 200;
pub const TIME_BEHIND_NEXT: usize = 232;
pub const LAPS_BEHIND_NEXT: usize = 240;
pub const TIME_BEHIND_LEADER: usize = 244;
pub const LAPS_BEHIND_LEADER: usize = 252;
pub const WORLD_POSITION: usize = 264;
pub const PIT_STATE: usize = 488;
pub const FLAG: usize = 504;
pub const COUNT_LAP_FLAG: usize = 506;
pub const IN_GARAGE_STALL: usize = 507;
pub const DRS_STATE: usize = 579;

} // verus!
