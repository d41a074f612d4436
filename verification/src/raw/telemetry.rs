//! Offsets inside one vehicle telemetry record.

use vstd::prelude::*;

verus! {

pub const ID: usize = 0;
pub const ELAPSED_TIME: usize = 12;
pub const LAP_NUMBER: usize = 20;
pub const LAP_START_ET: usize = 24;
pub const VEHICLE_NAME: usize = 32;
pub const TRACK_NAME: usize = 96;
pub const WORLD_POSITION: usize = 160;
pub const LOCAL_VELOCITY: usize = 184;
pub const LOCAL_ACCELERATION: usize = 208;
pub const GEAR: usize = 352;
pub const RPM: usize = 356;
pub const WATER_TEMP: usize = 364;
pub const OIL_TEMP: usize = 372;
pub const THROTTLE: usize = 388;
pub const BRAKE: usize = 396;
pub const STEERING: usize = 404;
pub const CLUTCH: usize = 412;
pub const STEERING_TORQUE: usize = 444;
pub const FUEL: usize = 524;
pub const MAX_RPM: usize = 532;
pub const SCHEDULED_STOPS: usize = 540;
pub const OVERHEATING: usize = 541;
pub const DETACHED: usize = 542;
pub const HEADLIGHTS: usize = 543;
pub const DENT_SEVERITY: usize = 544;
pub const LAST_IMPACT_ET: usize = 552;
pub const LAST_IMPACT_MAGNITUDE: usize = 560;
pub const LAST_IMPACT_POSITION: usize = 568;
pub const ENGINE_TORQUE: usize = 592;
pub const CURRENT_SECTOR: usize = 600;
pub const SPEED_LIMITER: usize = 604;
pub const FUEL_CAPACITY: usize = 608;
pub const REAR_BRAKE_BIAS: usize = 664;
pub const TURBO_BOOST: usize = 672;
pub const BATTERY_CHARGE_FRACTION: usize = 704;
pub const ELECTRIC_MOTOR_TORQUE: usize = 712;
pub const ELECTRIC_MOTOR_RPM: usize = 720;
pub const ELECTRIC_MOTOR_TEMP: usize = 728;
pub const ELECTRIC_WATER_TEMP: usize = 736;
pub const ELECTRIC_MOTOR_STATE: usize = 744;
pub const LAP_INVALIDATED: usize = 745;
pub const ABS_ACTIVE: usize = 746;
pub const TC_ACTIVE: usize = 747;
pub const SPEED_LIMITER_ACTIVE: usize = 748;
pub const WIPER_STATE: usize = 749;
pub const TC: usize = 750;
pub const TC_MAX: usize = 751;
pub const TC_SLIP: usize = 752;
pub const TC_SLIP_MAX: usize = 753;
pub const TC_CUT: usize = 754;
pub const TC_CUT_MAX: usize = 755;
pub const ABS: usize = 756;
pub const ABS_MAX: usize = 757;
pub const MOTOR_MAP: usize = 758;
pub const MOTOR_MAP_MAX: usize = 759;
pub const MIGRATION: usize = 760;
pub const MIGRATION_MAX: usize = 761;
pub const FRONT_ANTI_SWAY: usize = 762;
pub const FRONT_ANTI_SWAY_MAX: usize = 763;
pub const REAR_ANTI_SWAY: usize = 764;
pub const REAR_ANTI_SWAY_MAX: usize = 765;
pub const LIFT_AND_COAST: usize = 766;
pub const TRACK_LIMIT_STEPS: usize = 767;
pub const REGEN: usize = 768;
pub const STATE_OF_CHARGE: usize = 772;
pub const VIRTUAL_ENERGY: usize = 776;
pub const GAP_CAR_AHEAD: usize = 780;
pub const GAP_CAR_BEHIND: usize = 784;
pub const GAP_PLACE_AHEAD: usize = 788;
pub const GAP_PLACE_BEHIND: usize = 792;
pub const WHEELS: usize = 848;

} // verus!
