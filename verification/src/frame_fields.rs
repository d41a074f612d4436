//! The records of a telemetry frame as they are stored: the player's
//! vehicle, its wheels, the scoring rows and the session header, each field
//! read at its offset. Fractional fields are kept as their bit patterns.

use vstd::prelude::*;
use crate::bytes::{self, read_i8_at, read_i16_at, read_i32_at, read_u32_at, read_u64_at};
use crate::raw;
use crate::raw::scoring;
use crate::shared_memory::{self, read_string, BUFFER_SIZE, MAX_VEHICLES, OFFSET_SCORING_VEHICLES, VEHICLE_SCORING_SIZE};

verus! {

/// Integer fields of a vehicle telemetry record, and the bit patterns of its
/// fractional fields (IEEE 754 doubles as `u64`, singles as `u32`).
#[derive(Debug, Clone, Copy, PartialEq, Eq, Structural)]
pub struct VehicleBits {
    pub elapsed_time_bits: u64,
    pub lap_start_bits: u64,
    pub velocity_x_bits: u64,
    pub velocity_y_bits: u64,
    pub velocity_z_bits: u64,
    pub rpm_bits: u64,
    pub water_temp_bits: u64,
    pub oil_temp_bits: u64,
    pub throttle_bits: u64,
    pub brake_bits: u64,
    pub steering_bits: u64,
    pub clutch_bits: u64,
    pub steering_torque_bits: u64,
    pub fuel_bits: u64,
    pub max_rpm_bits: u64,
    pub scheduled_stops: u8,
    pub overheating: bool,
    pub detached: bool,
    pub headlights: bool,
    pub dent_severity_0: u8,
    pub dent_severity_1: u8,
    pub dent_severity_2: u8,
    pub dent_severity_3: u8,
    pub dent_severity_4: u8,
    pub dent_severity_5: u8,
    pub dent_severity_6: u8,
    pub dent_severity_7: u8,
    pub last_impact_et_bits: u64,
    pub last_impact_magnitude_bits: u64,
    pub last_impact_x_bits: u64,
    pub last_impact_y_bits: u64,
    pub last_impact_z_bits: u64,
    pub engine_torque_bits: u64,
    pub fuel_capacity_bits: u64,
    pub rear_brake_bias_bits: u64,
    pub turbo_boost_bits: u64,
    pub battery_charge_bits: u64,
    pub electric_motor_torque_bits: u64,
    pub electric_motor_rpm_bits: u64,
    pub electric_motor_temp_bits: u64,
    pub electric_water_temp_bits: u64,
    pub electric_motor_state: u8,
    pub abs_active: bool,
    pub tc_active: bool,
    pub speed_limiter_active: bool,
    pub wiper_state: u8,
    pub tc: u8,
    pub tc_max: u8,
    pub tc_slip: u8,
    pub tc_slip_max: u8,
    pub tc_cut: u8,
    pub tc_cut_max: u8,
    pub abs: u8,
    pub abs_max: u8,
    pub motor_map: u8,
    pub motor_map_max: u8,
    pub migration: u8,
    pub migration_max: u8,
    pub front_anti_sway: u8,
    pub front_anti_sway_max: u8,
    pub rear_anti_sway: u8,
    pub rear_anti_sway_max: u8,
    pub lift_and_coast: u8,
    pub track_limit_steps: u8,
    pub regen_bits: u32,
    pub state_of_charge_bits: u32,
    pub virtual_energy_bits: u32,
    pub gap_car_ahead_bits: u32,
    pub gap_car_behind_bits: u32,
}

/// The fields of the record of 1888 bytes at `b`.
pub open spec fn read_vehicle_bits_spec(s: Seq<u8>, b: int) -> VehicleBits {
    VehicleBits {
        elapsed_time_bits: bytes::le_u64(s, b + 12),
        lap_start_bits: bytes::le_u64(s, b + 24),
        velocity_x_bits: bytes::le_u64(s, b + 184),
        velocity_y_bits: bytes::le_u64(s, b + 192),
        velocity_z_bits: bytes::le_u64(s, b + 200),
        rpm_bits: bytes::le_u64(s, b + 356),
        water_temp_bits: bytes::le_u64(s, b + 364),
        oil_temp_bits: bytes::le_u64(s, b + 372),
        throttle_bits: bytes::le_u64(s, b + 388),
        brake_bits: bytes::le_u64(s, b + 396),
        steering_bits: bytes::le_u64(s, b + 404),
        clutch_bits: bytes::le_u64(s, b + 412),
        steering_torque_bits: bytes::le_u64(s, b + 444),
        fuel_bits: bytes::le_u64(s, b + 524),
        max_rpm_bits: bytes::le_u64(s, b + 532),
        scheduled_stops: bytes::le_u8(s, b + 540),
        overheating: bytes::le_u8(s, b + 541) != 0,
        detached: bytes::le_u8(s, b + 542) != 0,
        headlights: bytes::le_u8(s, b + 543) != 0,
        dent_severity_0: bytes::le_u8(s, b + 544),
        dent_severity_1: bytes::le_u8(s, b + 545),
        dent_severity_2: bytes::le_u8(s, b + 546),
        dent_severity_3: bytes::le_u8(s, b + 547),
        dent_severity_4: bytes::le_u8(s, b + 548),
        dent_severity_5: bytes::le_u8(s, b + 549),
        dent_severity_6: bytes::le_u8(s, b + 550),
        dent_severity_7: bytes::le_u8(s, b + 551),
        last_impact_et_bits: bytes::le_u64(s, b + 552),
        last_impact_magnitude_bits: bytes::le_u64(s, b + 560),
        last_impact_x_bits: bytes::le_u64(s, b + 568),
        last_impact_y_bits: bytes::le_u64(s, b + 576),
        last_impact_z_bits: bytes::le_u64(s, b + 584),
        engine_torque_bits: bytes::le_u64(s, b + 592),
        fuel_capacity_bits: bytes::le_u64(s, b + 608),
        rear_brake_bias_bits: bytes::le_u64(s, b + 664),
        turbo_boost_bits: bytes::le_u64(s, b + 672),
        battery_charge_bits: bytes::le_u64(s, b + 704),
        electric_motor_torque_bits: bytes::le_u64(s, b + 712),
        electric_motor_rpm_bits: bytes::le_u64(s, b + 720),
        electric_motor_temp_bits: bytes::le_u64(s, b + 728),
        electric_water_temp_bits: bytes::le_u64(s, b + 736),
        electric_motor_state: bytes::le_u8(s, b + 744),
        abs_active: bytes::le_u8(s, b + 746) != 0,
        tc_active: bytes::le_u8(s, b + 747) != 0,
        speed_limiter_active: bytes::le_u8(s, b + 748) != 0,
        wiper_state: bytes::le_u8(s, b + 749),
        tc: bytes::le_u8(s, b + 750),
        tc_max: bytes::le_u8(s, b + 751),
        tc_slip: bytes::le_u8(s, b + 752),
        tc_slip_max: bytes::le_u8(s, b + 753),
        tc_cut: bytes::le_u8(s, b + 754),
        tc_cut_max: bytes::le_u8(s, b + 755),
        abs: bytes::le_u8(s, b + 756),
        abs_max: bytes::le_u8(s, b + 757),
        motor_map: bytes::le_u8(s, b + 758),
        motor_map_max: bytes::le_u8(s, b + 759),
        migration: bytes::le_u8(s, b + 760),
        migration_max: bytes::le_u8(s, b + 761),
        front_anti_sway: bytes::le_u8(s, b + 762),
        front_anti_sway_max: bytes::le_u8(s, b + 763),
        rear_anti_sway: bytes::le_u8(s, b + 764),
        rear_anti_sway_max: bytes::le_u8(s, b + 765),
        lift_and_coast: bytes::le_u8(s, b + 766),
        track_limit_steps: bytes::le_u8(s, b + 767),
        regen_bits: bytes::le_u32(s, b + 768),
        state_of_charge_bits: bytes::le_u32(s, b + 772),
        virtual_energy_bits: bytes::le_u32(s, b + 776),
        gap_car_ahead_bits: bytes::le_u32(s, b + 780),
        gap_car_behind_bits: bytes::le_u32(s, b + 784),
    }
}

/// Reads the vehicle telemetry record at `base`.
pub fn read_vehicle_bits(data: &[u8], base: usize) -> (r: VehicleBits)
    requires
        base + 1888 <= data@.len(),
    ensures
        r == read_vehicle_bits_spec(data@, base as int),
{
    // The slice's length, at most `usize::MAX`, bounds every offset below.
    let _len = data.len();
    VehicleBits {
        elapsed_time_bits: read_u64_at(data, base + 12).unwrap(),
        lap_start_bits: read_u64_at(data, base + 24).unwrap(),
        velocity_x_bits: read_u64_at(data, base + 184).unwrap(),
        velocity_y_bits: read_u64_at(data, base + 192).unwrap(),
        velocity_z_bits: read_u64_at(data, base + 200).unwrap(),
        rpm_bits: read_u64_at(data, base + 356).unwrap(),
        water_temp_bits: read_u64_at(data, base + 364).unwrap(),
        oil_temp_bits: read_u64_at(data, base + 372).unwrap(),
        throttle_bits: read_u64_at(data, base + 388).unwrap(),
        brake_bits: read_u64_at(data, base + 396).unwrap(),
        steering_bits: read_u64_at(data, base + 404).unwrap(),
        clutch_bits: read_u64_at(data, base + 412).unwrap(),
        steering_torque_bits: read_u64_at(data, base + 444).unwrap(),
        fuel_bits: read_u64_at(data, base + 524).unwrap(),
        max_rpm_bits: read_u64_at(data, base + 532).unwrap(),
        scheduled_stops: data[base + 540],
        overheating: data[base + 541] != 0,
        detached: data[base + 542] != 0,
        headlights: data[base + 543] != 0,
        dent_severity_0: data[base + 544],
        dent_severity_1: data[base + 545],
        dent_severity_2: data[base + 546],
        dent_severity_3: data[base + 547],
        dent_severity_4: data[base + 548],
        dent_severity_5: data[base + 549],
        dent_severity_6: data[base + 550],
        dent_severity_7: data[base + 551],
        last_impact_et_bits: read_u64_at(data, base + 552).unwrap(),
        last_impact_magnitude_bits: read_u64_at(data, base + 560).unwrap(),
        last_impact_x_bits: read_u64_at(data, base + 568).unwrap(),
        last_impact_y_bits: read_u64_at(data, base + 576).unwrap(),
        last_impact_z_bits: read_u64_at(data, base + 584).unwrap(),
        engine_torque_bits: read_u64_at(data, base + 592).unwrap(),
        fuel_capacity_bits: read_u64_at(data, base + 608).unwrap(),
        rear_brake_bias_bits: read_u64_at(data, base + 664).unwrap(),
        turbo_boost_bits: read_u64_at(data, base + 672).unwrap(),
        battery_charge_bits: read_u64_at(data, base + 704).unwrap(),
        electric_motor_torque_bits: read_u64_at(data, base + 712).unwrap(),
        electric_motor_rpm_bits: read_u64_at(data, base + 720).unwrap(),
        electric_motor_temp_bits: read_u64_at(data, base + 728).unwrap(),
        electric_water_temp_bits: read_u64_at(data, base + 736).unwrap(),
        electric_motor_state: data[base + 744],
        abs_active: data[base + 746] != 0,
        tc_active: data[base + 747] != 0,
        speed_limiter_active: data[base + 748] != 0,
        wiper_state: data[base + 749],
        tc: data[base + 750],
        tc_max: data[base + 751],
        tc_slip: data[base + 752],
        tc_slip_max: data[base + 753],
        tc_cut: data[base + 754],
        tc_cut_max: data[base + 755],
        abs: data[base + 756],
        abs_max: data[base + 757],
        motor_map: data[base + 758],
        motor_map_max: data[base + 759],
        migration: data[base + 760],
        migration_max: data[base + 761],
        front_anti_sway: data[base + 762],
        front_anti_sway_max: data[base + 763],
        rear_anti_sway: data[base + 764],
        rear_anti_sway_max: data[base + 765],
        lift_and_coast: data[base + 766],
        track_limit_steps: data[base + 767],
        regen_bits: read_u32_at(data, base + 768).unwrap(),
        state_of_charge_bits: read_u32_at(data, base + 772).unwrap(),
        virtual_energy_bits: read_u32_at(data, base + 776).unwrap(),
        gap_car_ahead_bits: read_u32_at(data, base + 780).unwrap(),
        gap_car_behind_bits: read_u32_at(data, base + 784).unwrap(),
    }
}

/// Integer fields of a wheel record and the bit patterns of its fractional fields.
#[derive(Debug, Clone, Copy, PartialEq, Eq, Structural)]
pub struct WheelBits {
    pub suspension_deflection_bits: u64,
    pub ride_height_bits: u64,
    pub suspension_force_bits: u64,
    pub brake_temp_bits: u64,
    pub brake_pressure_bits: u64,
    pub rotation_bits: u64,
    pub camber_bits: u64,
    pub tyre_load_bits: u64,
    pub grip_fraction_bits: u64,
    pub pressure_bits: u64,
    pub surface_temp_left_bits: u64,
    pub surface_temp_center_bits: u64,
    pub surface_temp_right_bits: u64,
    pub wear_bits: u64,
    pub surface_type: u8,
    pub flat: bool,
    pub detached: bool,
    pub carcass_temp_bits: u64,
    pub inner_temp_left_bits: u64,
    pub inner_temp_center_bits: u64,
    pub inner_temp_right_bits: u64,
    pub optimal_temp_bits: u32,
    pub compound_index: u8,
    pub compound_type: u8,
}

/// The fields of the record of 260 bytes at `b`.
pub open spec fn read_wheel_bits_spec(s: Seq<u8>, b: int) -> WheelBits {
    WheelBits {
        suspension_deflection_bits: bytes::le_u64(s, b + 0),
        ride_height_bits: bytes::le_u64(s, b + 8),
        suspension_force_bits: bytes::le_u64(s, b + 16),
        brake_temp_bits: bytes::le_u64(s, b + 24),
        brake_pressure_bits: bytes::le_u64(s, b + 32),
        rotation_bits: bytes::le_u64(s, b + 40),
        camber_bits: bytes::le_u64(s, b + 80),
        tyre_load_bits: bytes::le_u64(s, b + 104),
        grip_fraction_bits: bytes::le_u64(s, b + 112),
        pressure_bits: bytes::le_u64(s, b + 120),
        surface_temp_left_bits: bytes::le_u64(s, b + 128),
        surface_temp_center_bits: bytes::le_u64(s, b + 136),
        surface_temp_right_bits: bytes::le_u64(s, b + 144),
        wear_bits: bytes::le_u64(s, b + 152),
        surface_type: bytes::le_u8(s, b + 176),
        flat: bytes::le_u8(s, b + 177) != 0,
        detached: bytes::le_u8(s, b + 178) != 0,
        carcass_temp_bits: bytes::le_u64(s, b + 204),
        inner_temp_left_bits: bytes::le_u64(s, b + 212),
        inner_temp_center_bits: bytes::le_u64(s, b + 220),
        inner_temp_right_bits: bytes::le_u64(s, b + 228),
        optimal_temp_bits: bytes::le_u32(s, b + 236),
        compound_index: bytes::le_u8(s, b + 240),
        compound_type: bytes::le_u8(s, b + 241),
    }
}

/// Reads the wheel record at `base`.
pub fn read_wheel_bits(data: &[u8], base: usize) -> (r: WheelBits)
    requires
        base + 260 <= data@.len(),
    ensures
        r == read_wheel_bits_spec(data@, base as int),
{
    // The slice's length, at most `usize::MAX`, bounds every offset below.
    let _len = data.len();
    WheelBits {
        suspension_deflection_bits: read_u64_at(data, base + 0).unwrap(),
        ride_height_bits: read_u64_at(data, base + 8).unwrap(),
        suspension_force_bits: read_u64_at(data, base + 16).unwrap(),
        brake_temp_bits: read_u64_at(data, base + 24).unwrap(),
        brake_pressure_bits: read_u64_at(data, base + 32).unwrap(),
        rotation_bits: read_u64_at(data, base + 40).unwrap(),
        camber_bits: read_u64_at(data, base + 80).unwrap(),
        tyre_load_bits: read_u64_at(data, base + 104).unwrap(),
        grip_fraction_bits: read_u64_at(data, base + 112).unwrap(),
        pressure_bits: read_u64_at(data, base + 120).unwrap(),
        surface_temp_left_bits: read_u64_at(data, base + 128).unwrap(),
        surface_temp_center_bits: read_u64_at(data, base + 136).unwrap(),
        surface_temp_right_bits: read_u64_at(data, base + 144).unwrap(),
        wear_bits: read_u64_at(data, base + 152).unwrap(),
        surface_type: data[base + 176],
        flat: data[base + 177] != 0,
        detached: data[base + 178] != 0,
        carcass_temp_bits: read_u64_at(data, base + 204).unwrap(),
        inner_temp_left_bits: read_u64_at(data, base + 212).unwrap(),
        inner_temp_center_bits: read_u64_at(data, base + 220).unwrap(),
        inner_temp_right_bits: read_u64_at(data, base + 228).unwrap(),
        optimal_temp_bits: read_u32_at(data, base + 236).unwrap(),
        compound_index: data[base + 240],
        compound_type: data[base + 241],
    }
}

/// Integer fields of a vehicle scoring row and the bit patterns of its
/// fractional fields.
#[derive(Debug, Clone, Copy, PartialEq, Eq, Structural)]
pub struct ScoringRowBits {
    pub slot_id: i32,
    pub total_laps: i16,
    pub sector: i8,
    pub finish_status: u8,
    pub lap_distance_bits: u64,
    pub best_sector1_bits: u64,
    pub best_sector2_bits: u64,
    pub best_lap_bits: u64,
    pub last_sector1_bits: u64,
    pub last_sector2_bits: u64,
    pub last_lap_bits: u64,
    pub current_sector1_bits: u64,
    pub current_sector2_bits: u64,
    pub num_penalties: i16,
    pub is_player: bool,
    pub control: i8,
    pub in_pits: bool,
    pub place: u8,
    pub time_behind_next_bits: u64,
    pub laps_behind_next: i32,
    pub time_behind_leader_bits: u64,
    pub laps_behind_leader: i32,
    pub world_x_bits: u64,
    pub world_y_bits: u64,
    pub world_z_bits: u64,
    pub pit_state: u8,
    pub flag: u8,
    pub count_lap_flag: u8,
    pub in_garage: bool,
    pub drs_state: u8,
}

/// The fields of the record of 584 bytes at `b`.
pub open spec fn read_scoring_row_bits_spec(s: Seq<u8>, b: int) -> ScoringRowBits {
    ScoringRowBits {
        slot_id: bytes::le_i32(s, b + 0),
        total_laps: bytes::le_i16(s, b + 100),
        sector: bytes::le_i8(s, b + 102),
        finish_status: bytes::le_u8(s, b + 103),
        lap_distance_bits: bytes::le_u64(s, b + 104),
        best_sector1_bits: bytes::le_u64(s, b + 128),
        best_sector2_bits: bytes::le_u64(s, b + 136),
        best_lap_bits: bytes::le_u64(s, b + 144),
        last_sector1_bits: bytes::le_u64(s, b + 152),
        last_sector2_bits: bytes::le_u64(s, b + 160),
        last_lap_bits: bytes::le_u64(s, b + 168),
        current_sector1_bits: bytes::le_u64(s, b + 176),
        current_sector2_bits: bytes::le_u64(s, b + 184),
        num_penalties: bytes::le_i16(s, b + 194),
        is_player: bytes::le_u8(s, b + 196) != 0,
        control: bytes::le_i8(s, b + 197),
        in_pits: bytes::le_u8(s, b + 198) != 0,
        place: bytes::le_u8(s, b + 199),
        time_behind_next_bits: bytes::le_u64(s, b + 232),
        laps_behind_next: bytes::le_i32(s, b + 240),
        time_behind_leader_bits: bytes::le_u64(s, b + 244),
        laps_behind_leader: bytes::le_i32(s, b + 252),
        world_x_bits: bytes::le_u64(s, b + 264),
        world_y_bits: bytes::le_u64(s, b + 272),
        world_z_bits: bytes::le_u64(s, b + 280),
        pit_state: bytes::le_u8(s, b + 488),
        flag: bytes::le_u8(s, b + 504),
        count_lap_flag: bytes::le_u8(s, b + 506),
        in_garage: bytes::le_u8(s, b + 507) != 0,
        drs_state: bytes::le_u8(s, b + 579),
    }
}

/// Reads the scoring row at `base`.
pub fn read_scoring_row_bits(data: &[u8], base: usize) -> (r: ScoringRowBits)
    requires
        base + 584 <= data@.len(),
    ensures
        r == read_scoring_row_bits_spec(data@, base as int),
{
    // The slice's length, at most `usize::MAX`, bounds every offset below.
    let _len = data.len();
    ScoringRowBits {
        slot_id: read_i32_at(data, base + 0).unwrap(),
        total_laps: read_i16_at(data, base + 100).unwrap(),
        sector: read_i8_at(data, base + 102).unwrap(),
        finish_status: data[base + 103],
        lap_distance_bits: read_u64_at(data, base + 104).unwrap(),
        best_sector1_bits: read_u64_at(data, base + 128).unwrap(),
        best_sector2_bits: read_u64_at(data, base + 136).unwrap(),
        best_lap_bits: read_u64_at(data, base + 144).unwrap(),
        last_sector1_bits: read_u64_at(data, base + 152).unwrap(),
        last_sector2_bits: read_u64_at(data, base + 160).unwrap(),
        last_lap_bits: read_u64_at(data, base + 168).unwrap(),
        current_sector1_bits: read_u64_at(data, base + 176).unwrap(),
        current_sector2_bits: read_u64_at(data, base + 184).unwrap(),
        num_penalties: read_i16_at(data, base + 194).unwrap(),
        is_player: data[base + 196] != 0,
        control: read_i8_at(data, base + 197).unwrap(),
        in_pits: data[base + 198] != 0,
        place: data[base + 199],
        time_behind_next_bits: read_u64_at(data, base + 232).unwrap(),
        laps_behind_next: read_i32_at(data, base + 240).unwrap(),
        time_behind_leader_bits: read_u64_at(data, base + 244).unwrap(),
        laps_behind_leader: read_i32_at(data, base + 252).unwrap(),
        world_x_bits: read_u64_at(data, base + 264).unwrap(),
        world_y_bits: read_u64_at(data, base + 272).unwrap(),
        world_z_bits: read_u64_at(data, base + 280).unwrap(),
        pit_state: data[base + 488],
        flag: data[base + 504],
        count_lap_flag: data[base + 506],
        in_garage: data[base + 507] != 0,
        drs_state: data[base + 579],
    }
}

/// Integer fields of the session header and the bit patterns of its
/// fractional fields.
#[derive(Debug, Clone, Copy, PartialEq, Eq, Structural)]
pub struct SessionBits {
    pub current_et_bits: u64,
    pub end_et_bits: u64,
    pub max_laps: i32,
    pub track_length_bits: u64,
    pub vehicle_count: i32,
    pub yellow_flag_state: i8,
    pub sector_flag_1: u8,
    pub sector_flag_2: u8,
    pub sector_flag_3: u8,
    pub start_light: u8,
    pub raining_bits: u64,
    pub ambient_temp_bits: u64,
    pub track_temp_bits: u64,
    pub max_wetness_bits: u64,
    pub session_remaining_bits: u32,
    pub time_of_day_bits: u32,
    pub track_grip: u8,
    pub cloud_coverage: u8,
}

/// The fields of the record of 548 bytes at `b`.
pub open spec fn read_session_bits_at_spec(s: Seq<u8>, b: int) -> SessionBits {
    SessionBits {
        current_et_bits: bytes::le_u64(s, b + 68),
        end_et_bits: bytes::le_u64(s, b + 76),
        max_laps: bytes::le_i32(s, b + 84),
        track_length_bits: bytes::le_u64(s, b + 88),
        vehicle_count: bytes::le_i32(s, b + 104),
        yellow_flag_state: bytes::le_i8(s, b + 109),
        sector_flag_1: bytes::le_u8(s, b + 110),
        sector_flag_2: bytes::le_u8(s, b + 111),
        sector_flag_3: bytes::le_u8(s, b + 112),
        start_light: bytes::le_u8(s, b + 113),
        raining_bits: bytes::le_u64(s, b + 220),
        ambient_temp_bits: bytes::le_u64(s, b + 228),
        track_temp_bits: bytes::le_u64(s, b + 236),
        max_wetness_bits: bytes::le_u64(s, b + 276),
        session_remaining_bits: bytes::le_u32(s, b + 340),
        time_of_day_bits: bytes::le_u32(s, b + 344),
        track_grip: bytes::le_u8(s, b + 348),
        cloud_coverage: bytes::le_u8(s, b + 350),
    }
}

/// Reads the session header at `base`.
pub fn read_session_bits_at(data: &[u8], base: usize) -> (r: SessionBits)
    requires
        base + 548 <= data@.len(),
    ensures
        r == read_session_bits_at_spec(data@, base as int),
{
    // The slice's length, at most `usize::MAX`, bounds every offset below.
    let _len = data.len();
    SessionBits {
        current_et_bits: read_u64_at(data, base + 68).unwrap(),
        end_et_bits: read_u64_at(data, base + 76).unwrap(),
        max_laps: read_i32_at(data, base + 84).unwrap(),
        track_length_bits: read_u64_at(data, base + 88).unwrap(),
        vehicle_count: read_i32_at(data, base + 104).unwrap(),
        yellow_flag_state: read_i8_at(data, base + 109).unwrap(),
        sector_flag_1: data[base + 110],
        sector_flag_2: data[base + 111],
        sector_flag_3: data[base + 112],
        start_light: data[base + 113],
        raining_bits: read_u64_at(data, base + 220).unwrap(),
        ambient_temp_bits: read_u64_at(data, base + 228).unwrap(),
        track_temp_bits: read_u64_at(data, base + 236).unwrap(),
        max_wetness_bits: read_u64_at(data, base + 276).unwrap(),
        session_remaining_bits: read_u32_at(data, base + 340).unwrap(),
        time_of_day_bits: read_u32_at(data, base + 344).unwrap(),
        track_grip: data[base + 348],
        cloud_coverage: data[base + 350],
    }
}



/// One car of the scoring field: its row's fields and its three names.
#[derive(Debug, Clone)]
pub struct FieldRow {
    pub bits: ScoringRowBits,
    pub driver_name: Option<String>,
    pub vehicle_name: Option<String>,
    pub vehicle_class: Option<String>,
}

/// `row` holds what the scoring row at byte `b` of `s` holds.
pub open spec fn field_row_matches(row: FieldRow, s: Seq<u8>, b: int) -> bool {
    &&& row.bits == read_scoring_row_bits_spec(s, b)
    &&& shared_memory::opt_view(row.driver_name) == shared_memory::string_field(s, b + scoring::DRIVER_NAME, 32)
    &&& shared_memory::opt_view(row.vehicle_name) == shared_memory::string_field(s, b + scoring::VEHICLE_NAME, 64)
    &&& shared_memory::opt_view(row.vehicle_class) == shared_memory::string_field(s, b + scoring::VEHICLE_CLASS, 32)
}

/// The indices below `n`, in order, of the scoring rows that hold a car
/// (a slot id that is not negative).
pub open spec fn occupied_rows(s: Seq<u8>, n: int) -> Seq<int>
    decreases n,
{
    if n <= 0 {
        Seq::empty()
    } else if shared_memory::row_slot_id(s, n - 1) >= 0 {
        occupied_rows(s, n - 1).push(n - 1)
    } else {
        occupied_rows(s, n - 1)
    }
}

/// The number of scoring rows that are read: the count the buffer reports,
/// at most the number of rows it has room for.
pub open spec fn field_row_count(scoring_vehicles: int) -> int {
    if scoring_vehicles < MAX_VEHICLES { scoring_vehicles } else { MAX_VEHICLES as int }
}

proof fn lemma_row_fits(i: int)
    requires
        0 <= i < MAX_VEHICLES,
    ensures
        shared_memory::scoring_row(i) + VEHICLE_SCORING_SIZE <= BUFFER_SIZE,
{
    assert(i * 584 <= 103 * 584) by (nonlinear_arith)
        requires
            0 <= i <= 103;
}

/// Reads the cars of the scoring field: each of the first
/// `scoring_vehicles` rows (at most as many as there is room for) that holds
/// a car, in row order.
pub fn read_field_rows(data: &[u8], scoring_vehicles: usize) -> (rows: Vec<FieldRow>)
    requires
        data@.len() >= BUFFER_SIZE,
    ensures
        rows@.len() == occupied_rows(data@, field_row_count(scoring_vehicles as int)).len(),
        forall|k: int| 0 <= k < rows@.len() ==> field_row_matches(#[trigger] rows@[k], data@,
            shared_memory::scoring_row(occupied_rows(data@, field_row_count(scoring_vehicles as int))[k])),
{
    let n: usize = if scoring_vehicles < MAX_VEHICLES { scoring_vehicles } else { MAX_VEHICLES };
    let mut rows: Vec<FieldRow> = Vec::new();
    let mut i: usize = 0;
    while i < n
        invariant
            n == field_row_count(scoring_vehicles as int),
            n <= MAX_VEHICLES,
            i <= n,
            data@.len() >= BUFFER_SIZE,
            rows@.len() == occupied_rows(data@, i as int).len(),
            forall|k: int| 0 <= k < rows@.len() ==> field_row_matches(#[trigger] rows@[k], data@,
                shared_memory::scoring_row(occupied_rows(data@, i as int)[k])),
        decreases n - i,
    {
        proof {
            lemma_row_fits(i as int);
        }
        let offset = OFFSET_SCORING_VEHICLES + i * VEHICLE_SCORING_SIZE;
        let bits = read_scoring_row_bits(data, offset);
        let ghost before = occupied_rows(data@, i as int);
        if bits.slot_id >= 0 {
            let driver_name = match read_string(data, offset + scoring::DRIVER_NAME, 32) {
                Ok(v) => v,
                Err(_) => None,
            };
            let vehicle_name = match read_string(data, offset + scoring::VEHICLE_NAME, 64) {
                Ok(v) => v,
                Err(_) => None,
            };
            let vehicle_class = match read_string(data, offset + scoring::VEHICLE_CLASS, 32) {
                Ok(v) => v,
                Err(_) => None,
            };
            let row = FieldRow { bits, driver_name, vehicle_name, vehicle_class };
            rows.push(row);
            proof {
                assert(occupied_rows(data@, i + 1) == before.push(i as int));
                assert forall|k: int| 0 <= k < rows@.len() implies field_row_matches(#[trigger] rows@[k], data@,
                    shared_memory::scoring_row(occupied_rows(data@, i + 1)[k])) by {
                    if k < before.len() {
                        assert(occupied_rows(data@, i + 1)[k] == before[k]);
                    }
                }
            }
        } else {
            proof {
                assert(occupied_rows(data@, i + 1) == before);
            }
        }
        i = i + 1;
    }
    rows
}

/// Every field of a vehicle telemetry record is read at the offset the telemetry layout table
/// gives it.
pub proof fn lemma_vehicle_fields_follow_layout(s: Seq<u8>, b: int, r: VehicleBits)
    requires
        r == read_vehicle_bits_spec(s, b),
    ensures
        r.elapsed_time_bits == bytes::le_u64(s, b + raw::telemetry::ELAPSED_TIME),
        r.lap_start_bits == bytes::le_u64(s, b + raw::telemetry::LAP_START_ET),
        r.velocity_x_bits == bytes::le_u64(s, b + raw::telemetry::LOCAL_VELOCITY),
        r.velocity_y_bits == bytes::le_u64(s, b + raw::telemetry::LOCAL_VELOCITY + 8),
        r.velocity_z_bits == bytes::le_u64(s, b + raw::telemetry::LOCAL_VELOCITY + 16),
        r.rpm_bits == bytes::le_u64(s, b + raw::telemetry::RPM),
        r.water_temp_bits == bytes::le_u64(s, b + raw::telemetry::WATER_TEMP),
        r.oil_temp_bits == bytes::le_u64(s, b + raw::telemetry::OIL_TEMP),
        r.throttle_bits == bytes::le_u64(s, b + raw::telemetry::THROTTLE),
        r.brake_bits == bytes::le_u64(s, b + raw::telemetry::BRAKE),
        r.steering_bits == bytes::le_u64(s, b + raw::telemetry::STEERING),
        r.clutch_bits == bytes::le_u64(s, b + raw::telemetry::CLUTCH),
        r.steering_torque_bits == bytes::le_u64(s, b + raw::telemetry::STEERING_TORQUE),
        r.fuel_bits == bytes::le_u64(s, b + raw::telemetry::FUEL),
        r.max_rpm_bits == bytes::le_u64(s, b + raw::telemetry::MAX_RPM),
        r.scheduled_stops == bytes::le_u8(s, b + raw::telemetry::SCHEDULED_STOPS),
        r.overheating == (bytes::le_u8(s, b + raw::telemetry::OVERHEATING) != 0),
        r.detached == (bytes::le_u8(s, b + raw::telemetry::DETACHED) != 0),
        r.headlights == (bytes::le_u8(s, b + raw::telemetry::HEADLIGHTS) != 0),
        r.dent_severity_0 == bytes::le_u8(s, b + raw::telemetry::DENT_SEVERITY),
        r.dent_severity_1 == bytes::le_u8(s, b + raw::telemetry::DENT_SEVERITY + 1),
        r.dent_severity_2 == bytes::le_u8(s, b + raw::telemetry::DENT_SEVERITY + 2),
        r.dent_severity_3 == bytes::le_u8(s, b + raw::telemetry::DENT_SEVERITY + 3),
        r.dent_severity_4 == bytes::le_u8(s, b + raw::telemetry::DENT_SEVERITY + 4),
        r.dent_severity_5 == bytes::le_u8(s, b + raw::telemetry::DENT_SEVERITY + 5),
        r.dent_severity_6 == bytes::le_u8(s, b + raw::telemetry::DENT_SEVERITY + 6),
        r.dent_severity_7 == bytes::le_u8(s, b + raw::telemetry::DENT_SEVERITY + 7),
        r.last_impact_et_bits == bytes::le_u64(s, b + raw::telemetry::LAST_IMPACT_ET),
        r.last_impact_magnitude_bits == bytes::le_u64(s, b + raw::telemetry::LAST_IMPACT_MAGNITUDE),
        r.last_impact_x_bits == bytes::le_u64(s, b + raw::telemetry::LAST_IMPACT_POSITION),
        r.last_impact_y_bits == bytes::le_u64(s, b + raw::telemetry::LAST_IMPACT_POSITION + 8),
        r.last_impact_z_bits == bytes::le_u64(s, b + raw::telemetry::LAST_IMPACT_POSITION + 16),
        r.engine_torque_bits == bytes::le_u64(s, b + raw::telemetry::ENGINE_TORQUE),
        r.fuel_capacity_bits == bytes::le_u64(s, b + raw::telemetry::FUEL_CAPACITY),
        r.rear_brake_bias_bits == bytes::le_u64(s, b + raw::telemetry::REAR_BRAKE_BIAS),
        r.turbo_boost_bits == bytes::le_u64(s, b + raw::telemetry::TURBO_BOOST),
        r.battery_charge_bits == bytes::le_u64(s, b + raw::telemetry::BATTERY_CHARGE_FRACTION),
        r.electric_motor_torque_bits == bytes::le_u64(s, b + raw::telemetry::ELECTRIC_MOTOR_TORQUE),
        r.electric_motor_rpm_bits == bytes::le_u64(s, b + raw::telemetry::ELECTRIC_MOTOR_RPM),
        r.electric_motor_temp_bits == bytes::le_u64(s, b + raw::telemetry::ELECTRIC_MOTOR_TEMP),
        r.electric_water_temp_bits == bytes::le_u64(s, b + raw::telemetry::ELECTRIC_WATER_TEMP),
        r.electric_motor_state == bytes::le_u8(s, b + raw::telemetry::ELECTRIC_MOTOR_STATE),
        r.abs_active == (bytes::le_u8(s, b + raw::telemetry::ABS_ACTIVE) != 0),
        r.tc_active == (bytes::le_u8(s, b + raw::telemetry::TC_ACTIVE) != 0),
        r.speed_limiter_active == (bytes::le_u8(s, b + raw::telemetry::SPEED_LIMITER_ACTIVE) != 0),
        r.wiper_state == bytes::le_u8(s, b + raw::telemetry::WIPER_STATE),
        r.tc == bytes::le_u8(s, b + raw::telemetry::TC),
        r.tc_max == bytes::le_u8(s, b + raw::telemetry::TC_MAX),
        r.tc_slip == bytes::le_u8(s, b + raw::telemetry::TC_SLIP),
        r.tc_slip_max == bytes::le_u8(s, b + raw::telemetry::TC_SLIP_MAX),
        r.tc_cut == bytes::le_u8(s, b + raw::telemetry::TC_CUT),
        r.tc_cut_max == bytes::le_u8(s, b + raw::telemetry::TC_CUT_MAX),
        r.abs == bytes::le_u8(s, b + raw::telemetry::ABS),
        r.abs_max == bytes::le_u8(s, b + raw::telemetry::ABS_MAX),
        r.motor_map == bytes::le_u8(s, b + raw::telemetry::MOTOR_MAP),
        r.motor_map_max == bytes::le_u8(s, b + raw::telemetry::MOTOR_MAP_MAX),
        r.migration == bytes::le_u8(s, b + raw::telemetry::MIGRATION),
        r.migration_max == bytes::le_u8(s, b + raw::telemetry::MIGRATION_MAX),
        r.front_anti_sway == bytes::le_u8(s, b + raw::telemetry::FRONT_ANTI_SWAY),
        r.front_anti_sway_max == bytes::le_u8(s, b + raw::telemetry::FRONT_ANTI_SWAY_MAX),
        r.rear_anti_sway == bytes::le_u8(s, b + raw::telemetry::REAR_ANTI_SWAY),
        r.rear_anti_sway_max == bytes::le_u8(s, b + raw::telemetry::REAR_ANTI_SWAY_MAX),
        r.lift_and_coast == bytes::le_u8(s, b + raw::telemetry::LIFT_AND_COAST),
        r.track_limit_steps == bytes::le_u8(s, b + raw::telemetry::TRACK_LIMIT_STEPS),
        r.regen_bits == bytes::le_u32(s, b + raw::telemetry::REGEN),
        r.state_of_charge_bits == bytes::le_u32(s, b + raw::telemetry::STATE_OF_CHARGE),
        r.virtual_energy_bits == bytes::le_u32(s, b + raw::telemetry::VIRTUAL_ENERGY),
        r.gap_car_ahead_bits == bytes::le_u32(s, b + raw::telemetry::GAP_CAR_AHEAD),
        r.gap_car_behind_bits == bytes::le_u32(s, b + raw::telemetry::GAP_CAR_BEHIND),
{
}

/// Every field of a wheel record is read at the offset the wheel layout table
/// gives it.
pub proof fn lemma_wheel_fields_follow_layout(s: Seq<u8>, b: int, r: WheelBits)
    requires
        r == read_wheel_bits_spec(s, b),
    ensures
        r.suspension_deflection_bits == bytes::le_u64(s, b + raw::wheel::SUSPENSION_DEFLECTION),
        r.ride_height_bits == bytes::le_u64(s, b + raw::wheel::RIDE_HEIGHT),
        r.suspension_force_bits == bytes::le_u64(s, b + raw::wheel::SUSPENSION_FORCE),
        r.brake_temp_bits == bytes::le_u64(s, b + raw::wheel::BRAKE_TEMP),
        r.brake_pressure_bits == bytes::le_u64(s, b + raw::wheel::BRAKE_PRESSURE),
        r.rotation_bits == bytes::le_u64(s, b + raw::wheel::ROTATION),
        r.camber_bits == bytes::le_u64(s, b + raw::wheel::CAMBER),
        r.tyre_load_bits == bytes::le_u64(s, b + raw::wheel::TYRE_LOAD),
        r.grip_fraction_bits == bytes::le_u64(s, b + 112),
        r.pressure_bits == bytes::le_u64(s, b + raw::wheel::PRESSURE),
        r.surface_temp_left_bits == bytes::le_u64(s, b + raw::wheel::TEMPERATURE),
        r.surface_temp_center_bits == bytes::le_u64(s, b + raw::wheel::TEMPERATURE + 8),
        r.surface_temp_right_bits == bytes::le_u64(s, b + raw::wheel::TEMPERATURE + 16),
        r.wear_bits == bytes::le_u64(s, b + raw::wheel::WEAR),
        r.surface_type == bytes::le_u8(s, b + raw::wheel::SURFACE_TYPE),
        r.flat == (bytes::le_u8(s, b + raw::wheel::FLAT) != 0),
        r.detached == (bytes::le_u8(s, b + raw::wheel::DETACHED) != 0),
        r.carcass_temp_bits == bytes::le_u64(s, b + raw::wheel::CARCASS_TEMP),
        r.inner_temp_left_bits == bytes::le_u64(s, b + raw::wheel::INNER_TEMP),
        r.inner_temp_center_bits == bytes::le_u64(s, b + raw::wheel::INNER_TEMP + 8),
        r.inner_temp_right_bits == bytes::le_u64(s, b + raw::wheel::INNER_TEMP + 16),
        r.optimal_temp_bits == bytes::le_u32(s, b + raw::wheel::OPTIMAL_TEMP),
        r.compound_index == bytes::le_u8(s, b + raw::wheel::COMPOUND_INDEX),
        r.compound_type == bytes::le_u8(s, b + raw::wheel::COMPOUND_TYPE),
{
}

/// Every field of a scoring row is read at the offset the scoring layout table
/// gives it.
pub proof fn lemma_scoring_row_fields_follow_layout(s: Seq<u8>, b: int, r: ScoringRowBits)
    requires
        r == read_scoring_row_bits_spec(s, b),
    ensures
        r.slot_id == bytes::le_i32(s, b + raw::scoring::SLOT_ID),
        r.total_laps == bytes::le_i16(s, b + raw::scoring::TOTAL_LAPS),
        r.sector == bytes::le_i8(s, b + raw::scoring::SECTOR),
        r.finish_status == bytes::le_u8(s, b + raw::scoring::FINISH_STATUS),
        r.lap_distance_bits == bytes::le_u64(s, b + raw::scoring::LAP_DISTANCE),
        r.best_sector1_bits == bytes::le_u64(s, b + raw::scoring::BEST_SECTOR1),
        r.best_sector2_bits == bytes::le_u64(s, b + raw::scoring::BEST_SECTOR2),
        r.best_lap_bits == bytes::le_u64(s, b + raw::scoring::BEST_LAP),
        r.last_sector1_bits == bytes::le_u64(s, b + raw::scoring::LAST_SECTOR1),
        r.last_sector2_bits == bytes::le_u64(s, b + raw::scoring::LAST_SECTOR2),
        r.last_lap_bits == bytes::le_u64(s, b + raw::scoring::LAST_LAP),
        r.current_sector1_bits == bytes::le_u64(s, b + raw::scoring::CURRENT_SECTOR1),
        r.current_sector2_bits == bytes::le_u64(s, b + raw::scoring::CURRENT_SECTOR2),
        r.num_penalties == bytes::le_i16(s, b + raw::scoring::NUM_PENALTIES),
        r.is_player == (bytes::le_u8(s, b + raw::scoring::IS_PLAYER) != 0),
        r.control == bytes::le_i8(s, b + raw::scoring::CONTROL),
        r.in_pits == (bytes::le_u8(s, b + raw::scoring::IN_PITS) != 0),
        r.place == bytes::le_u8(s, b + raw::scoring::PLACE),
        r.time_behind_next_bits == bytes::le_u64(s, b + raw::scoring::TIME_BEHIND_NEXT),
        r.laps_behind_next == bytes::le_i32(s, b + raw::scoring::LAPS_BEHIND_NEXT),
        r.time_behind_leader_bits == bytes::le_u64(s, b + raw::scoring::TIME_BEHIND_LEADER),
        r.laps_behind_leader == bytes::le_i32(s, b + raw::scoring::LAPS_BEHIND_LEADER),
        r.world_x_bits == bytes::le_u64(s, b + raw::scoring::WORLD_POSITION),
        r.world_y_bits == bytes::le_u64(s, b + raw::scoring::WORLD_POSITION + 8),
        r.world_z_bits == bytes::le_u64(s, b + raw::scoring::WORLD_POSITION + 16),
        r.pit_state == bytes::le_u8(s, b + raw::scoring::PIT_STATE),
        r.flag == bytes::le_u8(s, b + raw::scoring::FLAG),
        r.count_lap_flag == bytes::le_u8(s, b + raw::scoring::COUNT_LAP_FLAG),
        r.in_garage == (bytes::le_u8(s, b + raw::scoring::IN_GARAGE_STALL) != 0),
        r.drs_state == bytes::le_u8(s, b + raw::scoring::DRS_STATE),
{
}

/// Every field of a session header is read at the offset the session layout table
/// gives it.
pub proof fn lemma_session_fields_follow_layout(s: Seq<u8>, b: int, r: SessionBits)
    requires
        r == read_session_bits_at_spec(s, b),
    ensures
        r.current_et_bits == bytes::le_u64(s, b + raw::session::CURRENT_ET),
        r.end_et_bits == bytes::le_u64(s, b + raw::session::END_ET),
        r.max_laps == bytes::le_i32(s, b + raw::session::MAX_LAPS),
        r.track_length_bits == bytes::le_u64(s, b + raw::session::TRACK_LENGTH),
        r.vehicle_count == bytes::le_i32(s, b + raw::session::VEHICLE_COUNT),
        r.yellow_flag_state == bytes::le_i8(s, b + raw::session::YELLOW_FLAG),
        r.sector_flag_1 == bytes::le_u8(s, b + raw::session::SECTOR_FLAGS),
        r.sector_flag_2 == bytes::le_u8(s, b + raw::session::SECTOR_FLAGS + 1),
        r.sector_flag_3 == bytes::le_u8(s, b + raw::session::SECTOR_FLAGS + 2),
        r.start_light == bytes::le_u8(s, b + raw::session::START_LIGHT),
        r.raining_bits == bytes::le_u64(s, b + raw::session::RAINING),
        r.ambient_temp_bits == bytes::le_u64(s, b + raw::session::AMBIENT_TEMP),
        r.track_temp_bits == bytes::le_u64(s, b + raw::session::TRACK_TEMP),
        r.max_wetness_bits == bytes::le_u64(s, b + raw::session::MAX_WETNESS),
        r.session_remaining_bits == bytes::le_u32(s, b + raw::session::SESSION_REMAINING),
        r.time_of_day_bits == bytes::le_u32(s, b + raw::session::TIME_OF_DAY),
        r.track_grip == bytes::le_u8(s, b + raw::session::TRACK_GRIP),
        r.cloud_coverage == bytes::le_u8(s, b + raw::session::CLOUD_COVERAGE),
{
}

} // verus!
