use hashoverlay::frame_fields::{read_field_rows, read_scoring_row_bits, read_vehicle_bits, read_wheel_bits};
use hashoverlay::raw::{scoring, telemetry, wheel};
use hashoverlay::shared_memory::{
    read_player_frame, BUFFER_SIZE, OFFSET_GAME_VERSION, OFFSET_SCORING_GAME_PHASE, OFFSET_SCORING_NUM_VEHICLES,
    OFFSET_SCORING_SESSION, OFFSET_SCORING_TRACK_NAME, OFFSET_SCORING_VEHICLES, OFFSET_TELEMETRY_ACTIVE_VEHICLES,
    OFFSET_TELEMETRY_PLAYER_HAS_VEHICLE, OFFSET_TELEMETRY_PLAYER_INDEX, OFFSET_TELEMETRY_VEHICLES,
    VEHICLE_SCORING_SIZE, VEHICLE_TELEMETRY_SIZE,
};
use hashoverlay::telemetry::{GamePhase, Gear, SessionKind, TelemetryError};

fn write_i32(bytes: &mut [u8], offset: usize, value: i32) {
    bytes[offset..offset + 4].copy_from_slice(&value.to_le_bytes());
}

fn write_u8(bytes: &mut [u8], offset: usize, value: u8) {
    bytes[offset] = value;
}

fn write_f64(bytes: &mut [u8], offset: usize, value: f64) {
    bytes[offset..offset + 8].copy_from_slice(&value.to_le_bytes());
}

fn write_f32(bytes: &mut [u8], offset: usize, value: f32) {
    bytes[offset..offset + 4].copy_from_slice(&value.to_le_bytes());
}

fn write_string(bytes: &mut [u8], offset: usize, len: usize, value: &str) {
    let target = &mut bytes[offset..offset + len];
    target.fill(0);
    let value = value.as_bytes();
    let len = value.len().min(target.len().saturating_sub(1));
    target[..len].copy_from_slice(&value[..len]);
}

fn player_buffer() -> Vec<u8> {
    let mut bytes = vec![0; BUFFER_SIZE];
    write_i32(&mut bytes, OFFSET_GAME_VERSION, 1);
    write_string(&mut bytes, OFFSET_SCORING_TRACK_NAME, 64, "Sebring");
    write_i32(&mut bytes, OFFSET_SCORING_SESSION, 5);
    write_u8(&mut bytes, OFFSET_SCORING_GAME_PHASE, 5);
    write_i32(&mut bytes, OFFSET_SCORING_NUM_VEHICLES, 2);
    write_u8(&mut bytes, OFFSET_TELEMETRY_ACTIVE_VEHICLES, 2);
    write_u8(&mut bytes, OFFSET_TELEMETRY_PLAYER_INDEX, 1);
    write_u8(&mut bytes, OFFSET_TELEMETRY_PLAYER_HAS_VEHICLE, 1);

    let vehicle = OFFSET_TELEMETRY_VEHICLES + VEHICLE_TELEMETRY_SIZE;
    write_i32(&mut bytes, vehicle + telemetry::ID, 42);
    write_string(&mut bytes, vehicle + telemetry::VEHICLE_NAME, 64, "Porsche 963");
    write_i32(&mut bytes, vehicle + telemetry::LAP_NUMBER, 3);
    write_i32(&mut bytes, vehicle + telemetry::GEAR, 4);
    write_f64(&mut bytes, vehicle + telemetry::RPM, 8_800.0);
    write_f64(&mut bytes, vehicle + telemetry::FUEL, 24.8);
    write_u8(&mut bytes, vehicle + telemetry::LAP_INVALIDATED, 1);
    write_u8(&mut bytes, vehicle + telemetry::DETACHED, 1);
    write_u8(&mut bytes, vehicle + telemetry::DENT_SEVERITY, 2);
    write_u8(&mut bytes, vehicle + telemetry::TC, 3);
    write_f32(&mut bytes, vehicle + telemetry::STATE_OF_CHARGE, 73.5);
    write_f64(&mut bytes, vehicle + telemetry::WHEELS + wheel::PRESSURE, 182.0);
    write_u8(&mut bytes, vehicle + telemetry::WHEELS + wheel::SURFACE_TYPE, 1);

    let scoring_row = OFFSET_SCORING_VEHICLES;
    write_i32(&mut bytes, scoring_row + scoring::SLOT_ID, 42);
    write_u8(&mut bytes, scoring_row + scoring::SECTOR, 2);
    write_u8(&mut bytes, scoring_row + scoring::IS_PLAYER, 1);
    write_u8(&mut bytes, scoring_row + scoring::IN_PITS, 1);
    write_u8(&mut bytes, scoring_row + scoring::PLACE, 5);
    write_string(&mut bytes, scoring_row + scoring::VEHICLE_NAME, 64, "Porsche 963 Scoring");
    write_string(&mut bytes, scoring_row + scoring::VEHICLE_CLASS, 32, "Hypercar");
    write_f64(&mut bytes, scoring_row + scoring::BEST_LAP, 90.0);
    write_i32(&mut bytes, scoring_row + VEHICLE_SCORING_SIZE + scoring::SLOT_ID, -1);
    bytes
}

#[test]
fn empty_buffer_has_no_sample() {
    let bytes = vec![0; BUFFER_SIZE];
    assert_eq!(read_player_frame(&bytes).unwrap(), None);
}

#[test]
fn ignores_missing_player_vehicle() {
    let mut bytes = vec![0; BUFFER_SIZE];
    write_i32(&mut bytes, OFFSET_GAME_VERSION, 1);
    write_u8(&mut bytes, OFFSET_TELEMETRY_ACTIVE_VEHICLES, 1);
    write_u8(&mut bytes, OFFSET_TELEMETRY_PLAYER_INDEX, 0);
    write_u8(&mut bytes, OFFSET_TELEMETRY_PLAYER_HAS_VEHICLE, 0);

    assert_eq!(read_player_frame(&bytes).unwrap(), None);
}

#[test]
fn ignores_invalid_layout_marker() {
    let mut bytes = vec![0; BUFFER_SIZE];
    write_i32(&mut bytes, OFFSET_GAME_VERSION, 1);
    write_u8(&mut bytes, OFFSET_TELEMETRY_ACTIVE_VEHICLES, 255);

    assert_eq!(read_player_frame(&bytes).unwrap(), None);
}

#[test]
fn short_buffer_is_an_error() {
    let bytes = vec![0; BUFFER_SIZE - 1];
    assert!(matches!(read_player_frame(&bytes), Err(TelemetryError::BufferTooSmall)));
}

#[test]
fn reads_the_player_frame() {
    let bytes = player_buffer();
    let frame = read_player_frame(&bytes).unwrap().unwrap();

    assert_eq!(frame.gear, Gear::Forward(4));
    assert_eq!(frame.lap_number, 3);
    assert_eq!(frame.sector, 2);
    assert_eq!(frame.player_slot_id, 42);
    assert_eq!(frame.scoring_offset, Some(OFFSET_SCORING_VEHICLES));
    assert_eq!(frame.vehicle_offset, OFFSET_TELEMETRY_VEHICLES + VEHICLE_TELEMETRY_SIZE);
    assert_eq!(frame.metadata.track_name.as_deref(), Some("Sebring"));
    assert_eq!(frame.metadata.vehicle_name.as_deref(), Some("Porsche 963 Scoring"));
    assert_eq!(frame.metadata.vehicle_class.as_deref(), Some("Hypercar"));
    assert_eq!(frame.metadata.session_kind, SessionKind::Qualifying);
    assert_eq!(frame.metadata.game_phase, GamePhase::GreenFlag);
    assert_eq!(frame.metadata.lap_invalidated, Some(true));
    assert!(frame.metadata.in_pits);
    assert!(!frame.metadata.in_garage);
    assert_eq!(frame.metadata.player_slot_id, 42);
}

#[test]
fn reads_vehicle_and_wheel_fields_as_bits() {
    let bytes = player_buffer();
    let frame = read_player_frame(&bytes).unwrap().unwrap();
    let vehicle = read_vehicle_bits(&bytes, frame.vehicle_offset);

    assert_eq!(f64::from_bits(vehicle.rpm_bits), 8_800.0);
    assert_eq!(f64::from_bits(vehicle.fuel_bits), 24.8);
    assert!(vehicle.detached);
    assert_eq!(vehicle.dent_severity_0, 2);
    assert_eq!(vehicle.tc, 3);
    assert_eq!(f32::from_bits(vehicle.state_of_charge_bits), 73.5);

    let front_left = read_wheel_bits(&bytes, frame.vehicle_offset + telemetry::WHEELS);
    assert_eq!(f64::from_bits(front_left.pressure_bits), 182.0);
    assert_eq!(front_left.surface_type, 1);
}

#[test]
fn field_rows_skip_empty_slots() {
    let bytes = player_buffer();
    let rows = read_field_rows(&bytes, 2);

    assert_eq!(rows.len(), 1);
    assert_eq!(rows[0].bits.slot_id, 42);
    assert_eq!(rows[0].bits.place, 5);
    assert_eq!(f64::from_bits(rows[0].bits.best_lap_bits), 90.0);
    assert_eq!(rows[0].vehicle_class.as_deref(), Some("Hypercar"));
    assert_eq!(rows[0].driver_name, None);
    assert_eq!(read_field_rows(&bytes, 0).len(), 0);
    assert_eq!(read_scoring_row_bits(&bytes, OFFSET_SCORING_VEHICLES).slot_id, 42);
}
