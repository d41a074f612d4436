use hashoverlay::lap_store::{
    decode_reference_lap, encode_reference_lap, sanitize_path_part, ReferenceLapKey, ReferenceLapStore,
    StorageError, StoredLap, StoredPoint,
};

const MAGIC: &[u8; 8] = b"HOLAP001";

fn point(progress: f64, time_seconds: f64) -> StoredPoint {
    StoredPoint {
        progress_bits: progress.to_bits(),
        time_bits: time_seconds.to_bits(),
        throttle_bits: progress.to_bits(),
        brake_bits: 0.0f64.to_bits(),
        speed_bits: 200.0f64.to_bits(),
        gear: 5,
        steering_bits: 0.0f64.to_bits(),
    }
}

#[test]
fn sanitizes_lap_keys_for_paths() {
    let key = ReferenceLapKey {
        track: "Le Mans/24h".to_string(),
        track_layout: "2026".to_string(),
        car: "Car:Hyper".to_string(),
        legacy_vehicle_class: Some("Hypercar".to_string()),
    };

    assert_eq!(key.file_stem(), "le-mans-24h__2026__car-hyper");
    assert_eq!(key.legacy_file_stem().as_deref(), Some("le-mans-24h__car-hyper__hypercar"));
}

#[test]
fn rejects_invalid_magic() {
    assert!(matches!(decode_reference_lap(b"NOTALAP1"), Err(StorageError::InvalidFormat)));
}

#[test]
fn rejects_absurd_point_count() {
    let mut bytes = Vec::new();
    bytes.extend_from_slice(MAGIC);
    bytes.extend_from_slice(&90.0f64.to_le_bytes());
    bytes.extend_from_slice(&u32::MAX.to_le_bytes());

    assert!(matches!(decode_reference_lap(&bytes), Err(StorageError::InvalidFormat)));
}

#[test]
fn encoded_laps_decode_to_the_same_lap() {
    let lap = StoredLap { total_time_bits: 90.0f64.to_bits(), points: vec![point(0.0, 0.0), point(0.5, 45.0), point(1.0, 90.0)] };
    let bytes = encode_reference_lap(&lap);
    assert_eq!(bytes.len(), 20 + 3 * 52);
    assert_eq!(&bytes[0..8], MAGIC);
    let decoded = decode_reference_lap(&bytes).unwrap();
    assert_eq!(decoded, lap);
    assert_eq!(f64::from_bits(decoded.points[1].time_bits), 45.0);
}

#[test]
fn rejects_truncated_points() {
    let lap = StoredLap { total_time_bits: 90.0f64.to_bits(), points: vec![point(0.0, 0.0), point(1.0, 90.0)] };
    let bytes = encode_reference_lap(&lap);
    assert!(matches!(decode_reference_lap(&bytes[..bytes.len() - 1]), Err(StorageError::InvalidFormat)));
    assert!(matches!(decode_reference_lap(&bytes[..10]), Err(StorageError::InvalidFormat)));
}

#[test]
fn fallback_key_names_unknown_parts() {
    let key = ReferenceLapKey::fallback();
    assert_eq!(key.file_stem(), "unknown-track__unknown-layout__unknown-car");
    assert_eq!(key.legacy_file_stem(), None);
}

#[test]
fn sanitizing_keeps_only_lowercase_words_joined_by_dashes() {
    assert_eq!(sanitize_path_part("  Porsche 963 "), "porsche-963");
    assert_eq!(sanitize_path_part("--"), "");
    assert_eq!(sanitize_path_part("A_b-C"), "a_b-c");
}

#[test]
fn store_paths_join_root_and_stem() {
    let store = ReferenceLapStore::new("laps".to_string());
    let key = ReferenceLapKey {
        track: "Sebring".to_string(),
        track_layout: "unknown-layout".to_string(),
        car: "Porsche 963".to_string(),
        legacy_vehicle_class: Some("Hypercar".to_string()),
    };
    assert_eq!(store.root(), "laps");
    assert_eq!(store.personal_best_path(&key), "laps/sebring__unknown-layout__porsche-963.pb-lap");
    assert_eq!(store.legacy_personal_best_path(&key).as_deref(), Some("laps/sebring__porsche-963__hypercar.pb-lap"));
}
