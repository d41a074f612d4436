//! Reading the player's frame out of the game's shared-memory buffer: the
//! layout check, the frame marker that detects torn reads, the search for
//! the player's scoring row and the decoding of the integer and text fields.

use vstd::prelude::*;
use crate::bytes::{self, read_i32_at, read_i8_at, read_u64_at, read_u8_at};
use crate::raw;
use crate::telemetry::{self, GamePhase, Gear, SessionKind, TelemetryError, TelemetryMetadata};
use crate::text::{self, decode_utf8_lossy, chars_of, trim_bounds, string_from_chars};

verus! {

pub const BUFFER_SIZE: usize = 324_820;
pub const MAX_VEHICLES: usize = 104;

pub const OFFSET_SCORING_DATA: usize = 1_632;
pub const OFFSET_TELEMETRY_DATA: usize = 128_464;
pub const SCORING_INFO_SIZE: usize = 548;
pub const VEHICLE_SCORING_SIZE: usize = 584;
pub const VEHICLE_TELEMETRY_SIZE: usize = 1_888;

pub const OFFSET_GAME_VERSION: usize = 64;
pub const OFFSET_SCORING_CURRENT_ET: usize = OFFSET_SCORING_DATA + 68;
pub const OFFSET_TRACK_LENGTH: usize = OFFSET_SCORING_DATA + 88;
pub const OFFSET_SCORING_NUM_VEHICLES: usize = OFFSET_SCORING_DATA + 104;
pub const OFFSET_SCORING_GAME_PHASE: usize = OFFSET_SCORING_DATA + 108;
pub const OFFSET_TELEMETRY_ACTIVE_VEHICLES: usize = OFFSET_TELEMETRY_DATA;
pub const OFFSET_TELEMETRY_PLAYER_INDEX: usize = OFFSET_TELEMETRY_DATA + 1;
pub const OFFSET_TELEMETRY_PLAYER_HAS_VEHICLE: usize = OFFSET_TELEMETRY_DATA + 2;
pub const OFFSET_SCORING_VEHICLES: usize = OFFSET_SCORING_DATA + SCORING_INFO_SIZE + 12;
pub const OFFSET_TELEMETRY_VEHICLES: usize = OFFSET_TELEMETRY_DATA + 4;
pub const OFFSET_SCORING_TRACK_NAME: usize = OFFSET_SCORING_DATA;
pub const OFFSET_SCORING_SESSION: usize = OFFSET_SCORING_DATA + 64;

pub const OFFSET_TELEMETRY_SLOT_ID: usize = 0;
pub const OFFSET_LAP_NUMBER: usize = 20;
pub const OFFSET_TELEMETRY_VEHICLE_NAME: usize = 32;
pub const OFFSET_TELEMETRY_TRACK_NAME: usize = 96;
pub const OFFSET_GEAR: usize = 352;
pub const OFFSET_SECTOR: usize = 600;
pub const OFFSET_LAP_INVALIDATED: usize = 745;

pub const OFFSET_SCORING_SLOT_ID: usize = 0;
pub const OFFSET_SCORING_VEHICLE_NAME: usize = 36;
pub const OFFSET_SCORING_SECTOR: usize = 102;
pub const OFFSET_SCORING_IS_PLAYER: usize = 196;
pub const OFFSET_SCORING_CONTROL: usize = 197;
pub const OFFSET_SCORING_IN_PITS: usize = 198;
pub const OFFSET_SCORING_VEHICLE_CLASS: usize = 200;
pub const OFFSET_SCORING_IN_GARAGE_STALL: usize = 507;

/// The header values read before and after a sample. A producer update in
/// between changes at least one of them.
#[derive(Debug, Clone, Copy, PartialEq, Eq, Structural)]
pub struct FrameMarker {
    pub game_version: i32,
    pub session_time_bits: u64,
    pub active_vehicles: u8,
    pub scoring_vehicles: i32,
    pub player_index: u8,
    pub player_has_vehicle: bool,
}

/// One past the last byte of the frame marker fields.
pub open spec fn marker_end() -> int {
    OFFSET_TELEMETRY_PLAYER_HAS_VEHICLE + 1
}

pub open spec fn marker_spec(s: Seq<u8>) -> FrameMarker {
    FrameMarker {
        game_version: bytes::le_i32(s, OFFSET_GAME_VERSION as int),
        session_time_bits: bytes::le_u64(s, OFFSET_SCORING_CURRENT_ET as int),
        active_vehicles: bytes::le_u8(s, OFFSET_TELEMETRY_ACTIVE_VEHICLES as int),
        scoring_vehicles: bytes::le_i32(s, OFFSET_SCORING_NUM_VEHICLES as int),
        player_index: bytes::le_u8(s, OFFSET_TELEMETRY_PLAYER_INDEX as int),
        player_has_vehicle: bytes::le_u8(s, OFFSET_TELEMETRY_PLAYER_HAS_VEHICLE as int) != 0,
    }
}

/// Reads the frame marker; fails only when the buffer is too short to hold it.
pub fn read_frame_marker(bytes: &[u8]) -> (marker: Result<FrameMarker, TelemetryError>)
    ensures
        bytes@.len() >= marker_end() ==> marker == Ok::<FrameMarker, TelemetryError>(marker_spec(bytes@)),
        bytes@.len() < marker_end() ==> marker == Err::<FrameMarker, TelemetryError>(TelemetryError::BufferTooSmall),
{
    let game_version = match read_i32_at(bytes, OFFSET_GAME_VERSION) {
        Some(v) => v,
        None => return Err(TelemetryError::BufferTooSmall),
    };
    let session_time_bits = match read_u64_at(bytes, OFFSET_SCORING_CURRENT_ET) {
        Some(v) => v,
        None => return Err(TelemetryError::BufferTooSmall),
    };
    let active_vehicles = match read_u8_at(bytes, OFFSET_TELEMETRY_ACTIVE_VEHICLES) {
        Some(v) => v,
        None => return Err(TelemetryError::BufferTooSmall),
    };
    let scoring_vehicles = match read_i32_at(bytes, OFFSET_SCORING_NUM_VEHICLES) {
        Some(v) => v,
        None => return Err(TelemetryError::BufferTooSmall),
    };
    let player_index = match read_u8_at(bytes, OFFSET_TELEMETRY_PLAYER_INDEX) {
        Some(v) => v,
        None => return Err(TelemetryError::BufferTooSmall),
    };
    let player_has_vehicle = match read_u8_at(bytes, OFFSET_TELEMETRY_PLAYER_HAS_VEHICLE) {
        Some(v) => v != 0,
        None => return Err(TelemetryError::BufferTooSmall),
    };
    Ok(FrameMarker {
        game_version,
        session_time_bits,
        active_vehicles,
        scoring_vehicles,
        player_index,
        player_has_vehicle,
    })
}

/// The one raw layout this reader is built for: the exact buffer size and
/// marker values that stay inside the layout's bounds.
pub open spec fn layout_ok(len: int, marker: FrameMarker) -> bool {
    &&& len == BUFFER_SIZE
    &&& marker.game_version > 0
    &&& marker.active_vehicles <= MAX_VEHICLES
    &&& marker.scoring_vehicles >= 0
    &&& marker.scoring_vehicles <= MAX_VEHICLES
    &&& (marker.player_has_vehicle ==> marker.player_index < MAX_VEHICLES)
}

/// `Some(())` exactly when the buffer and marker match the supported layout.
pub fn detect_layout(bytes: &[u8], marker: FrameMarker) -> (found: Option<()>)
    ensures
        found is Some <==> layout_ok(bytes@.len() as int, marker),
{
    if bytes.len() != BUFFER_SIZE
        || marker.game_version <= 0
        || marker.active_vehicles as usize > MAX_VEHICLES
        || marker.scoring_vehicles < 0
        || marker.scoring_vehicles as usize > MAX_VEHICLES
        || (marker.player_has_vehicle && marker.player_index as usize >= MAX_VEHICLES)
    {
        return None;
    }
    Some(())
}

/// Rejects a read whose marker changed between its start and its end.
pub fn ensure_same_frame(before: FrameMarker, after: FrameMarker) -> (r: Result<(), TelemetryError>)
    ensures
        r is Ok <==> before == after,
        r is Err ==> r == Err::<(), TelemetryError>(TelemetryError::TornFrame),
{
    if before != after {
        return Err(TelemetryError::TornFrame);
    }
    Ok(())
}

/// How many times a read is tried while the game keeps rewriting the frame.
pub const MAX_TORN_FRAME_RETRIES: usize = 3;

/// What to do after one attempt at reading a sample.
#[derive(Debug)]
pub enum TornReadStep<T> {
    /// Hand this result to the caller.
    Done(Result<T, TelemetryError>),
    /// Read again: the frame changed under the previous attempt.
    Retry,
}

/// The decision after attempt number `attempt` (counted from 0) gave
/// `outcome`: a sample or an error other than a torn frame is returned at
/// once; a torn frame is read again while attempts remain, and reported as
/// a torn frame once they are spent.
pub fn torn_read_step<T>(attempt: usize, outcome: Result<T, TelemetryError>) -> (step: TornReadStep<T>)
    ensures
        match outcome {
            Ok(v) => step == TornReadStep::Done(Ok::<T, TelemetryError>(v)),
            Err(e) => if e == TelemetryError::TornFrame {
                if attempt + 1 < MAX_TORN_FRAME_RETRIES {
                    step is Retry
                } else {
                    step == TornReadStep::<T>::Done(Err(TelemetryError::TornFrame))
                }
            } else {
                step == TornReadStep::<T>::Done(Err(e))
            },
        },
{
    match outcome {
        Ok(v) => TornReadStep::Done(Ok(v)),
        Err(TelemetryError::TornFrame) => {
            if attempt < MAX_TORN_FRAME_RETRIES - 1 {
                TornReadStep::Retry
            } else {
                TornReadStep::Done(Err(TelemetryError::TornFrame))
            }
        },
        Err(e) => TornReadStep::Done(Err(e)),
    }
}

/// Byte offset of the `i`-th scoring row.
pub open spec fn scoring_row(i: int) -> int {
    OFFSET_SCORING_VEHICLES + i * VEHICLE_SCORING_SIZE
}

/// Byte offset of the `i`-th vehicle telemetry record.
pub open spec fn telemetry_row(i: int) -> int {
    OFFSET_TELEMETRY_VEHICLES + i * VEHICLE_TELEMETRY_SIZE
}

pub open spec fn row_slot_id(s: Seq<u8>, i: int) -> i32 {
    bytes::le_i32(s, scoring_row(i) + OFFSET_SCORING_SLOT_ID)
}

/// A scoring row that marks itself as the player's (player flag set, or
/// controlled locally).
pub open spec fn row_flags_player(s: Seq<u8>, i: int) -> bool {
    bytes::le_u8(s, scoring_row(i) + OFFSET_SCORING_IS_PLAYER) != 0
        || bytes::le_i8(s, scoring_row(i) + OFFSET_SCORING_CONTROL) == 0
}

/// The player's scoring row among the first `n` rows: the first row whose
/// slot id is `slot`; failing that, the last row flagged as the player's.
#[verifier::opaque]
pub open spec fn player_scoring_row(s: Seq<u8>, n: int, slot: i32) -> Option<usize> {
    if exists|i: int| 0 <= i < n && #[trigger] row_slot_id(s, i) == slot {
        let i = choose|i: int| 0 <= i < n && #[trigger] row_slot_id(s, i) == slot
            && forall|j: int| 0 <= j < i ==> #[trigger] row_slot_id(s, j) != slot;
        Some(scoring_row(i) as usize)
    } else if exists|i: int| 0 <= i < n && #[trigger] row_flags_player(s, i) {
        let i = choose|i: int| 0 <= i < n && #[trigger] row_flags_player(s, i)
            && forall|j: int| i < j < n ==> !#[trigger] row_flags_player(s, j);
        Some(scoring_row(i) as usize)
    } else {
        None
    }
}

proof fn lemma_first_match(s: Seq<u8>, n: int, slot: i32, index: int)
    requires
        0 <= index < n <= MAX_VEHICLES,
        row_slot_id(s, index) == slot,
        forall|j: int| 0 <= j < index ==> #[trigger] row_slot_id(s, j) != slot,
    ensures
        player_scoring_row(s, n, slot) == Some(scoring_row(index) as usize),
{
    reveal(player_scoring_row);
    let i = choose|i: int| 0 <= i < n && #[trigger] row_slot_id(s, i) == slot
        && forall|j: int| 0 <= j < i ==> #[trigger] row_slot_id(s, j) != slot;
    if i < index {
        assert(row_slot_id(s, i) != slot);
    }
    if i > index {
        assert(row_slot_id(s, index) != slot);
    }
}

proof fn lemma_no_match(s: Seq<u8>, n: int, slot: i32, last_flag: int)
    requires
        0 <= n <= MAX_VEHICLES,
        forall|j: int| 0 <= j < n ==> #[trigger] row_slot_id(s, j) != slot,
        -1 <= last_flag < n,
        last_flag >= 0 ==> row_flags_player(s, last_flag),
        forall|j: int| last_flag < j < n ==> !#[trigger] row_flags_player(s, j),
        last_flag < 0 ==> forall|j: int| 0 <= j < n ==> !#[trigger] row_flags_player(s, j),
    ensures
        player_scoring_row(s, n, slot) == (if last_flag >= 0 { Some(scoring_row(last_flag) as usize) } else { None::<usize> }),
{
    reveal(player_scoring_row);
    if last_flag >= 0 {
        let i = choose|i: int| 0 <= i < n && #[trigger] row_flags_player(s, i)
            && forall|j: int| i < j < n ==> !#[trigger] row_flags_player(s, j);
        assert(0 <= last_flag < n && row_flags_player(s, last_flag));
        if i < last_flag {
            assert(!row_flags_player(s, last_flag));
        }
        if i > last_flag {
            assert(!row_flags_player(s, i));
        }
    }
}

/// Finds the player's scoring row among the first `scoring_vehicles` rows
/// (at most the layout's vehicle count).
#[verifier::spinoff_prover]
fn find_player_scoring_offset(bytes: &[u8], scoring_vehicles: usize, player_slot_id: i32)
    -> (r: Result<Option<usize>, TelemetryError>)
    requires
        bytes@.len() >= BUFFER_SIZE,
    ensures
        r == Ok::<Option<usize>, TelemetryError>(player_scoring_row(
            bytes@,
            if scoring_vehicles < MAX_VEHICLES { scoring_vehicles as int } else { MAX_VEHICLES as int },
            player_slot_id,
        )),
        r matches Ok(Some(o)) ==> o + VEHICLE_SCORING_SIZE <= bytes@.len(),
{
    let n = if scoring_vehicles < MAX_VEHICLES { scoring_vehicles } else { MAX_VEHICLES };
    let mut player_flag_match: Option<usize> = None;
    let ghost mut last_flag: int = -1;
    let mut index: usize = 0;
    while index < n
        invariant
            n <= MAX_VEHICLES,
            n == (if scoring_vehicles < MAX_VEHICLES { scoring_vehicles } else { MAX_VEHICLES }),
            bytes@.len() >= BUFFER_SIZE,
            index <= n,
            forall|j: int| 0 <= j < index ==> #[trigger] row_slot_id(bytes@, j) != player_slot_id,
            -1 <= last_flag < index,
            last_flag >= 0 ==> row_flags_player(bytes@, last_flag),
            forall|j: int| last_flag < j < index ==> !#[trigger] row_flags_player(bytes@, j),
            last_flag < 0 ==> forall|j: int| 0 <= j < index ==> !#[trigger] row_flags_player(bytes@, j),
            player_flag_match matches Some(o) ==> o + VEHICLE_SCORING_SIZE <= bytes@.len(),
            player_flag_match == (if last_flag >= 0 { Some(scoring_row(last_flag) as usize) } else { None::<usize> }),
        decreases n - index,
    {
        let offset = OFFSET_SCORING_VEHICLES + index * VEHICLE_SCORING_SIZE;
        let slot_id = match read_i32_at(bytes, offset + OFFSET_SCORING_SLOT_ID) {
            Some(v) => v,
            None => return Err(TelemetryError::BufferTooSmall),
        };
        if slot_id == player_slot_id {
            proof {
                lemma_first_match(bytes@, n as int, player_slot_id, index as int);
            }
            return Ok(Some(offset));
        }
        let is_player = match read_u8_at(bytes, offset + OFFSET_SCORING_IS_PLAYER) {
            Some(v) => v != 0,
            None => return Err(TelemetryError::BufferTooSmall),
        };
        let control = match read_i8_at(bytes, offset + OFFSET_SCORING_CONTROL) {
            Some(v) => v,
            None => return Err(TelemetryError::BufferTooSmall),
        };
        if is_player || control == 0 {
            player_flag_match = Some(offset);
            proof {
                last_flag = index as int;
            }
        }
        index = index + 1;
    }
    proof {
        lemma_no_match(bytes@, n as int, player_slot_id, last_flag);
    }
    Ok(player_flag_match)
}

/// Index of the first zero byte of `sl`, or its length when it has none.
pub open spec fn first_zero(sl: Seq<u8>) -> int {
    if exists|i: int| 0 <= i < sl.len() && sl[i] == 0 {
        choose|i: int| 0 <= i < sl.len() && sl[i] == 0 && forall|j: int| 0 <= j < i ==> sl[j] != 0
    } else {
        sl.len() as int
    }
}

/// The text of a fixed-width, zero-terminated string field: the bytes before
/// the first zero, decoded (invalid UTF-8 replaced) and trimmed; an empty
/// result is no value.
pub open spec fn string_field(s: Seq<u8>, off: int, len: int) -> Option<Seq<char>> {
    let sl = s.subrange(off, off + len);
    let text = text::trimmed(text::lossy_utf8(sl.subrange(0, first_zero(sl))));
    if text.len() == 0 { None } else { Some(text) }
}

pub open spec fn opt_view(o: Option<String>) -> Option<Seq<char>> {
    match o {
        Some(s) => Some(s@),
        None => None,
    }
}

pub open spec fn or_else<T>(a: Option<T>, b: Option<T>) -> Option<T> {
    if a is Some { a } else { b }
}

/// Reads the string field of `len` bytes at `offset`.
pub fn read_string(bytes: &[u8], offset: usize, len: usize) -> (r: Result<Option<String>, TelemetryError>)
    ensures
        r is Err <==> !(offset + len <= bytes@.len()),
        r is Err ==> r == Err::<Option<String>, TelemetryError>(TelemetryError::BufferTooSmall),
        r matches Ok(v) ==> opt_view(v) == string_field(bytes@, offset as int, len as int),
{
    if offset > bytes.len() || len > bytes.len() - offset {
        return Err(TelemetryError::BufferTooSmall);
    }
    let ghost sl = bytes@.subrange(offset as int, offset + len);
    let mut end: usize = 0;
    while end < len && bytes[offset + end] != 0
        invariant
            offset + len <= bytes@.len(),
            bytes@.len() == bytes.len(),
            sl == bytes@.subrange(offset as int, offset + len),
            end <= len,
            forall|j: int| 0 <= j < end ==> sl[j] != 0,
        decreases len - end,
    {
        end = end + 1;
    }
    proof {
        if end < len {
            assert(sl[end as int] == 0);
            let i = choose|i: int| 0 <= i < sl.len() && sl[i] == 0 && forall|j: int| 0 <= j < i ==> sl[j] != 0;
            assert(0 <= end < sl.len() && sl[end as int] == 0 && forall|j: int| 0 <= j < end ==> sl[j] != 0);
            if i < end {
                assert(sl[i] != 0);
            }
            if i > end {
                assert(sl[end as int] != 0);
            }
        } else {
            assert(!exists|i: int| 0 <= i < sl.len() && sl[i] == 0);
        }
        assert(first_zero(sl) == end as int);
    }
    let raw = &bytes[offset..offset + end];
    assert(raw@ =~= sl.subrange(0, end as int));
    let decoded = decode_utf8_lossy(raw);
    let chars = chars_of(decoded.as_str());
    let (start, stop) = trim_bounds(&chars);
    if start == stop {
        assert(text::trimmed(text::lossy_utf8(raw@)).len() == 0);
        return Ok(None);
    }
    let value = string_from_chars(&chars, start, stop);
    Ok(Some(value))
}

/// The sector the player is in: the scoring row's sector when the row is
/// known, the telemetry record's otherwise.
pub open spec fn sector_spec(s: Seq<u8>, scoring_offset: Option<usize>, vehicle_offset: int) -> i32 {
    match scoring_offset {
        Some(o) => bytes::le_i8(s, o + OFFSET_SCORING_SECTOR) as i32,
        None => bytes::le_i32(s, vehicle_offset + OFFSET_SECTOR),
    }
}

/// Requirements on the offsets handed to the field readers: the telemetry
/// record and the scoring row lie inside the buffer.
pub open spec fn offsets_inside(s: Seq<u8>, scoring_offset: Option<usize>, vehicle_offset: int) -> bool {
    &&& s.len() >= BUFFER_SIZE
    &&& 0 <= vehicle_offset
    &&& vehicle_offset + VEHICLE_TELEMETRY_SIZE <= s.len()
    &&& (scoring_offset matches Some(o) ==> o + VEHICLE_SCORING_SIZE <= s.len())
}

fn read_sector(bytes: &[u8], scoring_offset: Option<usize>, vehicle_offset: usize) -> (r: Result<i32, TelemetryError>)
    requires
        offsets_inside(bytes@, scoring_offset, vehicle_offset as int),
    ensures
        r == Ok::<i32, TelemetryError>(sector_spec(bytes@, scoring_offset, vehicle_offset as int)),
{
    // The slice's length, at most `usize::MAX`, bounds the offsets below.
    let _len = bytes.len();
    if let Some(offset) = scoring_offset {
        return match read_i8_at(bytes, offset + OFFSET_SCORING_SECTOR) {
            Some(v) => Ok(v as i32),
            None => Err(TelemetryError::BufferTooSmall),
        };
    }
    match read_i32_at(bytes, vehicle_offset + OFFSET_SECTOR) {
        Some(v) => Ok(v),
        None => Err(TelemetryError::BufferTooSmall),
    }
}

/// Reads a scoring-row flag byte, `false` when there is no row.
fn read_row_flag(bytes: &[u8], scoring_offset: Option<usize>, field: usize) -> (b: bool)
    requires
        field < VEHICLE_SCORING_SIZE,
        scoring_offset matches Some(o) ==> o + VEHICLE_SCORING_SIZE <= bytes@.len(),
    ensures
        b == (match scoring_offset {
            Some(o) => bytes::le_u8(bytes@, o + field) != 0,
            None => false,
        }),
{
    // The slice's length, at most `usize::MAX`, bounds the offsets below.
    let _len = bytes.len();
    match scoring_offset {
        Some(offset) => bytes[offset + field] != 0,
        None => false,
    }
}

/// Reads an optional string field of the scoring row.
fn read_row_string(bytes: &[u8], scoring_offset: Option<usize>, field: usize, len: usize) -> (r: Option<String>)
    requires
        field + len <= VEHICLE_SCORING_SIZE,
        scoring_offset matches Some(o) ==> o + VEHICLE_SCORING_SIZE <= bytes@.len(),
    ensures
        opt_view(r) == (match scoring_offset {
            Some(o) => string_field(bytes@, o + field, len as int),
            None => None,
        }),
{
    // The slice's length, at most `usize::MAX`, bounds the offsets below.
    let _len = bytes.len();
    match scoring_offset {
        Some(offset) => match read_string(bytes, offset + field, len) {
            Ok(v) => v,
            Err(_) => None,
        },
        None => None,
    }
}

/// Session and identity fields of the player.
pub open spec fn metadata_matches(
    m: TelemetryMetadata,
    s: Seq<u8>,
    scoring_offset: Option<usize>,
    vehicle_offset: int,
    player_slot_id: i32,
) -> bool {
    &&& opt_view(m.track_name) == or_else(
        string_field(s, OFFSET_SCORING_TRACK_NAME as int, 64),
        string_field(s, vehicle_offset + OFFSET_TELEMETRY_TRACK_NAME, 64),
    )
    &&& m.track_layout is None
    &&& opt_view(m.vehicle_name) == or_else(
        match scoring_offset {
            Some(o) => string_field(s, o + OFFSET_SCORING_VEHICLE_NAME, 64),
            None => None,
        },
        string_field(s, vehicle_offset + OFFSET_TELEMETRY_VEHICLE_NAME, 64),
    )
    &&& opt_view(m.vehicle_class) == (match scoring_offset {
        Some(o) => string_field(s, o + OFFSET_SCORING_VEHICLE_CLASS, 32),
        None => None,
    })
    &&& m.session_kind == telemetry::session_kind_from_raw(bytes::le_i32(s, OFFSET_SCORING_SESSION as int))
    &&& m.game_phase == telemetry::game_phase_from_raw(bytes::le_u8(s, OFFSET_SCORING_GAME_PHASE as int))
    &&& m.in_pits == (match scoring_offset {
        Some(o) => bytes::le_u8(s, o + OFFSET_SCORING_IN_PITS) != 0,
        None => false,
    })
    &&& m.in_garage == (match scoring_offset {
        Some(o) => bytes::le_u8(s, o + OFFSET_SCORING_IN_GARAGE_STALL) != 0,
        None => false,
    })
    &&& m.lap_invalidated == Some(bytes::le_u8(s, vehicle_offset + OFFSET_LAP_INVALIDATED) != 0)
    &&& m.player_slot_id == (match scoring_offset {
        Some(o) => bytes::le_i32(s, o + OFFSET_SCORING_SLOT_ID),
        None => player_slot_id,
    })
}

fn read_metadata(bytes: &[u8], scoring_offset: Option<usize>, vehicle_offset: usize, player_slot_id: i32)
    -> (r: Result<TelemetryMetadata, TelemetryError>)
    requires
        offsets_inside(bytes@, scoring_offset, vehicle_offset as int),
    ensures
        r matches Ok(m) && metadata_matches(m, bytes@, scoring_offset, vehicle_offset as int, player_slot_id),
{
    // The slice's length, at most `usize::MAX`, bounds the offsets below.
    let _len = bytes.len();
    let telemetry_track = read_string(bytes, vehicle_offset + OFFSET_TELEMETRY_TRACK_NAME, 64)?;
    let scoring_track = read_string(bytes, OFFSET_SCORING_TRACK_NAME, 64)?;
    let track_name = match scoring_track {
        Some(name) => Some(name),
        None => telemetry_track,
    };
    let scoring_vehicle = read_row_string(bytes, scoring_offset, OFFSET_SCORING_VEHICLE_NAME, 64);
    let telemetry_vehicle = read_string(bytes, vehicle_offset + OFFSET_TELEMETRY_VEHICLE_NAME, 64)?;
    let vehicle_name = match scoring_vehicle {
        Some(name) => Some(name),
        None => telemetry_vehicle,
    };
    let vehicle_class = read_row_string(bytes, scoring_offset, OFFSET_SCORING_VEHICLE_CLASS, 32);
    let session = match read_i32_at(bytes, OFFSET_SCORING_SESSION) {
        Some(v) => v,
        None => return Err(TelemetryError::BufferTooSmall),
    };
    let phase = bytes[OFFSET_SCORING_GAME_PHASE];
    let slot = match scoring_offset {
        Some(offset) => match read_i32_at(bytes, offset + OFFSET_SCORING_SLOT_ID) {
            Some(v) => v,
            None => return Err(TelemetryError::BufferTooSmall),
        },
        None => player_slot_id,
    };
    Ok(TelemetryMetadata {
        track_name,
        track_layout: None,
        vehicle_name,
        vehicle_class,
        session_kind: SessionKind::from(session),
        game_phase: GamePhase::from(phase),
        in_pits: read_row_flag(bytes, scoring_offset, OFFSET_SCORING_IN_PITS),
        in_garage: read_row_flag(bytes, scoring_offset, OFFSET_SCORING_IN_GARAGE_STALL),
        lap_invalidated: Some(bytes[vehicle_offset + OFFSET_LAP_INVALIDATED] != 0),
        player_slot_id: slot,
    })
}

/// The integer and text part of the player's sample, and where in the buffer
/// the player's records are.
#[derive(Debug, Clone, PartialEq)]
pub struct PlayerFrame {
    pub marker: FrameMarker,
    pub vehicle_offset: usize,
    pub scoring_offset: Option<usize>,
    pub scoring_vehicles: usize,
    pub player_slot_id: i32,
    pub gear: Gear,
    pub lap_number: i32,
    pub sector: i32,
    pub metadata: TelemetryMetadata,
}

/// Whether the buffer holds a frame of the supported layout with a player
/// vehicle in it.
pub open spec fn player_present(s: Seq<u8>) -> bool {
    let m = marker_spec(s);
    &&& layout_ok(s.len() as int, m)
    &&& m.player_has_vehicle
    &&& m.player_index < m.active_vehicles
    &&& m.player_index < MAX_VEHICLES
}

/// Every field of `f` is what the buffer `s` holds for the player.
pub open spec fn frame_matches(f: PlayerFrame, s: Seq<u8>) -> bool {
    let m = marker_spec(s);
    let vo = telemetry_row(m.player_index as int);
    let slot = bytes::le_i32(s, vo + OFFSET_TELEMETRY_SLOT_ID);
    &&& f.marker == m
    &&& f.vehicle_offset == vo
    &&& f.player_slot_id == slot
    &&& f.scoring_vehicles == m.scoring_vehicles
    &&& f.scoring_offset == player_scoring_row(s, m.scoring_vehicles as int, slot)
    &&& f.gear == telemetry::gear_from_raw(bytes::le_i32(s, vo + OFFSET_GEAR))
    &&& f.lap_number == bytes::le_i32(s, vo + OFFSET_LAP_NUMBER)
    &&& f.sector == sector_spec(s, f.scoring_offset, vo)
    &&& metadata_matches(f.metadata, s, f.scoring_offset, vo, slot)
}

/// Reads the player's frame: fails when the buffer is too short; no frame
/// when the layout is not the supported one or no player vehicle is active.
pub fn read_player_frame(bytes: &[u8]) -> (r: Result<Option<PlayerFrame>, TelemetryError>)
    ensures
        r is Err <==> bytes@.len() < BUFFER_SIZE,
        r is Err ==> r == Err::<Option<PlayerFrame>, TelemetryError>(TelemetryError::BufferTooSmall),
        r matches Ok(None) ==> !player_present(bytes@),
        r matches Ok(Some(f)) ==> player_present(bytes@) && frame_matches(f, bytes@),
{
    let total = bytes.len();
    if total < BUFFER_SIZE {
        return Err(TelemetryError::BufferTooSmall);
    }
    let marker = read_frame_marker(bytes)?;
    if detect_layout(bytes, marker).is_none() {
        return Ok(None);
    }
    let raw_scoring = match read_i32_at(bytes, OFFSET_SCORING_NUM_VEHICLES) {
        Some(v) => v,
        None => return Err(TelemetryError::BufferTooSmall),
    };
    let scoring_vehicles: usize = if raw_scoring < 0 {
        0
    } else if raw_scoring > MAX_VEHICLES as i32 {
        MAX_VEHICLES
    } else {
        raw_scoring as usize
    };
    let player_index = marker.player_index as usize;
    if !marker.player_has_vehicle || player_index >= marker.active_vehicles as usize || player_index >= MAX_VEHICLES {
        return Ok(None);
    }
    let vehicle_offset = OFFSET_TELEMETRY_VEHICLES + player_index * VEHICLE_TELEMETRY_SIZE;
    let player_slot_id = match read_i32_at(bytes, vehicle_offset + OFFSET_TELEMETRY_SLOT_ID) {
        Some(v) => v,
        None => return Err(TelemetryError::BufferTooSmall),
    };
    let scoring_offset = find_player_scoring_offset(bytes, scoring_vehicles, player_slot_id)?;
    let raw_gear = match read_i32_at(bytes, vehicle_offset + OFFSET_GEAR) {
        Some(v) => v,
        None => return Err(TelemetryError::BufferTooSmall),
    };
    let lap_number = match read_i32_at(bytes, vehicle_offset + OFFSET_LAP_NUMBER) {
        Some(v) => v,
        None => return Err(TelemetryError::BufferTooSmall),
    };
    let sector = read_sector(bytes, scoring_offset, vehicle_offset)?;
    let metadata = read_metadata(bytes, scoring_offset, vehicle_offset, player_slot_id)?;
    Ok(Some(PlayerFrame {
        marker,
        vehicle_offset,
        scoring_offset,
        scoring_vehicles,
        player_slot_id,
        gear: Gear::from(raw_gear),
        lap_number,
        sector,
        metadata,
    }))
}


/// The frame marker, the player's record and the fields read from it lie
/// where the buffer layout table puts them: the game version, session time,
/// vehicle counts and player index at their header offsets; the player's
/// telemetry record at its index in the telemetry vehicle array, with its
/// slot id, gear and lap number at their record offsets; scoring rows at
/// their index in the scoring vehicle array.
pub proof fn lemma_frame_follows_layout(s: Seq<u8>, f: PlayerFrame, i: int)
    ensures
        marker_spec(s).game_version == bytes::le_i32(s, raw::GENERIC_GAME_VERSION as int),
        marker_spec(s).session_time_bits == bytes::le_u64(s, raw::SCORING_DATA_OFFSET + raw::session::CURRENT_ET),
        marker_spec(s).active_vehicles == bytes::le_u8(s, raw::TELEMETRY_ACTIVE_VEHICLES as int),
        marker_spec(s).scoring_vehicles == bytes::le_i32(s, raw::SCORING_DATA_OFFSET + raw::session::VEHICLE_COUNT),
        marker_spec(s).player_index == bytes::le_u8(s, raw::TELEMETRY_PLAYER_INDEX as int),
        marker_spec(s).player_has_vehicle == (bytes::le_u8(s, raw::TELEMETRY_PLAYER_HAS_VEHICLE as int) != 0),
        scoring_row(i) == raw::SCORING_VEHICLES_OFFSET + i * raw::VEHICLE_SCORING_SIZE,
        telemetry_row(i) == raw::TELEMETRY_VEHICLES_OFFSET + i * raw::VEHICLE_TELEMETRY_SIZE,
        row_slot_id(s, i) == bytes::le_i32(s, scoring_row(i) + raw::scoring::SLOT_ID),
        row_flags_player(s, i) == (bytes::le_u8(s, scoring_row(i) + raw::scoring::IS_PLAYER) != 0
            || bytes::le_i8(s, scoring_row(i) + raw::scoring::CONTROL) == 0),
        frame_matches(f, s) ==> {
            let vo = raw::TELEMETRY_VEHICLES_OFFSET + marker_spec(s).player_index * raw::VEHICLE_TELEMETRY_SIZE;
            &&& f.vehicle_offset == vo
            &&& f.player_slot_id == bytes::le_i32(s, vo + raw::telemetry::ID)
            &&& f.gear == telemetry::gear_from_raw(bytes::le_i32(s, vo + raw::telemetry::GEAR))
            &&& f.lap_number == bytes::le_i32(s, vo + raw::telemetry::LAP_NUMBER)
            &&& f.metadata.lap_invalidated == Some(bytes::le_u8(s, vo + raw::telemetry::LAP_INVALIDATED) != 0)
            &&& f.metadata.session_kind == telemetry::session_kind_from_raw(
                bytes::le_i32(s, raw::SCORING_DATA_OFFSET + raw::session::SESSION))
            &&& f.metadata.game_phase == telemetry::game_phase_from_raw(
                bytes::le_u8(s, raw::SCORING_DATA_OFFSET + raw::session::GAME_PHASE))
        },
{
}

} // verus!
