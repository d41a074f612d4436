//! Verified core of a read-only racing telemetry overlay.

pub mod ring_buffer;
pub mod text;
pub mod telemetry;
pub mod raw;
pub mod bytes;
pub mod shared_memory;
pub mod hotkeys;
pub mod config;
pub mod widgets;
pub mod lap_store;
pub mod lap_engine;
pub mod overlay_text;
pub mod host;
pub mod presets;
pub mod frame_fields;
pub mod platform;
pub mod relative;
pub mod fuel;
pub mod standings;
pub mod edit_layout;
pub mod cli;
