//! Telemetry frames of a satellite ground station: the byte layout of a
//! frame, its checks and readings, and the decisions of the station's
//! display loop.

pub mod display;
pub mod endian;
pub mod station;
pub mod telemetry;
pub mod text;
