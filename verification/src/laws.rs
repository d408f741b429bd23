//! Laws of the operations, stated of what their calls are given and what they return.

pub mod big_endian;
pub mod command;
pub mod downlink;
pub mod dp_container;
pub mod encoding;
pub mod event;
pub mod filter;
pub mod float;
pub mod hints;
pub mod instance;
pub mod interval_tracker;
pub mod json;
pub mod names;
pub mod packet;
pub mod status;
pub mod string_map;
pub mod telemetry;
pub mod text;
pub mod time;
pub mod values;
