//! Bridge between YAMCS and Hermes: conversions of commands, events, telemetry and file
//! downlink records, a tracker for file transfers in flight, and parsers for F Prime file
//! packets and data product containers.

pub mod big_endian;
pub mod buckets;
pub mod convert;
pub mod dp_container;
pub mod encoding;
pub mod file_transfer;
pub mod float;
pub mod hermes;
pub mod json;
pub mod laws;
pub mod outside;
pub mod spans;
pub mod status;
pub mod string_map;
pub mod text;
pub mod time;
pub mod yamcs;
