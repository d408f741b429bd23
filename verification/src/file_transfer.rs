//! File downlink support: bucket listing and packet-based interval tracking.
//!
//! `FprimeFilePacketService` reassembles APID 3 file packets into a YAMCS bucket (default name
//! `fprimeFilesIn`) and validates them byte-perfect. This module maps bucket objects into Hermes
//! `FileDownlink` records, and separately tracks the byte ranges observed in raw file packets
//! without holding onto their payloads (see `IntervalTracker`).

pub mod downlink;
pub mod interval_tracker;
pub mod packet;

pub use crate::time::parse_yamcs_timestamp;
pub use downlink::{bucket_object_to_file_downlink, DEFAULT_DOWNLINK_BUCKET};
pub use interval_tracker::IntervalTracker;
pub use packet::{parse_file_packet, FilePacket, FILE_APID, FILE_DESCRIPTOR};
