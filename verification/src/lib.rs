//! Packet pipeline of a hardware-telemetry gateway: frame codec, checksum
//! validation, field decoding, classification and running statistics.

pub mod byte_stuffing;
pub mod controller;
pub mod crc;
pub mod dump_reader;
pub mod framing;
pub mod linear11;
pub mod preader;
pub mod psorter;
pub mod pwriter;
