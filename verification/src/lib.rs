//! Verified core of a small Linux metrics exporter.
//!
//! The crate parses the kernel's textual statistics files (aggregate CPU
//! times, per-device disk counters, the memory summary and per-interface
//! network counters) into typed records, turns those records into metric
//! families, and renders metric families into the text exposition format
//! with exact escaping and numeric formatting.  File and network I/O live
//! outside this crate; everything here is pure text-in / data-out and is
//! verified against the specifications in each module.

pub mod config;
pub mod cpu;
pub mod disk;
pub mod error;
pub mod memory;
pub mod network;
pub mod pattern;
pub mod registry;
pub mod metric;
pub mod text;
pub mod value;
