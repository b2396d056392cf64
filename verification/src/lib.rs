//! Low-latency market-data fan-in core.
//!
//! The verified library models the shared slot table as an owned byte
//! region, frames messages into slots with a colon-separated ASCII
//! header, parses consumer snapshots back into envelopes, classifies
//! inbound feed frames, and maintains a rolling p95 latency estimator.
//! Transport, file mapping and process plumbing live outside the
//! library and only exchange plain values with it.

pub mod compression;
pub mod config;
pub mod consumer;
pub mod currency;
pub mod decimal;
pub mod dispatch;
pub mod envelope;
pub mod errors;
pub mod framing;
pub mod htx_market;
pub mod htx_symbol;
pub mod metrics;
pub mod pair;
pub mod precision;
pub mod ring;
pub mod shm_block_writer;
pub mod shm_reader;
pub mod slot_table;
pub mod string_u8_util;
pub mod time_util;
pub mod websocket;
