//! Typed-register polling core for Modbus-style and IEC 60870-5-104-style
//! field devices.
//!
//! The crate holds the protocol-independent logic of a register poller:
//! parsing and validating (function, format) pairs, converting between
//! 16-bit register words and typed values under the four 32-bit word
//! orders, planning read sweeps and write payloads, classifying request
//! outcomes into transfer statistics, caching the latest value of each
//! information point, and sequencing the interrogation cycle of an
//! event-driven session.  All I/O stays outside: callers hand in plain
//! values and perform the transport calls themselves.

pub mod codec;
pub mod device_dir;
pub mod errors;
pub mod format_spec;
pub mod literals;
pub mod point_store;
pub mod poll_engine;
pub mod sequencer;
pub mod stats;
pub mod strutil;
