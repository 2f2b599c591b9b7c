//! Connection lifecycle and transaction engine for Modbus RTU devices on
//! hot-pluggable serial links: the frame codec, the per-port channel state
//! machine, and the multi-port registry with its discovery cycle.

pub mod chip_detection;
pub mod csv_handler;
pub mod probe;
pub mod serial;
