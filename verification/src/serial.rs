//! Serial link components, leaves first: checksum, frame codec, channel,
//! registry.

pub mod base;
pub mod crc16;
pub mod discovery;
pub mod events;
pub mod lists;
pub mod manager;
pub mod modbus;
