//! Device-mapper thin devices: their ids, tables, pool messages and status,
//! and the data of the device-mapper ioctl interface.

pub mod bindings;
pub mod result;
pub mod text;
pub mod thindev;
pub mod types;
