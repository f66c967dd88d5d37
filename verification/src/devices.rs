//! The device model: the common status and power-state types, and the
//! concrete device kinds.

pub mod smart_device;
pub mod socket;
pub mod thermometer;
