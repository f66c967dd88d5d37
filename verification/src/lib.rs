//! A small registry of rooms and uniquely named smart devices, with
//! verified uniqueness and capacity invariants and a report protocol
//! driven by a caller-supplied info provider.

pub mod containers;
pub mod devices;
pub mod info_providers;
pub mod smart_house;
pub mod text;

pub use containers::house;
pub use containers::room;
pub use devices::smart_device;
pub use devices::socket;
pub use devices::thermometer;
