//! The named-container types: a house of rooms and a room of devices,
//! each enforcing unique names and a maximum element count.

use vstd::prelude::*;

pub mod house;
pub mod room;

verus! {

/// Errors of the add/remove operations on the contents of a house or
/// a room.
#[derive(Clone, Copy, PartialEq, Eq, Structural, Debug)]
pub enum ErrorReason {
    /// The container already holds its maximum number of elements.
    ItemLimitExceeded,
    /// The container already holds an element with this name.
    ItemAlreadyPresented,
    /// The container holds no element with this name.
    ItemDoesntExist,
}

/// Alias for the name of a container (a house or a room).
pub type ContainerName = String;

/// Alias for the confirmation text of a container operation.
pub type ContainerIOHistory = String;

} // verus!
