//! Typed failures of the game's operations.

use vstd::prelude::*;

verus! {

/// Everything a galaxy or system operation can refuse.
#[derive(Clone, Copy, Debug, PartialEq, Eq, Structural)]
pub enum GameError {
    /// The caller presented a tick earlier than the entity's current
    /// tick.
    OutOfOrderTick,
    /// A build was requested while another build is still pending.
    AlreadyBuilding,
    /// The addressed structure kind is not present on the system.
    StructureNotFound,
    /// The system's resources do not afford the requested build.
    InsufficientResources,
    /// The addressed galaxy does not exist.
    GalaxyNotFound,
    /// A galaxy of that name already exists.
    GalaxyAlreadyExists,
}

impl GameError {
    /// A human-readable message for this failure.
    pub fn message(&self) -> (r: &'static str)
        ensures
            r@ == self.spec_message(),
    {
        match self {
            GameError::OutOfOrderTick => "Tick is out of order",
            GameError::AlreadyBuilding => "Already building a structure",
            GameError::StructureNotFound => "Structure not found",
            GameError::InsufficientResources => "Not enough resources",
            GameError::GalaxyNotFound => "Galaxy not found",
            GameError::GalaxyAlreadyExists => "Galaxy already exists",
        }
    }

    /// The message text of this failure.
    pub open spec fn spec_message(self) -> Seq<char> {
        match self {
            GameError::OutOfOrderTick => "Tick is out of order"@,
            GameError::AlreadyBuilding => "Already building a structure"@,
            GameError::StructureNotFound => "Structure not found"@,
            GameError::InsufficientResources => "Not enough resources"@,
            GameError::GalaxyNotFound => "Galaxy not found"@,
            GameError::GalaxyAlreadyExists => "Galaxy already exists"@,
        }
    }
}

} // verus!
