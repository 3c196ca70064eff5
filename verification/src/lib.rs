//! A verified core for a galaxy-simulation game.
//!
//! Each galaxy is a sparse two-dimensional grid of systems. A system
//! accumulates resources over logical time ("ticks"), and its owner can
//! upgrade structures on a delay. The simulation is lazy: state is brought
//! up to date whenever it is observed, driven by a monotonic tick that the
//! caller supplies. A persistence planner decides, wake by wake, which
//! galaxies are due for a durable write.

pub mod app_config;
pub mod clock;
pub mod config;
pub mod error;
pub mod galaxy;
pub mod laws;
pub mod persistence;
pub mod resources;
pub mod system;
pub mod text;

pub use crate::app_config::AppConfig;
pub use crate::app_config::PersistenceSettings;
pub use crate::clock::tick;
pub use crate::error::GameError;
pub use crate::galaxy::Coords;
pub use crate::galaxy::Galaxy;
pub use crate::persistence::PersistenceConfig;
pub use crate::persistence::PersistenceWorker;
pub use crate::resources::Cost;
pub use crate::resources::Resources;
pub use crate::resources::SystemProduction;
pub use crate::system::Event;
pub use crate::system::EventCallback;
pub use crate::system::EventInfo;
pub use crate::system::StructureType;
pub use crate::system::System;
pub use crate::text::resource_table;
pub use crate::text::seconds_to_readable;
