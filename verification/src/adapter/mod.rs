//! The adapter from bestiary species to battle pets: which moves a pet takes
//! into battle and how each move becomes battle semantics.
pub mod error;
pub mod mapper;
pub mod move_semantics;
pub mod roster;

pub use error::{AdapterError, AdapterErrorView};
pub use roster::BattleRosterBuilder;
