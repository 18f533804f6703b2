//! The turn-based battle engine: pets, teams, actions, the rules that turn a
//! move into consequences, and the state machine that resolves one turn.
pub mod action;
pub mod engine;
pub mod error;
pub mod event;
pub mod laws;
pub mod model;
pub mod rules;
pub mod state;

pub use action::Action;
pub use engine::BattleState;
pub use error::{BattleError, BattleErrorView};
pub use event::{EventView, TurnEvent, TurnOutcome};
pub use state::{
    BattleEffect, BattleMove, BattleMoveSemantics, BattlePet, BattleStats, BattleTarget, Side,
    SideView, Team, TeamView,
};
