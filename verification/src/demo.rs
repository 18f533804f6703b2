//! The battle demo: two species picked by name from a catalog, each fielded
//! alone with its default moves, fight one turn.
use vstd::prelude::*;
use vstd::string::StringExecFns;

use crate::adapter::error::{adapter_error_text, AdapterError, AdapterErrorView};
use crate::adapter::roster::{default_moves, no_moves_message, pet_with_moves, BattleRosterBuilder};
use crate::battle::action::Action;
use crate::battle::engine::BattleState;
use crate::battle::error::{battle_error_text, BattleError, BattleErrorView};
use crate::battle::event::{events_view, TurnEvent};
use crate::battle::model::{turn_model, TurnModel};
use crate::battle::state::{Side, Team};
use crate::bestiary::catalog::{has_name, last_where, PetCatalog};
use crate::bestiary::error::{bestiary_error_text, BestiaryError, BestiaryErrorView};
use crate::bestiary::model::PetSpeciesView;

verus! {

/// The names of the two species to field.
#[derive(Debug, Clone, PartialEq, Eq)]
pub struct BattleDemoRequest {
    pub left_name: String,
    pub right_name: String,
}

impl BattleDemoRequest {
    pub fn new(left_name: String, right_name: String) -> (r: Self)
        ensures
            r.left_name == left_name,
            r.right_name == right_name,
    {
        BattleDemoRequest { left_name, right_name }
    }
}

/// What the demo reports of its turn.
#[derive(Debug, Clone, PartialEq, Eq)]
pub struct BattleTurnReport {
    pub turn: u32,
    pub events: Vec<TurnEvent>,
    pub winner: Option<usize>,
}

/// Why the demo could not run.
#[derive(Debug, Clone, PartialEq, Eq)]
pub enum AppError {
    Bestiary(BestiaryError),
    Adapter(AdapterError),
    Battle(BattleError),
}

/// An `AppError` with its texts taken as character sequences.
pub enum AppErrorView {
    Bestiary(BestiaryErrorView),
    Adapter(AdapterErrorView),
    Battle(BattleErrorView),
}

impl View for AppError {
    type V = AppErrorView;

    open spec fn view(&self) -> AppErrorView {
        match self {
            AppError::Bestiary(e) => AppErrorView::Bestiary(e@),
            AppError::Adapter(e) => AppErrorView::Adapter(e@),
            AppError::Battle(e) => AppErrorView::Battle(e@),
        }
    }
}

/// The text shown for an error.
pub open spec fn app_error_text(e: AppErrorView) -> Seq<char> {
    match e {
        AppErrorView::Bestiary(e) => bestiary_error_text(e),
        AppErrorView::Adapter(e) => adapter_error_text(e),
        AppErrorView::Battle(e) => battle_error_text(e),
    }
}

impl AppError {
    /// The human-readable text of the error.
    pub fn message(&self) -> (s: String)
        ensures
            s@ == app_error_text(self@),
    {
        match self {
            AppError::Bestiary(e) => e.message(),
            AppError::Adapter(e) => e.message(),
            AppError::Battle(e) => e.message(),
        }
    }
}

/// The name of the left side.
pub open spec fn left_side_name() -> Seq<char> {
    "Player A"@
}

/// The name of the right side.
pub open spec fn right_side_name() -> Seq<char> {
    "Player B"@
}

/// The side `side` of `battle` is named `name` and fields `species` alone,
/// active, with its default moves.
pub open spec fn fields_alone(
    battle: BattleState,
    side: int,
    name: Seq<char>,
    species: PetSpeciesView,
) -> bool {
    let s = battle.sides@[side];
    &&& s.name@ == name
    &&& s.team.pets@.len() == 1
    &&& s.team.active == 0
    &&& pet_with_moves(s.team.pets@[0], species, default_moves(species.learnset))
}

/// What building the demo battle gives: the last species with each name,
/// looked up left then right; each must have a default move; the battle is
/// fresh with each side fielding its species alone.
pub open spec fn demo_outcome(
    catalog: Seq<PetSpeciesView>,
    request: BattleDemoRequest,
    r: Result<BattleState, AppError>,
) -> bool {
    match last_where(catalog, has_name(request.left_name@)) {
        None => r matches Err(e) && e@ == AppErrorView::Bestiary(
            BestiaryErrorView::MissingSpecies(request.left_name@),
        ),
        Some(li) => match last_where(catalog, has_name(request.right_name@)) {
            None => r matches Err(e) && e@ == AppErrorView::Bestiary(
                BestiaryErrorView::MissingSpecies(request.right_name@),
            ),
            Some(ri) => {
                let left = catalog[li];
                let right = catalog[ri];
                if default_moves(left.learnset).len() == 0 {
                    r matches Err(e) && e@ == AppErrorView::Adapter(
                        AdapterErrorView::InvalidSelection(no_moves_message(left.name@)),
                    )
                } else if default_moves(right.learnset).len() == 0 {
                    r matches Err(e) && e@ == AppErrorView::Adapter(
                        AdapterErrorView::InvalidSelection(no_moves_message(right.name@)),
                    )
                } else {
                    r matches Ok(battle) && {
                        &&& battle@.wf()
                        &&& battle.turn == 0
                        &&& battle.winner is None
                        &&& fields_alone(battle, 0, left_side_name(), left)
                        &&& fields_alone(battle, 1, right_side_name(), right)
                    }
                }
            },
        },
    }
}

/// A report agrees with the turn model of the battle it was played in.
pub open spec fn report_matches(r: Result<BattleTurnReport, AppError>, m: TurnModel) -> bool {
    match (r, m.result) {
        (Ok(report), Ok((events, winner))) => {
            &&& events_view(report.events@) == events
            &&& report.winner == winner
            &&& report.turn == m.state.turn
        },
        (Err(e), Err(expected)) => e@ == AppErrorView::Battle(expected),
        _ => false,
    }
}

/// Builds and plays the demo battle.
#[derive(Debug, Clone, Copy, Default)]
pub struct BattleDemoService {
    roster_builder: BattleRosterBuilder,
}

impl BattleDemoService {
    /// The demo battle between the species named in `request`.
    pub fn build_battle(&self, catalog: &PetCatalog, request: &BattleDemoRequest) -> (r: Result<
        BattleState,
        AppError,
    >)
        ensures
            demo_outcome(catalog@, *request, r),
    {
        let query = catalog.service();
        let left_species = match query.species_by_name(request.left_name.as_str()) {
            Ok(s) => s,
            Err(e) => {
                return Err(AppError::Bestiary(e));
            },
        };
        let right_species = match query.species_by_name(request.right_name.as_str()) {
            Ok(s) => s,
            Err(e) => {
                return Err(AppError::Bestiary(e));
            },
        };
        let left_pet = match self.roster_builder.build_pet_with_defaults(&left_species) {
            Ok(p) => p,
            Err(e) => {
                return Err(AppError::Adapter(e));
            },
        };
        let right_pet = match self.roster_builder.build_pet_with_defaults(&right_species) {
            Ok(p) => p,
            Err(e) => {
                return Err(AppError::Adapter(e));
            },
        };
        let mut left_pets = Vec::new();
        left_pets.push(left_pet);
        let left_team = match Team::new(left_pets) {
            Ok(t) => t,
            Err(e) => {
                return Err(AppError::Battle(e));
            },
        };
        let mut right_pets = Vec::new();
        right_pets.push(right_pet);
        let right_team = match Team::new(right_pets) {
            Ok(t) => t,
            Err(e) => {
                return Err(AppError::Battle(e));
            },
        };
        let left = Side::new(String::from_str("Player A"), left_team);
        let right = Side::new(String::from_str("Player B"), right_team);
        let battle = BattleState::new(left, right);
        assert(battle.sides@[0].team.pets@[0] == left_pet);
        Ok(battle)
    }

    /// Builds the demo battle and plays one turn with `actions`.
    pub fn run_turn(
        &self,
        catalog: &PetCatalog,
        request: &BattleDemoRequest,
        actions: [Action; 2],
    ) -> (r: Result<BattleTurnReport, AppError>)
        requires
            forall|b: BattleState|
                #![trigger demo_outcome(catalog@, *request, Ok::<BattleState, AppError>(b))]
                demo_outcome(catalog@, *request, Ok::<BattleState, AppError>(b)) ==> turn_model(
                    b@,
                    actions@[0],
                    actions@[1],
                ).defined,
        ensures
            match r {
                Err(e) => demo_outcome(catalog@, *request, Err::<BattleState, AppError>(e)) || exists|
                    b: BattleState,
                |
                    demo_outcome(catalog@, *request, Ok::<BattleState, AppError>(b))
                        && #[trigger] report_matches(r, turn_model(b@, actions@[0], actions@[1])),
                Ok(_) => exists|b: BattleState|
                    demo_outcome(catalog@, *request, Ok::<BattleState, AppError>(b))
                        && #[trigger] report_matches(r, turn_model(b@, actions@[0], actions@[1])),
            },
    {
        let mut battle = match self.build_battle(catalog, request) {
            Ok(b) => b,
            Err(e) => {
                return Err(e);
            },
        };
        let ghost start = battle;
        let outcome = match battle.resolve_turn(actions) {
            Ok(o) => o,
            Err(e) => {
                let r = Err(AppError::Battle(e));
                assert(report_matches(r, turn_model(start@, actions@[0], actions@[1])));
                return r;
            },
        };
        let r = Ok(BattleTurnReport { turn: battle.turn, events: outcome.events, winner: outcome.winner });
        assert(report_matches(r, turn_model(start@, actions@[0], actions@[1])));
        r
    }
}

} // verus!
