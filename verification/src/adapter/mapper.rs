use vstd::prelude::*;

use crate::adapter::error::AdapterError;
use crate::battle::state::{BattleMove, BattlePet, BattleStats};
use crate::bestiary::model::{PetSpecies, Stats};

verus! {

/// The battle stats of bestiary stats, field by field.
pub open spec fn battle_stats_of(s: Stats) -> BattleStats {
    BattleStats {
        max_hp: s.max_hp,
        attack: s.attack,
        defense: s.defense,
        speed: s.speed,
        special_attack: s.special_attack,
        special_defense: s.special_defense,
    }
}

/// The battle stats of bestiary stats.
pub fn map_stats(value: &Stats) -> (r: BattleStats)
    ensures
        r == battle_stats_of(*value),
{
    BattleStats {
        max_hp: value.max_hp,
        attack: value.attack,
        defense: value.defense,
        speed: value.speed,
        special_attack: value.special_attack,
        special_defense: value.special_defense,
    }
}

/// `pet` is species `species` at full hit points with the given moves: its
/// id and species id are the species id.
pub open spec fn pet_of_species(pet: BattlePet, species: PetSpecies, moves: Seq<BattleMove>) -> bool {
    &&& pet.id == species.species_id
    &&& pet.species_id == species.species_id
    &&& pet.name == species.name
    &&& pet.element == species.element
    &&& pet.stats == battle_stats_of(species.stats)
    &&& pet.current_hp == species.stats.max_hp
    &&& pet.moves@ == moves
}

/// The battle pet of a species with the given moves; refused unless it has
/// one to four moves.
pub fn map_species_to_battle_pet(species: &PetSpecies, moves: Vec<BattleMove>) -> (r: Result<
    BattlePet,
    AdapterError,
>)
    ensures
        (1 <= moves@.len() <= 4) <==> r is Ok,
        r matches Ok(pet) ==> pet_of_species(pet, *species, moves@),
        r matches Err(e) ==> e@ == crate::adapter::error::AdapterErrorView::Battle(
            crate::battle::error::BattleErrorView::InvalidBattlePet(
                crate::battle::state::move_count_message(moves@.len()),
            ),
        ),
{
    let ghost mv = moves@;
    match BattlePet::new(
        species.species_id.clone(),
        species.species_id.clone(),
        species.name.clone(),
        species.element.clone(),
        map_stats(&species.stats),
        moves,
    ) {
        Ok(pet) => Ok(pet),
        Err(e) => Err(AdapterError::Battle(e)),
    }
}

} // verus!
