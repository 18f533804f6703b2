use vstd::prelude::*;
use vstd::string::StringExecFns;

use crate::adapter::error::{AdapterError, AdapterErrorView};
use crate::adapter::mapper::{battle_stats_of, map_species_to_battle_pet};
use crate::adapter::move_semantics::{battle_move_of, map_move};
use crate::battle::state::{move_count_message, BattleMove, BattlePet};
use crate::bestiary::model::{Move, MoveEffect, PetSpecies, PetSpeciesView};
use crate::text::usize_text;

verus! {

/// The damaging moves of a learnset, in order.
pub open spec fn damaging(learnset: Seq<Move>) -> Seq<Move> {
    learnset.filter(|m: Move| m.effect is Damage)
}

/// The first four moves, or all when there are fewer.
pub open spec fn first_four(moves: Seq<Move>) -> Seq<Move> {
    if moves.len() <= 4 {
        moves
    } else {
        moves.take(4)
    }
}

/// The moves a pet takes by default: its first four damaging moves, or its
/// first four moves when none deals damage.
pub open spec fn default_moves(learnset: Seq<Move>) -> Seq<Move> {
    if damaging(learnset).len() == 0 {
        first_four(learnset)
    } else {
        first_four(damaging(learnset))
    }
}

/// The index of the first move at or after `i` with the id `id`.
pub open spec fn move_index_from(learnset: Seq<Move>, id: Seq<char>, i: int) -> Option<int>
    decreases learnset.len() - i,
{
    if i < 0 || i >= learnset.len() {
        None
    } else if learnset[i].id@ == id {
        Some(i)
    } else {
        move_index_from(learnset, id, i + 1)
    }
}

/// The index of the first selected id at or after `i` that names no move.
pub open spec fn missing_from(learnset: Seq<Move>, ids: Seq<String>, i: int) -> Option<int>
    decreases ids.len() - i,
{
    if i < 0 || i >= ids.len() {
        None
    } else if move_index_from(learnset, ids[i]@, 0) is None {
        Some(i)
    } else {
        missing_from(learnset, ids, i + 1)
    }
}

/// The moves selected by id: refused when more than four are asked for, or
/// for the first id that names no move; otherwise the first move with each
/// id, in the order asked.
pub open spec fn selection(learnset: Seq<Move>, ids: Seq<String>) -> Result<Seq<Move>, AdapterErrorView> {
    if ids.len() > 4 {
        Err(AdapterErrorView::InvalidSelection(move_count_message(ids.len())))
    } else {
        match missing_from(learnset, ids, 0) {
            Some(i) => Err(AdapterErrorView::MissingMove(ids[i]@)),
            None => Ok(
                Seq::new(
                    ids.len(),
                    |i: int| learnset[move_index_from(learnset, ids[i]@, 0)->Some_0],
                ),
            ),
        }
    }
}

/// The moves a pet takes into battle: the default ones when none is
/// selected, else the selection.
pub open spec fn chosen_moves(learnset: Seq<Move>, ids: Seq<String>) -> Result<Seq<Move>, AdapterErrorView> {
    if ids.len() == 0 {
        Ok(default_moves(learnset))
    } else {
        selection(learnset, ids)
    }
}

/// The refusal of a species with no move to take into battle.
pub open spec fn no_moves_message(name: Seq<char>) -> Seq<char> {
    "pokemon "@ + name + " does not have any usable moves"@
}

/// `pet` is the battle pet of `species` taking the moves `moves`.
pub open spec fn pet_with_moves(pet: BattlePet, species: PetSpeciesView, moves: Seq<Move>) -> bool {
    &&& pet.id == species.species_id
    &&& pet.species_id == species.species_id
    &&& pet.name == species.name
    &&& pet.element == species.element
    &&& pet.stats == battle_stats_of(species.stats)
    &&& pet.current_hp == species.stats.max_hp
    &&& pet.moves@.len() == moves.len()
    &&& forall|i: int| 0 <= i < moves.len() ==> battle_move_of(#[trigger] pet.moves@[i], moves[i])
}

/// What building a pet from `species` with the selected ids gives.
pub open spec fn built_pet(
    species: PetSpeciesView,
    ids: Seq<String>,
    r: Result<BattlePet, AdapterError>,
) -> bool {
    match chosen_moves(species.learnset, ids) {
        Err(e) => r matches Err(x) && x@ == e,
        Ok(moves) => if moves.len() == 0 {
            r matches Err(x) && x@ == AdapterErrorView::InvalidSelection(
                no_moves_message(species.name@),
            )
        } else {
            r matches Ok(pet) && pet_with_moves(pet, species, moves)
        },
    }
}

/// Builds battle pets from bestiary species.
#[derive(Debug, Clone, Copy, Default)]
pub struct BattleRosterBuilder;

impl BattleRosterBuilder {
    /// The battle pet of `species` with the moves selected by id, or its
    /// default moves when none is selected.
    pub fn build_pet(&self, species: &PetSpecies, selected_move_ids: &[String]) -> (r: Result<
        BattlePet,
        AdapterError,
    >)
        ensures
            built_pet(species@, selected_move_ids@, r),
    {
        let moves = if selected_move_ids.len() == 0 {
            default_battle_moves(&species.learnset)
        } else {
            select_moves(&species.learnset, selected_move_ids)?
        };
        if moves.len() == 0 {
            let mut message = String::from_str("pokemon ");
            message.append(species.name.as_str());
            message.append(" does not have any usable moves");
            return Err(AdapterError::InvalidSelection(message));
        }
        let mut battle_moves: Vec<BattleMove> = Vec::new();
        for i in 0..moves.len()
            invariant
                battle_moves@.len() == i,
                forall|j: int|
                    0 <= j < i ==> battle_move_of(#[trigger] battle_moves@[j], moves@[j]),
        {
            let b = map_move(moves[i].duplicate());
            battle_moves.push(b);
        }
        let ghost bm = battle_moves@;
        map_species_to_battle_pet(species, battle_moves)
    }

    /// The battle pet of `species` with its default moves.
    pub fn build_pet_with_defaults(&self, species: &PetSpecies) -> (r: Result<
        BattlePet,
        AdapterError,
    >)
        ensures
            built_pet(species@, Seq::empty(), r),
    {
        let none: Vec<String> = Vec::new();
        let r = self.build_pet(species, none.as_slice());
        assert(none@ =~= Seq::<String>::empty());
        r
    }
}

/// The moves a pet takes by default.
pub fn default_battle_moves(learnset: &Vec<Move>) -> (moves: Vec<Move>)
    ensures
        moves@ == default_moves(learnset@),
        moves@.len() <= 4,
{
    let mut damaging_moves: Vec<Move> = Vec::new();
    assert(damaging(learnset@.take(0)) =~= Seq::<Move>::empty()) by {
        reveal_with_fuel(Seq::<_>::filter, 1);
    }
    for i in 0..learnset.len()
        invariant
            damaging_moves@ == first_four(damaging(learnset@.take(i as int))),
    {
        proof {
            assert(learnset@.take(i + 1).drop_last() =~= learnset@.take(i as int));
            reveal_with_fuel(Seq::<_>::filter, 1);
        }
        let is_damage = match learnset[i].effect {
            MoveEffect::Damage { .. } => true,
            MoveEffect::Status => false,
        };
        if is_damage && damaging_moves.len() < 4 {
            let ghost before = damaging(learnset@.take(i as int));
            damaging_moves.push(learnset[i].duplicate());
            assert(damaging_moves@ =~= first_four(damaging(learnset@.take(i + 1))));
        } else if is_damage {
            assert(first_four(damaging(learnset@.take(i + 1))) =~= first_four(
                damaging(learnset@.take(i as int)),
            ));
        }
    }
    assert(learnset@.take(learnset@.len() as int) =~= learnset@);
    if damaging_moves.len() == 0 {
        let mut first: Vec<Move> = Vec::new();
        let n = if learnset.len() < 4 {
            learnset.len()
        } else {
            4
        };
        for i in 0..n
            invariant
                n <= learnset@.len(),
                first@ == learnset@.take(i as int),
        {
            first.push(learnset[i].duplicate());
            assert(first@ =~= learnset@.take(i + 1));
        }
        assert(first@ =~= first_four(learnset@));
        return first;
    }
    damaging_moves
}

proof fn lemma_move_index_from(learnset: Seq<Move>, id: Seq<char>, i: int)
    requires
        0 <= i <= learnset.len(),
    ensures
        match move_index_from(learnset, id, i) {
            Some(k) => i <= k < learnset.len() && learnset[k].id@ == id && forall|j: int|
                i <= j < k ==> learnset[j].id@ != id,
            None => forall|j: int| i <= j < learnset.len() ==> learnset[j].id@ != id,
        },
    decreases learnset.len() - i,
{
    if i < learnset.len() && learnset[i].id@ != id {
        lemma_move_index_from(learnset, id, i + 1);
    }
}

/// The first move of `learnset` with the id `id`.
fn find_move(learnset: &Vec<Move>, id: &String) -> (r: Option<usize>)
    ensures
        match move_index_from(learnset@, id@, 0) {
            Some(k) => r == Some(k as usize),
            None => r is None,
        },
        r matches Some(k) ==> k < learnset@.len() && move_index_from(learnset@, id@, 0) == Some(
            k as int,
        ),
{
    proof {
        lemma_move_index_from(learnset@, id@, 0);
    }
    for j in 0..learnset.len()
        invariant
            move_index_from(learnset@, id@, 0) == move_index_from(learnset@, id@, j as int),
    {
        if learnset[j].id == *id {
            return Some(j);
        }
    }
    None
}

/// The moves selected by id, in the order asked.
pub fn select_moves(learnset: &Vec<Move>, selected_move_ids: &[String]) -> (r: Result<
    Vec<Move>,
    AdapterError,
>)
    ensures
        match selection(learnset@, selected_move_ids@) {
            Ok(moves) => r matches Ok(v) && v@ == moves,
            Err(e) => r matches Err(x) && x@ == e,
        },
{
    if selected_move_ids.len() > 4 {
        let mut message = String::from_str("pet must have between 1 and 4 moves, got ");
        let count = usize_text(selected_move_ids.len());
        message.append(count.as_str());
        return Err(AdapterError::InvalidSelection(message));
    }
    let ghost ids = selected_move_ids@;
    let mut chosen: Vec<Move> = Vec::new();
    for i in 0..selected_move_ids.len()
        invariant
            ids == selected_move_ids@,
            ids.len() <= 4,
            missing_from(learnset@, ids, 0) == missing_from(learnset@, ids, i as int),
            chosen@.len() == i,
            forall|j: int|
                0 <= j < i ==> #[trigger] chosen@[j] == learnset@[move_index_from(
                    learnset@,
                    ids[j]@,
                    0,
                )->Some_0],
    {
        let id = &selected_move_ids[i];
        match find_move(learnset, id) {
            Some(k) => {
                assert(id@ == ids[i as int]@);
                assert(missing_from(learnset@, ids, i as int) == missing_from(
                    learnset@,
                    ids,
                    i + 1,
                ));
                let ghost before = chosen@;
                chosen.push(learnset[k].duplicate());
                assert forall|j: int| 0 <= j < i + 1 implies #[trigger] chosen@[j]
                    == learnset@[move_index_from(learnset@, ids[j]@, 0)->Some_0] by {
                    if j < i {
                        assert(chosen@[j] == before[j]);
                    }
                }
            },
            None => {
                assert(missing_from(learnset@, ids, i as int) == Some(i as int));
                return Err(AdapterError::MissingMove(id.clone()));
            },
        }
    }
    assert(missing_from(learnset@, ids, ids.len() as int) is None);
    assert(chosen@ =~= Seq::new(
        ids.len(),
        |i: int| learnset@[move_index_from(learnset@, ids[i]@, 0)->Some_0],
    ));
    Ok(chosen)
}


/// A pet the roster builds can always enter a battle: it knows one to four
/// moves and starts at full health.
pub proof fn law_built_pet_is_battle_ready(species: PetSpeciesView, ids: Seq<String>, pet: BattlePet)
    requires
        built_pet(species, ids, Ok(pet)),
    ensures
        1 <= pet.moves@.len() <= 4,
        pet.current_hp == pet.stats.max_hp,
        !pet.fainted() <==> species.stats.max_hp > 0,
{
    match chosen_moves(species.learnset, ids) {
        Ok(moves) => {
            if ids.len() == 0 {
                assert(moves == default_moves(species.learnset));
            } else {
                assert(ids.len() <= 4);
            }
        },
        Err(_) => {},
    }
}

} // verus!
