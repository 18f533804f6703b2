//! Pets as saved on disk, and the checks a saved pet must pass before it
//! may enter a battle.
use vstd::prelude::*;
use vstd::string::StringExecFns;

use crate::battle::error::{BattleError, BattleErrorView};
use crate::battle::state::move_count_message;
use crate::bestiary::model::{Move, Stats};
use crate::order::{sort_texts, sorted_texts};
use crate::text::{joined, join_path, path_extension, path_extension_of, same_text, usize_text};

verus! {

/// A saved pet: its species data and its hit points.
#[derive(Debug, Clone, PartialEq, Eq)]
pub struct Pet {
    pub id: String,
    pub name: String,
    pub element: String,
    pub stats: Stats,
    pub current_hp: i32,
    pub moves: Vec<Move>,
}

/// The message of a saved pet refused for not starting at full health.
pub open spec fn full_health_message(id: Seq<char>) -> Seq<char> {
    "pet "@ + id + " must start with current_hp equal to max_hp"@
}

/// A saved pet may enter a battle when it knows between one and four moves
/// and starts at full health; it is refused otherwise, for its moves first.
pub fn validate_loaded_pet(pet: Pet) -> (res: Result<Pet, BattleError>)
    ensures
        res is Ok <==> (1 <= pet.moves@.len() <= 4 && pet.current_hp == pet.stats.max_hp),
        res matches Ok(p) ==> p == pet,
        res matches Err(e) ==> e@ == if !(1 <= pet.moves@.len() <= 4) {
            BattleErrorView::InvalidBattlePet(move_count_message(pet.moves@.len()))
        } else {
            BattleErrorView::InvalidBattlePet(full_health_message(pet.id@))
        },
{
    if pet.moves.len() == 0 || pet.moves.len() > 4 {
        let mut message = String::from_str("pet must have between 1 and 4 moves, got ");
        let count = usize_text(pet.moves.len());
        message.append(count.as_str());
        return Err(BattleError::InvalidBattlePet(message));
    }
    if pet.current_hp != pet.stats.max_hp {
        let mut message = String::from_str("pet ");
        message.append(pet.id.as_str());
        message.append(" must start with current_hp equal to max_hp");
        return Err(BattleError::InvalidBattlePet(message));
    }
    Ok(pet)
}

/// Where the NRC bundle lies relative to the manifest directory of this
/// package: `<manifest_dir>/../data/nrc_pokemon_data_bundle`.
pub fn bundled_nrc_bundle_dir(manifest_dir: &str) -> (dir: String)
    ensures
        dir@ == joined(joined(joined(manifest_dir@, ".."@), "data"@), "nrc_pokemon_data_bundle"@),
{
    let a = join_path(manifest_dir, "..");
    let b = join_path(a.as_str(), "data");
    join_path(b.as_str(), "nrc_pokemon_data_bundle")
}


/// A path names a saved pet file: its extension is `json`.
pub open spec fn is_pet_file(path: Seq<char>) -> bool {
    path_extension_of(path) == Some("json"@)
}

/// The saved pet files among the paths of a directory listing, in order.
pub fn pet_files(paths: &Vec<String>) -> (r: Vec<String>)
    ensures
        sorted_texts(r@),
        r@.to_multiset() == paths@.filter(|p: String| is_pet_file(p@)).to_multiset(),
{
    let ghost f = |p: String| is_pet_file(p@);
    let mut kept: Vec<String> = Vec::new();
    assert(paths@.take(0).filter(f) =~= Seq::<String>::empty()) by {
        reveal_with_fuel(Seq::<_>::filter, 1);
    }
    for i in 0..paths.len()
        invariant
            f == (|p: String| is_pet_file(p@)),
            kept@ == paths@.take(i as int).filter(f),
    {
        proof {
            assert(paths@.take(i + 1).drop_last() =~= paths@.take(i as int));
            reveal_with_fuel(Seq::<_>::filter, 1);
            reveal_strlit("json");
        }
        let is_json = match path_extension(paths[i].as_str()) {
            Some(e) => same_text(e.as_str(), "json"),
            None => false,
        };
        if is_json {
            kept.push(paths[i].clone());
        }
        assert(kept@ =~= paths@.take(i + 1).filter(f));
    }
    assert(paths@.take(paths@.len() as int) =~= paths@);
    sort_texts(&kept)
}

} // verus!
