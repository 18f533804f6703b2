use vstd::prelude::*;

verus! {

/// The six base statistics of a species.
#[derive(Debug, Clone, Copy, PartialEq, Eq, Structural)]
pub struct Stats {
    pub max_hp: i32,
    pub attack: i32,
    pub defense: i32,
    pub speed: i32,
    pub special_attack: i32,
    pub special_defense: i32,
}

/// What a move does, as the bestiary records it.
#[derive(Debug, Clone, Copy, PartialEq, Eq, Structural)]
pub enum MoveEffect {
    Damage { power: i32 },
    Status,
}

/// A move a species can learn.
#[derive(Debug, Clone, PartialEq, Eq)]
pub struct Move {
    pub id: String,
    pub name: String,
    pub element: String,
    pub category: String,
    pub priority: i8,
    pub energy_cost: i32,
    pub description: String,
    pub effect: MoveEffect,
}

/// One evolution of a species into another.
#[derive(Debug, Clone, PartialEq, Eq)]
pub struct Evolution {
    pub to_name: String,
    pub evo_level: Option<i32>,
    pub condition: Option<String>,
    pub chain_text: Option<String>,
}

/// A species of the bestiary. Its icon is a path in the bundle, if known.
#[derive(Debug, Clone, PartialEq, Eq)]
pub struct PetSpecies {
    pub pokemon_id: i64,
    pub species_id: String,
    pub name: String,
    pub element: String,
    pub evo_stage: String,
    pub ability: String,
    pub spirit_no: Option<String>,
    pub icon_path: Option<String>,
    pub stats: Stats,
    pub learnset: Vec<Move>,
    pub evolutions: Vec<Evolution>,
}

/// A species with its learnset and evolutions taken as sequences.
#[verifier::ext_equal]
pub struct PetSpeciesView {
    pub pokemon_id: i64,
    pub species_id: String,
    pub name: String,
    pub element: String,
    pub evo_stage: String,
    pub ability: String,
    pub spirit_no: Option<String>,
    pub icon_path: Option<String>,
    pub stats: Stats,
    pub learnset: Seq<Move>,
    pub evolutions: Seq<Evolution>,
}

impl View for PetSpecies {
    type V = PetSpeciesView;

    open spec fn view(&self) -> PetSpeciesView {
        PetSpeciesView {
            pokemon_id: self.pokemon_id,
            species_id: self.species_id,
            name: self.name,
            element: self.element,
            evo_stage: self.evo_stage,
            ability: self.ability,
            spirit_no: self.spirit_no,
            icon_path: self.icon_path,
            stats: self.stats,
            learnset: self.learnset@,
            evolutions: self.evolutions@,
        }
    }
}

/// The views of a sequence of species.
pub open spec fn species_views(s: Seq<PetSpecies>) -> Seq<PetSpeciesView> {
    s.map_values(|p: PetSpecies| p@)
}

/// A copy of an optional string.
pub fn copy_text_option(o: &Option<String>) -> (r: Option<String>)
    ensures
        r == *o,
{
    match o {
        Some(s) => Some(s.clone()),
        None => None,
    }
}

impl Move {
    /// An equal copy of the move.
    pub fn duplicate(&self) -> (r: Move)
        ensures
            r == *self,
    {
        Move {
            id: self.id.clone(),
            name: self.name.clone(),
            element: self.element.clone(),
            category: self.category.clone(),
            priority: self.priority,
            energy_cost: self.energy_cost,
            description: self.description.clone(),
            effect: self.effect,
        }
    }
}

impl Evolution {
    /// An equal copy of the evolution.
    pub fn duplicate(&self) -> (r: Evolution)
        ensures
            r == *self,
    {
        Evolution {
            to_name: self.to_name.clone(),
            evo_level: self.evo_level,
            condition: copy_text_option(&self.condition),
            chain_text: copy_text_option(&self.chain_text),
        }
    }
}

/// A copy of a list of moves.
pub fn copy_moves(moves: &Vec<Move>) -> (r: Vec<Move>)
    ensures
        r@ == moves@,
{
    let mut r: Vec<Move> = Vec::new();
    for i in 0..moves.len()
        invariant
            r@ == moves@.take(i as int),
    {
        r.push(moves[i].duplicate());
        assert(r@ =~= moves@.take(i + 1));
    }
    assert(moves@.take(moves@.len() as int) =~= moves@);
    r
}

/// A copy of a list of evolutions.
pub fn copy_evolutions(evolutions: &Vec<Evolution>) -> (r: Vec<Evolution>)
    ensures
        r@ == evolutions@,
{
    let mut r: Vec<Evolution> = Vec::new();
    for i in 0..evolutions.len()
        invariant
            r@ == evolutions@.take(i as int),
    {
        r.push(evolutions[i].duplicate());
        assert(r@ =~= evolutions@.take(i + 1));
    }
    assert(evolutions@.take(evolutions@.len() as int) =~= evolutions@);
    r
}

impl PetSpecies {
    /// A copy of the species with the same view.
    pub fn duplicate(&self) -> (r: PetSpecies)
        ensures
            r@ == self@,
    {
        PetSpecies {
            pokemon_id: self.pokemon_id,
            species_id: self.species_id.clone(),
            name: self.name.clone(),
            element: self.element.clone(),
            evo_stage: self.evo_stage.clone(),
            ability: self.ability.clone(),
            spirit_no: copy_text_option(&self.spirit_no),
            icon_path: copy_text_option(&self.icon_path),
            stats: self.stats,
            learnset: copy_moves(&self.learnset),
            evolutions: copy_evolutions(&self.evolutions),
        }
    }
}

} // verus!
