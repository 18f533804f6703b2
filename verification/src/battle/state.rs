use vstd::prelude::*;

use crate::battle::error::BattleError;
use crate::text::{decimal, usize_text};
use vstd::string::StringExecFns;

verus! {

/// The six battle statistics of a pet.
#[derive(Debug, Clone, Copy, PartialEq, Eq, Structural)]
pub struct BattleStats {
    pub max_hp: i32,
    pub attack: i32,
    pub defense: i32,
    pub speed: i32,
    pub special_attack: i32,
    pub special_defense: i32,
}

/// Whose active pet an effect lands on, seen from the side using the move.
#[derive(Debug, Clone, Copy, PartialEq, Eq, Structural)]
pub enum BattleTarget {
    SelfActive,
    OpponentActive,
}

/// One effect of a move.
#[derive(Debug, Clone, Copy, PartialEq, Eq, Structural)]
pub enum BattleEffect {
    DealDamage { power: i32, target: BattleTarget },
    StatusPlaceholder,
}

/// The effects a move has, applied in order.
#[derive(Debug, Clone, PartialEq, Eq)]
pub struct BattleMoveSemantics {
    pub effects: Vec<BattleEffect>,
}

/// A move a pet can use in battle.
#[derive(Debug, Clone, PartialEq, Eq)]
pub struct BattleMove {
    pub id: String,
    pub name: String,
    pub priority: i8,
    pub semantics: BattleMoveSemantics,
}

/// A pet as it takes part in a battle.
#[derive(Debug, Clone, PartialEq, Eq)]
pub struct BattlePet {
    pub id: String,
    pub species_id: String,
    pub name: String,
    pub element: String,
    pub stats: BattleStats,
    pub current_hp: i32,
    pub moves: Vec<BattleMove>,
}

/// The message of a pet refused for its number of moves.
pub open spec fn move_count_message(n: nat) -> Seq<char> {
    "pet must have between 1 and 4 moves, got "@ + decimal(n)
}

/// The message of a team refused for its number of pets.
pub open spec fn team_size_message(n: nat) -> Seq<char> {
    "team must have between 1 and 6 pets, got "@ + decimal(n)
}

impl BattlePet {
    /// A pet has fainted when its hit points are not positive.
    pub open spec fn fainted(self) -> bool {
        self.current_hp <= 0
    }

    /// A pet with full hit points and one to four moves; refused otherwise.
    pub fn new(
        id: String,
        species_id: String,
        name: String,
        element: String,
        stats: BattleStats,
        moves: Vec<BattleMove>,
    ) -> (res: Result<Self, BattleError>)
        ensures
            (1 <= moves@.len() <= 4) <==> res is Ok,
            res matches Ok(pet) ==> {
                &&& pet.id == id
                &&& pet.species_id == species_id
                &&& pet.name == name
                &&& pet.element == element
                &&& pet.stats == stats
                &&& pet.current_hp == stats.max_hp
                &&& pet.moves == moves
            },
            res matches Err(e) ==> e@ == crate::battle::error::BattleErrorView::InvalidBattlePet(
                move_count_message(moves@.len()),
            ),
    {
        if moves.len() == 0 || moves.len() > 4 {
            let mut message = String::from_str("pet must have between 1 and 4 moves, got ");
            let count = usize_text(moves.len());
            message.append(count.as_str());
            return Err(BattleError::InvalidBattlePet(message));
        }
        Ok(BattlePet { id, species_id, name, element, current_hp: stats.max_hp, stats, moves })
    }

    /// Whether the pet has fainted.
    pub fn is_fainted(&self) -> (r: bool)
        ensures
            r == self.fainted(),
    {
        self.current_hp <= 0
    }
}

/// The pets of one side and which of them is in play.
#[derive(Debug, Clone, PartialEq, Eq)]
pub struct Team {
    pub pets: Vec<BattlePet>,
    pub active: usize,
}

/// A team as a sequence of pets and the index of the active one.
#[verifier::ext_equal]
pub struct TeamView {
    pub pets: Seq<BattlePet>,
    pub active: usize,
}

impl View for Team {
    type V = TeamView;

    open spec fn view(&self) -> TeamView {
        TeamView { pets: self.pets@, active: self.active }
    }
}

impl TeamView {
    /// The active index points at a pet.
    pub open spec fn wf(self) -> bool {
        self.active < self.pets.len()
    }

    pub open spec fn active_pet(self) -> BattlePet {
        self.pets[self.active as int]
    }

    /// Some pet of the team has not fainted.
    pub open spec fn has_available(self) -> bool {
        exists|i: int| 0 <= i < self.pets.len() && !(#[trigger] self.pets[i]).fainted()
    }

    /// A pet that could replace the active one.
    pub open spec fn bench_candidate(self, i: int) -> bool {
        0 <= i < self.pets.len() && i != self.active && !self.pets[i].fainted()
    }

    /// The first candidate at or after index `i`.
    pub open spec fn bench_from(self, i: int) -> Option<usize>
        decreases self.pets.len() - i,
    {
        if i < 0 || i >= self.pets.len() {
            None
        } else if self.bench_candidate(i) {
            Some(i as usize)
        } else {
            self.bench_from(i + 1)
        }
    }

    /// The first pet, in team order, that could replace the active one.
    pub open spec fn first_bench(self) -> Option<usize> {
        self.bench_from(0)
    }

    /// The same team with another active index.
    pub open spec fn with_active(self, i: usize) -> TeamView {
        TeamView { active: i, ..self }
    }

    /// The same team with the active pet's hit points replaced.
    pub open spec fn with_active_hp(self, hp: i32) -> TeamView {
        TeamView {
            pets: self.pets.update(
                self.active as int,
                BattlePet { current_hp: hp, ..self.active_pet() },
            ),
            ..self
        }
    }
}

/// What `bench_from` finds: the first candidate from `i` on, or none.
pub proof fn lemma_bench_from(t: TeamView, i: int)
    requires
        0 <= i <= t.pets.len(),
        t.pets.len() <= usize::MAX,
    ensures
        match t.bench_from(i) {
            Some(k) => i <= k < t.pets.len() && t.bench_candidate(k as int) && forall|j: int|
                i <= j < k ==> !t.bench_candidate(j),
            None => forall|j: int| i <= j < t.pets.len() ==> !t.bench_candidate(j),
        },
    decreases t.pets.len() - i,
{
    if i < t.pets.len() && !t.bench_candidate(i) {
        lemma_bench_from(t, i + 1);
    }
}

impl Team {
    /// A team of one to six pets with the first one active; refused otherwise.
    pub fn new(pets: Vec<BattlePet>) -> (res: Result<Self, BattleError>)
        ensures
            (1 <= pets@.len() <= 6) <==> res is Ok,
            res matches Ok(team) ==> team.pets == pets && team.active == 0,
            res matches Err(e) ==> e@ == crate::battle::error::BattleErrorView::InvalidTeam(
                team_size_message(pets@.len()),
            ),
    {
        if pets.len() == 0 || pets.len() > 6 {
            let mut message = String::from_str("team must have between 1 and 6 pets, got ");
            let count = usize_text(pets.len());
            message.append(count.as_str());
            return Err(BattleError::InvalidTeam(message));
        }
        Ok(Team { pets, active: 0 })
    }

    /// The pet in play.
    pub fn active_pet(&self) -> (pet: &BattlePet)
        requires
            self@.wf(),
        ensures
            *pet == self@.active_pet(),
    {
        &self.pets[self.active]
    }

    /// The pet in play, to be changed in place.
    pub fn active_pet_mut(&mut self) -> (pet: &mut BattlePet)
        requires
            old(self)@.wf(),
        ensures
            *pet == old(self)@.active_pet(),
            final(self).active == old(self).active,
            final(self).pets@ == old(self).pets@.update(old(self).active as int, *final(pet)),
    {
        &mut self.pets[self.active]
    }

    /// Whether some pet of the team has not fainted.
    pub fn has_available_pet(&self) -> (r: bool)
        ensures
            r == self@.has_available(),
    {
        for i in 0..self.pets.len()
            invariant
                forall|j: int| 0 <= j < i ==> (#[trigger] self.pets@[j]).fainted(),
        {
            if !self.pets[i].is_fainted() {
                assert(!self@.pets[i as int].fainted());
                return true;
            }
        }
        false
    }

    /// The first pet, in team order, other than the active one that has not
    /// fainted.
    pub fn first_available_bench(&self) -> (r: Option<usize>)
        ensures
            r == self@.first_bench(),
    {
        proof {
            lemma_bench_from(self@, 0);
        }
        for i in 0..self.pets.len()
            invariant
                forall|j: int| 0 <= j < i ==> !self@.bench_candidate(j),
                self@.bench_from(0) == self@.bench_from(i as int),
        {
            if i != self.active && !self.pets[i].is_fainted() {
                return Some(i);
            }
        }
        None
    }
}

/// A named side of the battle and its team.
#[derive(Debug, Clone, PartialEq, Eq)]
pub struct Side {
    pub name: String,
    pub team: Team,
}

/// A side with its team taken as a view.
#[verifier::ext_equal]
pub struct SideView {
    pub name: String,
    pub team: TeamView,
}

impl View for Side {
    type V = SideView;

    open spec fn view(&self) -> SideView {
        SideView { name: self.name, team: self.team@ }
    }
}

impl Side {
    pub fn new(name: String, team: Team) -> (side: Self)
        ensures
            side.name == name,
            side.team == team,
    {
        Side { name, team }
    }
}

} // verus!
