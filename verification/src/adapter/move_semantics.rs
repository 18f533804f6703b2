use vstd::prelude::*;

use crate::battle::state::{BattleEffect, BattleMove, BattleMoveSemantics, BattleTarget};
use crate::bestiary::model::{Move, MoveEffect};

verus! {

/// The battle effects of a bestiary move effect: a damaging move hits the
/// opponent's active pet with its power; a status move has a placeholder.
pub open spec fn effects_of(effect: MoveEffect) -> Seq<BattleEffect> {
    match effect {
        MoveEffect::Damage { power } => seq![
            BattleEffect::DealDamage { power, target: BattleTarget::OpponentActive },
        ],
        MoveEffect::Status => seq![BattleEffect::StatusPlaceholder],
    }
}

/// `b` is the battle form of the move `m`.
pub open spec fn battle_move_of(b: BattleMove, m: Move) -> bool {
    &&& b.id == m.id
    &&& b.name == m.name
    &&& b.priority == m.priority
    &&& b.semantics.effects@ == effects_of(m.effect)
}

/// The battle form of a move.
pub fn map_move(move_definition: Move) -> (b: BattleMove)
    ensures
        battle_move_of(b, move_definition),
{
    BattleMove {
        id: move_definition.id,
        name: move_definition.name,
        priority: move_definition.priority,
        semantics: map_move_semantics(move_definition.effect),
    }
}

/// The battle semantics of a move effect.
pub fn map_move_semantics(effect: MoveEffect) -> (s: BattleMoveSemantics)
    ensures
        s.effects@ == effects_of(effect),
{
    match effect {
        MoveEffect::Damage { power } => {
            let mut effects: Vec<BattleEffect> = Vec::new();
            effects.push(BattleEffect::DealDamage { power, target: BattleTarget::OpponentActive });
            assert(effects@ =~= effects_of(effect));
            BattleMoveSemantics { effects }
        },
        MoveEffect::Status => {
            let mut effects: Vec<BattleEffect> = Vec::new();
            effects.push(BattleEffect::StatusPlaceholder);
            assert(effects@ =~= effects_of(effect));
            BattleMoveSemantics { effects }
        },
    }
}

} // verus!
