//! The rules of the battle: how quickly an action goes, how much damage a
//! hit deals, and what each effect of a move amounts to.
use vstd::prelude::*;

use crate::battle::action::Action;
use crate::battle::state::{BattleEffect, BattleMoveSemantics, BattlePet, BattleTarget};

verus! {

/// The priority of switching pets: it goes before ordinary moves.
pub const SWITCH_PRIORITY: i8 = 6;

/// The priority an action gets when the active pet takes it.
pub open spec fn priority_of(active_pet: BattlePet, action: Action) -> i8 {
    match action {
        Action::UseMove { move_index } => active_pet.moves@[move_index as int].priority,
        Action::Switch { .. } => SWITCH_PRIORITY,
        Action::Pass => i8::MIN,
    }
}

/// The priority of an action taken by `active_pet`.
pub fn action_priority(active_pet: &BattlePet, action: &Action) -> (p: i8)
    requires
        action matches Action::UseMove { move_index } ==> move_index < active_pet.moves@.len(),
    ensures
        p == priority_of(*active_pet, *action),
{
    match action {
        Action::UseMove { move_index } => active_pet.moves[*move_index].priority,
        Action::Switch { .. } => SWITCH_PRIORITY,
        Action::Pass => i8::MIN,
    }
}

/// Power plus the attacker's attack minus the defender's defense.
pub open spec fn raw_damage(source_pet: BattlePet, target_pet: BattlePet, power: i32) -> int {
    power + source_pet.stats.attack - target_pet.stats.defense
}

/// The damage of a hit: the raw damage, but at least one.
pub open spec fn damage_of(source_pet: BattlePet, target_pet: BattlePet, power: i32) -> int {
    let raw = raw_damage(source_pet, target_pet, power);
    if raw < 1 {
        1
    } else {
        raw
    }
}

/// The damage formula stays within `i32` at each step.
pub open spec fn damage_fits(source_pet: BattlePet, target_pet: BattlePet, power: i32) -> bool {
    &&& i32::MIN <= power + source_pet.stats.attack <= i32::MAX
    &&& i32::MIN <= raw_damage(source_pet, target_pet, power) <= i32::MAX
}

/// The damage `source_pet` deals to `target_pet` with a hit of `power`.
pub fn calculate_damage(source_pet: &BattlePet, target_pet: &BattlePet, power: i32) -> (d: i32)
    requires
        damage_fits(*source_pet, *target_pet, power),
    ensures
        d == damage_of(*source_pet, *target_pet, power),
        d >= 1,
        d == if power + source_pet.stats.attack - target_pet.stats.defense >= 1 {
            power + source_pet.stats.attack - target_pet.stats.defense
        } else {
            1
        },
{
    let raw = power + source_pet.stats.attack - target_pet.stats.defense;
    if raw < 1 {
        1
    } else {
        raw
    }
}

/// What one effect of a move amounts to once the pets are known.
#[derive(Debug, Clone, PartialEq, Eq)]
pub enum MoveConsequence {
    Damage { target_side: usize, amount: i32 },
    NoEffect { reason: &'static str },
}

/// A consequence with its reason taken as a character sequence.
pub enum ConsequenceView {
    Damage { target_side: usize, amount: i32 },
    NoEffect { reason: Seq<char> },
}

impl View for MoveConsequence {
    type V = ConsequenceView;

    open spec fn view(&self) -> ConsequenceView {
        match self {
            MoveConsequence::Damage { target_side, amount } => ConsequenceView::Damage {
                target_side: *target_side,
                amount: *amount,
            },
            MoveConsequence::NoEffect { reason } => ConsequenceView::NoEffect { reason: reason@ },
        }
    }
}

/// Why a status move does nothing yet.
pub open spec fn status_reason() -> Seq<char> {
    "status semantics not implemented"@
}

/// The pet an effect lands on.
pub open spec fn defender_of(
    source_pet: BattlePet,
    target_pet: BattlePet,
    target: BattleTarget,
) -> BattlePet {
    match target {
        BattleTarget::SelfActive => source_pet,
        BattleTarget::OpponentActive => target_pet,
    }
}

/// The side an effect lands on.
pub open spec fn side_of(source_side: usize, target: BattleTarget) -> usize {
    match target {
        BattleTarget::SelfActive => source_side,
        BattleTarget::OpponentActive => (1 - source_side) as usize,
    }
}

/// The damage of an effect can be computed.
pub open spec fn effect_fits(source_pet: BattlePet, target_pet: BattlePet, effect: BattleEffect) -> bool {
    match effect {
        BattleEffect::DealDamage { power, target } => damage_fits(
            source_pet,
            defender_of(source_pet, target_pet, target),
            power,
        ),
        BattleEffect::StatusPlaceholder => true,
    }
}

/// Every effect of a move can be computed.
pub open spec fn effects_fit(source_pet: BattlePet, target_pet: BattlePet, effects: Seq<BattleEffect>) -> bool {
    forall|i: int| 0 <= i < effects.len() ==> effect_fits(source_pet, target_pet, #[trigger] effects[i])
}

/// What an effect amounts to when side `source_side` uses it.
pub open spec fn consequence_of(
    source_side: usize,
    source_pet: BattlePet,
    target_pet: BattlePet,
    effect: BattleEffect,
) -> ConsequenceView {
    match effect {
        BattleEffect::DealDamage { power, target } => ConsequenceView::Damage {
            target_side: side_of(source_side, target),
            amount: damage_of(source_pet, defender_of(source_pet, target_pet, target), power) as i32,
        },
        BattleEffect::StatusPlaceholder => ConsequenceView::NoEffect { reason: status_reason() },
    }
}

/// What each effect of a move amounts to, in order.
pub open spec fn consequences_of(
    source_side: usize,
    source_pet: BattlePet,
    target_pet: BattlePet,
    effects: Seq<BattleEffect>,
) -> Seq<ConsequenceView> {
    effects.map_values(|e: BattleEffect| consequence_of(source_side, source_pet, target_pet, e))
}

/// The views of a sequence of consequences.
pub open spec fn consequences_view(cs: Seq<MoveConsequence>) -> Seq<ConsequenceView> {
    cs.map_values(|c: MoveConsequence| c@)
}

/// What each effect of `semantics` amounts to when side `source_side` uses it.
pub fn resolve_move(
    source_side: usize,
    source_pet: &BattlePet,
    target_pet: &BattlePet,
    semantics: &BattleMoveSemantics,
) -> (cs: Vec<MoveConsequence>)
    requires
        source_side < 2,
        effects_fit(*source_pet, *target_pet, semantics.effects@),
    ensures
        consequences_view(cs@) == consequences_of(
            source_side,
            *source_pet,
            *target_pet,
            semantics.effects@,
        ),
{
    let mut cs: Vec<MoveConsequence> = Vec::new();
    for i in 0..semantics.effects.len()
        invariant
            source_side < 2,
            effects_fit(*source_pet, *target_pet, semantics.effects@),
            consequences_view(cs@) == consequences_of(
                source_side,
                *source_pet,
                *target_pet,
                semantics.effects@.take(i as int),
            ),
    {
        let c = resolve_effect(source_side, source_pet, target_pet, &semantics.effects[i]);
        let ghost before = cs@;
        cs.push(c);
        assert(consequences_view(cs@) =~= consequences_view(before).push(c@));
        assert(semantics.effects@.take(i + 1) =~= semantics.effects@.take(i as int).push(
            semantics.effects@[i as int],
        ));
        assert(consequences_of(source_side, *source_pet, *target_pet, semantics.effects@.take(i + 1))
            =~= consequences_of(source_side, *source_pet, *target_pet, semantics.effects@.take(i as int)).push(
            consequence_of(source_side, *source_pet, *target_pet, semantics.effects@[i as int]),
        ));
    }
    assert(semantics.effects@.take(semantics.effects@.len() as int) =~= semantics.effects@);
    cs
}

/// What one effect amounts to when side `source_side` uses it.
pub fn resolve_effect(
    source_side: usize,
    source_pet: &BattlePet,
    target_pet: &BattlePet,
    effect: &BattleEffect,
) -> (c: MoveConsequence)
    requires
        source_side < 2,
        effect_fits(*source_pet, *target_pet, *effect),
    ensures
        c@ == consequence_of(source_side, *source_pet, *target_pet, *effect),
{
    match effect {
        BattleEffect::DealDamage { power, target } => {
            let target_side = match target {
                BattleTarget::SelfActive => source_side,
                BattleTarget::OpponentActive => 1 - source_side,
            };
            let defending_pet = match target {
                BattleTarget::SelfActive => source_pet,
                BattleTarget::OpponentActive => target_pet,
            };
            MoveConsequence::Damage {
                target_side,
                amount: calculate_damage(source_pet, defending_pet, *power),
            }
        },
        BattleEffect::StatusPlaceholder => {
            let reason = "status semantics not implemented";
            proof {
                reveal_strlit("status semantics not implemented");
            }
            MoveConsequence::NoEffect { reason }
        },
    }
}

/// Whether the left side acts first: higher priority first, then higher
/// speed, and the left side on a full tie.
pub open spec fn left_first(
    left_priority: i8,
    left_speed: i32,
    right_priority: i8,
    right_speed: i32,
) -> bool {
    left_priority > right_priority || (left_priority == right_priority && left_speed >= right_speed)
}

/// Whether the left side acts first; the order in which the two ranked
/// actions of a turn are played.
pub fn left_acts_first(
    left_priority: i8,
    left_speed: i32,
    right_priority: i8,
    right_speed: i32,
) -> (r: bool)
    ensures
        r == left_first(left_priority, left_speed, right_priority, right_speed),
        left_priority > right_priority ==> r,
        left_priority < right_priority ==> !r,
        left_priority == right_priority ==> (r <==> left_speed >= right_speed),
{
    left_priority > right_priority || (left_priority == right_priority && left_speed
        >= right_speed)
}


/// The damage of a hit is the power plus the attacker's attack minus the
/// defender's defense, and never less than one; a damaging effect aimed at
/// the opponent deals that much to the other side.
pub proof fn law_damage_is_power_plus_attack_minus_defense(
    side: usize,
    source_pet: BattlePet,
    target_pet: BattlePet,
    power: i32,
)
    requires
        side < 2,
    ensures
        damage_of(source_pet, target_pet, power) == if power + source_pet.stats.attack
            - target_pet.stats.defense >= 1 {
            power + source_pet.stats.attack - target_pet.stats.defense
        } else {
            1
        },
        damage_of(source_pet, target_pet, power) >= 1,
        consequence_of(
            side,
            source_pet,
            target_pet,
            BattleEffect::DealDamage { power, target: BattleTarget::OpponentActive },
        ) == (ConsequenceView::Damage {
            target_side: (1 - side) as usize,
            amount: damage_of(source_pet, target_pet, power) as i32,
        }),
        consequence_of(
            side,
            source_pet,
            target_pet,
            BattleEffect::DealDamage { power, target: BattleTarget::SelfActive },
        ) == (ConsequenceView::Damage {
            target_side: side,
            amount: damage_of(source_pet, source_pet, power) as i32,
        }),
{
}

/// The side whose action has the higher priority acts first, whatever the
/// speeds; on equal priority the faster pet acts first, and the left side on
/// a full tie.
pub proof fn law_priority_then_speed_then_left(
    left_priority: i8,
    left_speed: i32,
    right_priority: i8,
    right_speed: i32,
)
    ensures
        left_priority > right_priority ==> left_first(
            left_priority,
            left_speed,
            right_priority,
            right_speed,
        ),
        left_priority < right_priority ==> !left_first(
            left_priority,
            left_speed,
            right_priority,
            right_speed,
        ),
        left_priority == right_priority ==> (left_first(
            left_priority,
            left_speed,
            right_priority,
            right_speed,
        ) <==> left_speed >= right_speed),
{
}

} // verus!
