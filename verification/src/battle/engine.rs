//! The battle state machine: one call resolves one turn.
use vstd::prelude::*;
use vstd::string::StringExecFns;

use crate::battle::action::Action;
use crate::battle::error::BattleError;
use crate::battle::event::{events_view, lemma_events_view_push, EventView, TurnEvent, TurnOutcome};
use crate::battle::laws::{
    effect_within, moves_in_range, pet_within_limits, stat_within, turn_within_limits,
};
use crate::battle::model::{
    act, apply_action, apply_consequence, apply_consequences, apply_move, auto_switch,
    auto_switch_side, consequence_fits, has_ended, lemma_consequences_prefix, refresh_winner,
    side_prefix, turn_model, validation_error, BattleView,
};
use crate::battle::rules::{
    action_priority, consequences_view, left_acts_first, priority_of, resolve_move,
    ConsequenceView, MoveConsequence,
};
use crate::battle::state::{lemma_bench_from, BattleEffect, BattlePet, Side, Team};
use crate::text::usize_text;

verus! {

/// Two sides facing each other, the number of turns played and the winner
/// once there is one.
#[derive(Debug, Clone, PartialEq, Eq)]
pub struct BattleState {
    pub sides: [Side; 2],
    pub turn: u32,
    pub winner: Option<usize>,
}

impl View for BattleState {
    type V = BattleView;

    open spec fn view(&self) -> BattleView {
        BattleView {
            sides: self.sides@.map_values(|s: Side| s@),
            turn: self.turn,
            winner: self.winner,
        }
    }
}

/// A result of `resolve_turn` agrees with what the turn model returns.
pub open spec fn outcome_matches(
    res: Result<TurnOutcome, BattleError>,
    model: Result<(Seq<EventView>, Option<usize>), crate::battle::error::BattleErrorView>,
) -> bool {
    match (res, model) {
        (Ok(outcome), Ok((events, winner))) => events_view(outcome.events@) == events
            && outcome.winner == winner,
        (Err(e), Err(expected)) => e@ == expected,
        _ => false,
    }
}

/// An action checked and ranked for ordering.
#[derive(Debug, Clone, Copy)]
struct ResolvedAction {
    side: usize,
    priority: i8,
    speed: i32,
    action: Action,
}

/// Whether the events report the end of the battle.
fn has_battle_ended(events: &Vec<TurnEvent>) -> (r: bool)
    ensures
        r == has_ended(events_view(events@)),
{
    let ghost ev = events_view(events@);
    for i in 0..events.len()
        invariant
            ev == events_view(events@),
            forall|j: int| 0 <= j < i ==> !(ev[j] is BattleEnded),
    {
        if let TurnEvent::BattleEnded { .. } = &events[i] {
            assert(ev[i as int] is BattleEnded);
            return true;
        }
    }
    assert forall|j: int| 0 <= j < ev.len() implies !(#[trigger] ev[j] is BattleEnded) by {}
    false
}

impl BattleState {
    /// A fresh battle: no turn played yet and no winner.
    pub fn new(left: Side, right: Side) -> (s: Self)
        ensures
            s.sides@[0] == left,
            s.sides@[1] == right,
            s.turn == 0,
            s.winner is None,
    {
        BattleState { sides: [left, right], turn: 0, winner: None }
    }

    /// Replaces a fainted active pet of `side` by the first pet that can
    /// still fight, if any.
    fn auto_switch_side(&mut self, side: usize, events: &mut Vec<TurnEvent>)
        requires
            old(self)@.wf(),
            side < 2,
        ensures
            final(self)@ == auto_switch_side(old(self)@, side).0,
            events_view(final(events)@) == events_view(old(events)@) + auto_switch_side(
                old(self)@,
                side,
            ).1,
            final(self)@.wf(),
    {
        assert(self.sides@[side as int].team@ == self@.team(side as int));
        if !self.sides[side].team.active_pet().is_fainted() {
            assert(events_view(events@) + Seq::<EventView>::empty() =~= events_view(events@));
            return;
        }
        let next = self.sides[side].team.first_available_bench();
        match next {
            Some(index) => {
                proof {
                    lemma_bench_from(self@.team(side as int), 0);
                }
                let ghost before = self@;
                self.sides[side].team.active = index;
                assert(self@.sides =~= before.with_team(
                    side as int,
                    before.team(side as int).with_active(index),
                ).sides);
                assert(self@ =~= before.with_team(
                    side as int,
                    before.team(side as int).with_active(index),
                ));
                let pet_name = self.sides[side].team.active_pet().name.clone();
                let event = TurnEvent::AutoSwitched { side, pet_name };
                proof {
                    lemma_events_view_push(events@, event);
                }
                events.push(event);
                assert(events_view(events@) =~= events_view(old(events)@) + auto_switch_side(
                    before,
                    side,
                ).1);
            },
            None => {
                assert(events_view(events@) + Seq::<EventView>::empty() =~= events_view(events@));
            },
        }
    }

    fn check_auto_switch(&mut self, events: &mut Vec<TurnEvent>)
        requires
            old(self)@.wf(),
        ensures
            final(self)@ == auto_switch(old(self)@).0,
            events_view(final(events)@) == events_view(old(events)@) + auto_switch(old(self)@).1,
            final(self)@.wf(),
    {
        let ghost v0 = self@;
        let ghost e0 = events_view(events@);
        self.auto_switch_side(0, events);
        self.auto_switch_side(1, events);
        assert(events_view(events@) =~= e0 + auto_switch(v0).1);
    }

    fn switch_active(&mut self, side: usize, target_index: usize, events: &mut Vec<TurnEvent>)
        requires
            old(self)@.wf(),
            side < 2,
            target_index < old(self)@.team(side as int).pets.len(),
        ensures
            final(self)@ == apply_action(old(self)@, side, Action::Switch { target_index }).0,
            events_view(final(events)@) == events_view(old(events)@) + apply_action(
                old(self)@,
                side,
                Action::Switch { target_index },
            ).1,
            final(self)@.wf(),
    {
        let ghost before = self@;
        self.sides[side].team.active = target_index;
        assert(self@.sides =~= before.with_team(
            side as int,
            before.team(side as int).with_active(target_index),
        ).sides);
        assert(self@ =~= before.with_team(
            side as int,
            before.team(side as int).with_active(target_index),
        ));
        let pet_name = self.sides[side].team.active_pet().name.clone();
        let event = TurnEvent::Switched { side, pet_name };
        proof {
            lemma_events_view_push(events@, event);
        }
        events.push(event);
        assert(events_view(events@) =~= events_view(old(events)@) + apply_action(
            before,
            side,
            Action::Switch { target_index },
        ).1);
    }

    /// Applies one consequence of a move used by `side`.
    fn apply_consequence(
        &mut self,
        side: usize,
        move_name: &String,
        consequence: &MoveConsequence,
        events: &mut Vec<TurnEvent>,
    )
        requires
            old(self)@.wf(),
            side < 2,
            consequence_fits(old(self)@, consequence@),
        ensures
            final(self)@ == apply_consequence(old(self)@, side, move_name@, consequence@).0,
            events_view(final(events)@) == events_view(old(events)@) + apply_consequence(
                old(self)@,
                side,
                move_name@,
                consequence@,
            ).1,
            final(self)@.wf(),
    {
        let ghost before = self@;
        match consequence {
            MoveConsequence::Damage { target_side, amount } => {
                let target_side = *target_side;
                let amount = *amount;
                assert(self.sides@[target_side as int].team@ == self@.team(target_side as int));
                let active = self.sides[target_side].team.active;
                let hp = self.sides[target_side].team.pets[active].current_hp;
                let left = hp - amount;
                let remaining_hp = if left > 0 {
                    left
                } else {
                    0
                };
                self.sides[target_side].team.pets[active].current_hp = remaining_hp;
                assert(self@.sides =~= before.with_team(
                    target_side as int,
                    before.team(target_side as int).with_active_hp(remaining_hp),
                ).sides);
                assert(self@ =~= before.with_team(
                    target_side as int,
                    before.team(target_side as int).with_active_hp(remaining_hp),
                ));
                let dealt = TurnEvent::DamageDealt {
                    source_side: side,
                    target_side,
                    amount,
                    remaining_hp,
                };
                proof {
                    lemma_events_view_push(events@, dealt);
                }
                events.push(dealt);
                if remaining_hp <= 0 {
                    let pet_name = self.sides[target_side].team.pets[active].name.clone();
                    let fainted = TurnEvent::Fainted { side: target_side, pet_name };
                    proof {
                        lemma_events_view_push(events@, fainted);
                    }
                    events.push(fainted);
                }
                assert(events_view(events@) =~= events_view(old(events)@) + apply_consequence(
                    before,
                    side,
                    move_name@,
                    consequence@,
                ).1);
            },
            MoveConsequence::NoEffect { reason } => {
                let event = TurnEvent::MoveHadNoEffect {
                    side,
                    move_name: move_name.clone(),
                    reason: String::from_str(reason),
                };
                proof {
                    lemma_events_view_push(events@, event);
                }
                events.push(event);
                assert(events_view(events@) =~= events_view(old(events)@) + apply_consequence(
                    before,
                    side,
                    move_name@,
                    consequence@,
                ).1);
            },
        }
    }

    fn apply_move(
        &mut self,
        source_side: usize,
        move_index: usize,
        events: &mut Vec<TurnEvent>,
    ) -> (res: Result<(), BattleError>)
        requires
            old(self)@.wf(),
            source_side < 2,
            apply_move(old(self)@, source_side, move_index).2,
        ensures
            res is Ok,
            final(self)@ == apply_move(old(self)@, source_side, move_index).0,
            events_view(final(events)@) == events_view(old(events)@) + apply_move(
                old(self)@,
                source_side,
                move_index,
            ).1,
            final(self)@.wf(),
    {
        let ghost v0 = self@;
        let ghost e0 = events_view(events@);
        let target_side = 1 - source_side;
        assert(self.sides@[source_side as int].team@ == self@.team(source_side as int));
        assert(self.sides@[target_side as int].team@ == self@.team(target_side as int));
        let source_pet = self.sides[source_side].team.active_pet();
        let target_pet = self.sides[target_side].team.active_pet();
        let chosen_move = &source_pet.moves[move_index];
        let consequences = resolve_move(source_side, source_pet, target_pet, &chosen_move.semantics);
        let pet_name = source_pet.name.clone();
        let move_name = chosen_move.name.clone();
        let used = TurnEvent::MoveUsed { side: source_side, pet_name, move_name: move_name.clone() };
        proof {
            lemma_events_view_push(events@, used);
        }
        events.push(used);
        let ghost cs = consequences_view(consequences@);
        let ghost e1 = events_view(events@);
        assert(cs.take(0) =~= Seq::<ConsequenceView>::empty());
        assert(e1 + Seq::<EventView>::empty() =~= e1);
        for i in 0..consequences.len()
            invariant
                self@.wf(),
                source_side < 2,
                cs == consequences_view(consequences@),
                apply_consequences(v0, source_side, move_name@, cs).2,
                self@ == apply_consequences(v0, source_side, move_name@, cs.take(i as int)).0,
                events_view(events@) == e1 + apply_consequences(
                    v0,
                    source_side,
                    move_name@,
                    cs.take(i as int),
                ).1,
        {
            proof {
                lemma_consequences_prefix(v0, source_side, move_name@, cs, i + 1);
                assert(cs.take(i + 1).drop_last() =~= cs.take(i as int));
            }
            let ghost e_before = events_view(events@);
            self.apply_consequence(source_side, &move_name, &consequences[i], events);
            assert(events_view(events@) =~= e1 + apply_consequences(
                v0,
                source_side,
                move_name@,
                cs.take(i + 1),
            ).1);
        }
        assert(cs.take(cs.len() as int) =~= cs);
        assert(events_view(events@) =~= e0 + apply_move(v0, source_side, move_index).1);
        Ok(())
    }

    fn apply_action(
        &mut self,
        side: usize,
        action: Action,
        events: &mut Vec<TurnEvent>,
    ) -> (res: Result<(), BattleError>)
        requires
            old(self)@.wf(),
            side < 2,
            apply_action(old(self)@, side, action).2,
        ensures
            res is Ok,
            final(self)@ == apply_action(old(self)@, side, action).0,
            events_view(final(events)@) == events_view(old(events)@) + apply_action(
                old(self)@,
                side,
                action,
            ).1,
            final(self)@.wf(),
    {
        match action {
            Action::UseMove { move_index } => self.apply_move(side, move_index, events),
            Action::Switch { target_index } => {
                self.switch_active(side, target_index, events);
                Ok(())
            },
            Action::Pass => {
                let event = TurnEvent::TurnSkipped {
                    side,
                    reason: String::from_str("side chose to pass"),
                };
                proof {
                    lemma_events_view_push(events@, event);
                }
                events.push(event);
                assert(events_view(events@) =~= events_view(old(events)@) + apply_action(
                    old(self)@,
                    side,
                    action,
                ).1);
                Ok(())
            },
        }
    }

    /// One side's part of a turn: nothing once there is a winner, a skip when
    /// its active pet has fainted, otherwise its action followed by the
    /// replacement of fainted pets and the winner check.
    fn run_action(&mut self, resolved: ResolvedAction, events: &mut Vec<TurnEvent>) -> (res: Result<
        (),
        BattleError,
    >)
        requires
            old(self)@.wf(),
            resolved.side < 2,
            act(old(self)@, resolved.side, resolved.action, events_view(old(events)@)).2,
        ensures
            res is Ok,
            final(self)@ == act(old(self)@, resolved.side, resolved.action, events_view(old(events)@)).0,
            events_view(final(events)@) == act(
                old(self)@,
                resolved.side,
                resolved.action,
                events_view(old(events)@),
            ).1,
            final(self)@.wf(),
    {
        if self.winner.is_some() {
            return Ok(());
        }
        assert(self.sides@[resolved.side as int].team@ == self@.team(resolved.side as int));
        if self.sides[resolved.side].team.active_pet().is_fainted() {
            let event = TurnEvent::TurnSkipped {
                side: resolved.side,
                reason: String::from_str("active pet has fainted"),
            };
            proof {
                lemma_events_view_push(events@, event);
            }
            events.push(event);
            return Ok(());
        }
        let ghost v0 = self@;
        let ghost e0 = events_view(events@);
        self.apply_action(resolved.side, resolved.action, events)?;
        let ghost e1 = events_view(events@);
        self.check_auto_switch(events);
        assert(events_view(events@) =~= e0 + apply_action(v0, resolved.side, resolved.action).1
            + auto_switch(apply_action(v0, resolved.side, resolved.action).0).1);
        self.refresh_winner(events);
        Ok(())
    }

    /// The refusal `side <side><tail>`.
    fn refusal(side: usize, tail: &str) -> (message: String)
        ensures
            message@ == side_prefix(side) + tail@,
    {
        let mut message = String::from_str("side ");
        let number = usize_text(side);
        message.append(number.as_str());
        message.append(tail);
        message
    }

    /// The refusal `side <side><tail><index>`.
    fn refusal_at(side: usize, tail: &str, index: usize) -> (message: String)
        ensures
            message@ == side_prefix(side) + tail@ + crate::text::decimal(index as nat),
    {
        let mut message = Self::refusal(side, tail);
        let number = usize_text(index);
        message.append(number.as_str());
        message
    }

    fn validate_action(&self, side: usize, action: &Action) -> (res: Result<(), BattleError>)
        requires
            self@.wf(),
            side < 2,
        ensures
            match validation_error(self@, side, *action) {
                Some(e) => res matches Err(x) && x@ == e,
                None => res is Ok,
            },
    {
        assert(self.sides@[side as int].team@ == self@.team(side as int));
        let team = &self.sides[side].team;
        let active = team.active_pet();
        match action {
            Action::UseMove { move_index } => {
                if active.is_fainted() {
                    return Err(
                        BattleError::InvalidAction(
                            Self::refusal(side, " cannot act with a fainted pet"),
                        ),
                    );
                }
                if *move_index >= active.moves.len() {
                    return Err(
                        BattleError::InvalidAction(
                            Self::refusal_at(side, " selected invalid move index ", *move_index),
                        ),
                    );
                }
            },
            Action::Switch { target_index } => {
                if *target_index >= team.pets.len() {
                    return Err(
                        BattleError::InvalidAction(
                            Self::refusal_at(
                                side,
                                " selected invalid switch target ",
                                *target_index,
                            ),
                        ),
                    );
                }
                if *target_index == team.active {
                    return Err(
                        BattleError::InvalidAction(
                            Self::refusal(side, " cannot switch to the active pet"),
                        ),
                    );
                }
                if team.pets[*target_index].is_fainted() {
                    return Err(
                        BattleError::InvalidAction(
                            Self::refusal(side, " cannot switch to a fainted pet"),
                        ),
                    );
                }
            },
            Action::Pass => {},
        }
        Ok(())
    }

    /// Checks both actions, the left side's first, and ranks them.
    fn resolve_action_order(&self, actions: [Action; 2]) -> (res: Result<
        Vec<ResolvedAction>,
        BattleError,
    >)
        requires
            self@.wf(),
        ensures
            match validation_error(self@, 0, actions@[0]) {
                Some(e) => res matches Err(x) && x@ == e,
                None => match validation_error(self@, 1, actions@[1]) {
                    Some(e) => res matches Err(x) && x@ == e,
                    None => res matches Ok(ranked) && ranked@.len() == 2 && forall|i: int|
                        0 <= i < 2 ==> {
                            &&& (#[trigger] ranked@[i]).side == i
                            &&& ranked@[i].action == actions@[i]
                            &&& ranked@[i].priority == priority_of(self@.active(i), actions@[i])
                            &&& ranked@[i].speed == self@.active(i).stats.speed
                        },
                },
            },
    {
        let mut resolved: Vec<ResolvedAction> = Vec::with_capacity(2);
        for side in 0..2
            invariant
                self@.wf(),
                forall|j: int| 0 <= j < side ==> validation_error(self@, j as usize, actions@[j]) is None,
                resolved@.len() == side,
                forall|i: int|
                    0 <= i < side ==> {
                        &&& (#[trigger] resolved@[i]).side == i
                        &&& resolved@[i].action == actions@[i]
                        &&& resolved@[i].priority == priority_of(self@.active(i), actions@[i])
                        &&& resolved@[i].speed == self@.active(i).stats.speed
                    },
        {
            let action = actions[side];
            self.validate_action(side, &action)?;
            assert(self.sides@[side as int].team@ == self@.team(side as int));
            let active_pet = self.sides[side].team.active_pet();
            let priority = action_priority(active_pet, &action);
            let speed = active_pet.stats.speed;
            resolved.push(ResolvedAction { side, priority, speed, action });
        }
        Ok(resolved)
    }

    /// Resolves one turn in which the left side takes `actions[0]` and the
    /// right side `actions[1]`.
    pub fn resolve_turn(&mut self, actions: [Action; 2]) -> (res: Result<TurnOutcome, BattleError>)
        requires
            old(self)@.wf(),
            turn_model(old(self)@, actions@[0], actions@[1]).defined,
        ensures
            final(self)@ == turn_model(old(self)@, actions@[0], actions@[1]).state,
            outcome_matches(res, turn_model(old(self)@, actions@[0], actions@[1]).result),
    {
        if self.winner.is_some() {
            return Err(BattleError::BattleAlreadyFinished);
        }
        self.turn = self.turn + 1;
        let mut events: Vec<TurnEvent> = Vec::new();
        let started = TurnEvent::TurnStarted { turn: self.turn };
        events.push(started);
        assert(events_view(events@) =~= seq![EventView::TurnStarted { turn: self.turn }]);
        let ordered = self.resolve_action_order(actions)?;
        let left = ordered[0];
        let right = ordered[1];
        if left_acts_first(left.priority, left.speed, right.priority, right.speed) {
            self.run_action(left, &mut events)?;
            self.run_action(right, &mut events)?;
        } else {
            self.run_action(right, &mut events)?;
            self.run_action(left, &mut events)?;
        }
        Ok(TurnOutcome { events, winner: self.winner })
    }

    fn refresh_winner(&mut self, events: &mut Vec<TurnEvent>)
        requires
            old(self)@.wf(),
        ensures
            (final(self)@, events_view(final(events)@)) == refresh_winner(
                old(self)@,
                events_view(old(events)@),
            ),
    {
        let left_alive = self.sides[0].team.has_available_pet();
        let right_alive = self.sides[1].team.has_available_pet();
        assert(self.sides@[0].team@ == self@.team(0));
        assert(self.sides@[1].team@ == self@.team(1));
        self.winner = if left_alive && !right_alive {
            Some(0)
        } else if !left_alive && right_alive {
            Some(1)
        } else {
            None
        };
        if let Some(winner) = self.winner {
            if !has_battle_ended(events) {
                proof {
                    lemma_events_view_push(events@, TurnEvent::BattleEnded { winner });
                }
                events.push(TurnEvent::BattleEnded { winner });
            }
        }
    }
}


/// Whether a number is within the stat limit.
fn stat_ok(x: i32) -> (r: bool)
    ensures
        r == stat_within(x as int),
{
    -0x1000_0000 <= x && x <= 0x1000_0000
}

/// Whether a pet's numbers are within the stat limit.
fn pet_ok(p: &BattlePet) -> (r: bool)
    ensures
        r == pet_within_limits(*p),
{
    if !(stat_ok(p.stats.attack) && stat_ok(p.stats.defense) && stat_ok(p.current_hp)) {
        return false;
    }
    for m in 0..p.moves.len()
        invariant
            forall|k: int, e: int|
                0 <= k < m && 0 <= e < p.moves@[k].semantics.effects@.len() ==> effect_within(
                    #[trigger] p.moves@[k].semantics.effects@[e],
                ),
    {
        let effects = &p.moves[m].semantics.effects;
        for e in 0..effects.len()
            invariant
                m < p.moves@.len(),
                effects@ == p.moves@[m as int].semantics.effects@,
                forall|k: int, f: int|
                    0 <= k < m && 0 <= f < p.moves@[k].semantics.effects@.len() ==> effect_within(
                        #[trigger] p.moves@[k].semantics.effects@[f],
                    ),
                forall|f: int| 0 <= f < e ==> effect_within(#[trigger] effects@[f]),
        {
            if let BattleEffect::DealDamage { power, .. } = effects[e] {
                if !stat_ok(power) {
                    assert(effects@[e as int] == p.moves@[m as int].semantics.effects@[e as int]);
                    assert(!effect_within(p.moves@[m as int].semantics.effects@[e as int]));
                    assert(!pet_within_limits(*p));
                    return false;
                }
            }
        }
        assert forall|k: int, f: int|
            0 <= k < m + 1 && 0 <= f < p.moves@[k].semantics.effects@.len() implies effect_within(
            #[trigger] p.moves@[k].semantics.effects@[f],
        ) by {
            if k == m {
                assert(effect_within(effects@[f]));
            }
        }
    }
    true
}

/// Whether every pet of a team is within the stat limit.
fn team_ok(team: &Team) -> (r: bool)
    ensures
        r == forall|i: int| 0 <= i < team.pets@.len() ==> pet_within_limits(#[trigger] team.pets@[i]),
{
    for i in 0..team.pets.len()
        invariant
            forall|k: int| 0 <= k < i ==> pet_within_limits(#[trigger] team.pets@[k]),
    {
        if !pet_ok(&team.pets[i]) {
            return false;
        }
    }
    true
}

/// Whether a chosen move names a move of every pet of the team.
fn moves_ok(team: &Team, action: &Action) -> (r: bool)
    ensures
        r == moves_in_range(team@, *action),
{
    match *action {
        Action::UseMove { move_index } => {
            for i in 0..team.pets.len()
                invariant
                    *action == (Action::UseMove { move_index }),
                    forall|k: int| 0 <= k < i ==> move_index < (#[trigger] team.pets@[k]).moves@.len(),
            {
                if move_index >= team.pets[i].moves.len() {
                    assert(!(move_index < team@.pets[i as int].moves@.len()));
                    return false;
                }
            }
            true
        },
        _ => true,
    }
}

impl BattleState {
    /// Whether the turn with `actions` stays within the limits under which
    /// every turn is defined: see `law_bounded_turn_is_defined`.
    pub fn within_limits(&self, actions: [Action; 2]) -> (r: bool)
        ensures
            r == turn_within_limits(self@, actions@[0], actions@[1]),
    {
        let left_team = &self.sides[0].team;
        let right_team = &self.sides[1].team;
        let left_ok = team_ok(left_team);
        let right_ok = team_ok(right_team);
        let ok = self.turn < u32::MAX && left_ok && right_ok && moves_ok(left_team, &actions[0])
            && moves_ok(right_team, &actions[1]);
        proof {
            let v = self@;
            assert(v.sides[0] == self.sides@[0]@);
            assert(v.sides[1] == self.sides@[1]@);
            assert(*left_team == self.sides@[0].team);
            assert(*right_team == self.sides@[1].team);
            assert(v.team(0) == left_team@);
            assert(v.team(1) == right_team@);
            if left_ok && right_ok {
                assert forall|s: int, i: int|
                    0 <= s < 2 && 0 <= i < v.sides[s].team.pets.len() implies pet_within_limits(
                    #[trigger] v.sides[s].team.pets[i],
                ) by {
                    if s == 0 {
                        assert(v.sides[s].team.pets[i] == left_team.pets@[i]);
                    } else {
                        assert(v.sides[s].team.pets[i] == right_team.pets@[i]);
                    }
                }
            } else if !left_ok {
                let i = choose|i: int| 0 <= i < left_team.pets@.len() && !pet_within_limits(left_team.pets@[i]);
                assert(v.sides[0].team.pets[i] == left_team.pets@[i]);
            } else {
                let i = choose|i: int| 0 <= i < right_team.pets@.len() && !pet_within_limits(right_team.pets@[i]);
                assert(v.sides[1].team.pets[i] == right_team.pets@[i]);
            }
        }
        ok
    }
}

} // verus!
