//! What every resolved turn guarantees, proved over the turn model.
use vstd::prelude::*;

use crate::battle::action::Action;
use crate::battle::error::BattleErrorView;
use crate::battle::event::EventView;
use crate::battle::model::{
    act, apply_action, apply_consequence, apply_consequences, apply_move, auto_switch,
    auto_switch_side, has_ended, left_goes_first, refresh_winner, turn_model, validation_error,
    winner_of, BattleView,
};
use crate::battle::model::{consequence_fits, fainted_reason};
use crate::battle::rules::{consequences_of, effect_fits, effects_fit, ConsequenceView};
use crate::battle::state::{lemma_bench_from, BattleEffect, BattlePet, TeamView};

verus! {

/// A finished battle refuses every further turn and stays exactly as it was.
pub proof fn law_finished_battle_refuses_turns(v: BattleView, left: Action, right: Action)
    requires
        v.winner is Some,
    ensures
        turn_model(v, left, right).state == v,
        turn_model(v, left, right).result == Err::<(Seq<EventView>, Option<usize>), BattleErrorView>(
            BattleErrorView::BattleAlreadyFinished,
        ),
{
}

/// The parts of a battle that no turn changes: the sides' names, the size of
/// each team and, for every pet, everything but its hit points.
pub open spec fn same_roster(a: BattleView, b: BattleView) -> bool {
    &&& a.sides.len() == b.sides.len()
    &&& forall|s: int|
        0 <= s < a.sides.len() ==> {
            &&& (#[trigger] a.sides[s]).name == b.sides[s].name
            &&& a.sides[s].team.pets.len() == b.sides[s].team.pets.len()
            &&& forall|i: int|
                0 <= i < a.sides[s].team.pets.len() ==> {
                    let p = #[trigger] a.sides[s].team.pets[i];
                    let q = b.sides[s].team.pets[i];
                    &&& p.id == q.id
                    &&& p.species_id == q.species_id
                    &&& p.name == q.name
                    &&& p.element == q.element
                    &&& p.stats == q.stats
                    &&& p.moves == q.moves
                }
        }
}

/// Hit points after a turn: unchanged, or lowered to no less than zero (a pet
/// with negative hit points that is hit again ends at zero).
pub open spec fn hp_lowered(before: int, after: int) -> bool {
    after == before || (0 <= after && after <= if before > 0 {
        before
    } else {
        0
    })
}

/// No pet's hit points went up, except from below zero to zero.
pub open spec fn hp_not_raised(a: BattleView, b: BattleView) -> bool {
    forall|s: int, i: int|
        0 <= s < a.sides.len() && 0 <= i < a.sides[s].team.pets.len() ==> hp_lowered(
            (#[trigger] a.sides[s].team.pets[i]).current_hp as int,
            b.sides[s].team.pets[i].current_hp as int,
        )
}

/// Together: the roster is kept, hit points do not rise and the battle stays
/// well formed.
pub open spec fn kept(a: BattleView, b: BattleView) -> bool {
    same_roster(a, b) && hp_not_raised(a, b) && b.wf()
}

proof fn lemma_kept_trans(a: BattleView, b: BattleView, c: BattleView)
    requires
        kept(a, b),
        kept(b, c),
    ensures
        kept(a, c),
{
    assert forall|s: int, i: int|
        0 <= s < a.sides.len() && 0 <= i < a.sides[s].team.pets.len() implies hp_lowered(
        (#[trigger] a.sides[s].team.pets[i]).current_hp as int,
        c.sides[s].team.pets[i].current_hp as int,
    ) by {
        assert(a.sides[s] == a.sides[s]);
        let x = a.sides[s].team.pets[i].current_hp as int;
        let y = b.sides[s].team.pets[i].current_hp as int;
        let z = c.sides[s].team.pets[i].current_hp as int;
        assert(hp_lowered(x, y));
        assert(hp_lowered(y, z));
    }
    assert forall|s: int| 0 <= s < a.sides.len() implies {
        &&& (#[trigger] a.sides[s]).name == c.sides[s].name
        &&& a.sides[s].team.pets.len() == c.sides[s].team.pets.len()
        &&& forall|i: int|
            0 <= i < a.sides[s].team.pets.len() ==> {
                let p = #[trigger] a.sides[s].team.pets[i];
                let q = c.sides[s].team.pets[i];
                &&& p.id == q.id
                &&& p.species_id == q.species_id
                &&& p.name == q.name
                &&& p.element == q.element
                &&& p.stats == q.stats
                &&& p.moves == q.moves
            }
    } by {
        assert(b.sides[s] == b.sides[s]);
        assert forall|i: int| 0 <= i < a.sides[s].team.pets.len() implies {
            let p = #[trigger] a.sides[s].team.pets[i];
            let q = c.sides[s].team.pets[i];
            &&& p.id == q.id
            &&& p.species_id == q.species_id
            &&& p.name == q.name
            &&& p.element == q.element
            &&& p.stats == q.stats
            &&& p.moves == q.moves
        } by {
            assert(b.sides[s].team.pets[i] == b.sides[s].team.pets[i]);
        }
    }
}

proof fn lemma_kept_refl(a: BattleView)
    requires
        a.wf(),
    ensures
        kept(a, a),
{
}

/// A damage consequence hits a side and deals at least one point.
pub open spec fn consequence_sound(c: ConsequenceView) -> bool {
    c matches ConsequenceView::Damage { target_side, amount } ==> target_side < 2 && amount >= 1
}

proof fn lemma_consequences_sound(
    side: usize,
    source: BattlePet,
    target: BattlePet,
    effects: Seq<BattleEffect>,
)
    requires
        side < 2,
        effects_fit(source, target, effects),
    ensures
        forall|i: int|
            0 <= i < effects.len() ==> consequence_sound(
                #[trigger] consequences_of(side, source, target, effects)[i],
            ),
{
    assert forall|i: int| 0 <= i < effects.len() implies consequence_sound(
        #[trigger] consequences_of(side, source, target, effects)[i],
    ) by {
        let e = effects[i];
        assert(effect_fits(source, target, e));
    }
}

/// The events of a turn step that report no end of the battle.
pub open spec fn no_end(events: Seq<EventView>) -> bool {
    forall|i: int| 0 <= i < events.len() ==> !((#[trigger] events[i]) is BattleEnded)
}

proof fn lemma_consequence_kept(v: BattleView, side: usize, name: Seq<char>, c: ConsequenceView)
    requires
        v.wf(),
        consequence_fits(v, c),
        consequence_sound(c),
    ensures
        kept(v, apply_consequence(v, side, name, c).0),
        apply_consequence(v, side, name, c).0.winner == v.winner,
        apply_consequence(v, side, name, c).0.turn == v.turn,
        no_end(apply_consequence(v, side, name, c).1),
{
    let w = apply_consequence(v, side, name, c).0;
    match c {
        ConsequenceView::Damage { target_side, amount } => {
            let t = target_side as int;
            assert forall|s: int, i: int|
                0 <= s < v.sides.len() && 0 <= i < v.sides[s].team.pets.len() implies hp_lowered(
                (#[trigger] v.sides[s].team.pets[i]).current_hp as int,
                w.sides[s].team.pets[i].current_hp as int,
            ) by {
                if s == t && i == v.sides[s].team.active {
                } else {
                }
            }
        },
        ConsequenceView::NoEffect { .. } => {},
    }
}

proof fn lemma_consequences_kept(
    v: BattleView,
    side: usize,
    name: Seq<char>,
    cs: Seq<ConsequenceView>,
)
    requires
        v.wf(),
        apply_consequences(v, side, name, cs).2,
        forall|i: int| 0 <= i < cs.len() ==> consequence_sound(#[trigger] cs[i]),
    ensures
        kept(v, apply_consequences(v, side, name, cs).0),
        apply_consequences(v, side, name, cs).0.winner == v.winner,
        apply_consequences(v, side, name, cs).0.turn == v.turn,
        no_end(apply_consequences(v, side, name, cs).1),
    decreases cs.len(),
{
    if cs.len() == 0 {
        lemma_kept_refl(v);
    } else {
        let prev = apply_consequences(v, side, name, cs.drop_last());
        assert forall|i: int| 0 <= i < cs.drop_last().len() implies consequence_sound(
            #[trigger] cs.drop_last()[i],
        ) by {
            assert(cs.drop_last()[i] == cs[i]);
        }
        lemma_consequences_kept(v, side, name, cs.drop_last());
        assert(consequence_sound(cs[cs.len() - 1]));
        lemma_consequence_kept(prev.0, side, name, cs.last());
        lemma_kept_trans(v, prev.0, apply_consequences(v, side, name, cs).0);
        let step = apply_consequence(prev.0, side, name, cs.last());
        assert forall|i: int| 0 <= i < prev.1.len() + step.1.len() implies !((#[trigger] (prev.1
            + step.1)[i]) is BattleEnded) by {
            if i < prev.1.len() {
                assert((prev.1 + step.1)[i] == prev.1[i]);
            } else {
                assert((prev.1 + step.1)[i] == step.1[i - prev.1.len()]);
            }
        }
    }
}

proof fn lemma_no_end_concat(a: Seq<EventView>, b: Seq<EventView>)
    requires
        no_end(a),
        no_end(b),
    ensures
        no_end(a + b),
{
    assert forall|i: int| 0 <= i < (a + b).len() implies !((#[trigger] (a + b)[i]) is BattleEnded) by {
        if i < a.len() {
            assert((a + b)[i] == a[i]);
        } else {
            assert((a + b)[i] == b[i - a.len()]);
        }
    }
}

proof fn lemma_apply_action_kept(v: BattleView, side: usize, action: Action)
    requires
        v.wf(),
        side < 2,
        apply_action(v, side, action).2,
    ensures
        kept(v, apply_action(v, side, action).0),
        apply_action(v, side, action).0.winner == v.winner,
        apply_action(v, side, action).0.turn == v.turn,
        no_end(apply_action(v, side, action).1),
{
    match action {
        Action::UseMove { move_index } => {
            let source = v.active(side as int);
            let target = v.active(1 - side);
            let chosen = source.moves@[move_index as int];
            let effects = chosen.semantics.effects@;
            let cs = consequences_of(side, source, target, effects);
            lemma_consequences_sound(side, source, target, effects);
            lemma_consequences_kept(v, side, chosen.name@, cs);
            let r = apply_consequences(v, side, chosen.name@, cs);
            let head = seq![EventView::MoveUsed { side, pet_name: source.name@, move_name: chosen.name@ }];
            assert(no_end(head));
            lemma_no_end_concat(head, r.1);
        },
        Action::Switch { target_index } => {},
        Action::Pass => {},
    }
}

proof fn lemma_auto_switch_kept(v: BattleView)
    requires
        v.wf(),
    ensures
        kept(v, auto_switch(v).0),
        auto_switch(v).0.winner == v.winner,
        auto_switch(v).0.turn == v.turn,
        no_end(auto_switch(v).1),
{
    let l = auto_switch_side(v, 0);
    lemma_bench_from(v.team(0), 0);
    lemma_bench_from(l.0.team(1), 0);
    let r = auto_switch_side(l.0, 1);
    lemma_kept_trans(v, l.0, r.0);
    lemma_no_end_concat(l.1, r.1);
}

proof fn lemma_act_kept(v: BattleView, side: usize, action: Action, events: Seq<EventView>)
    requires
        v.wf(),
        side < 2,
        act(v, side, action, events).2,
    ensures
        kept(v, act(v, side, action, events).0),
        act(v, side, action, events).0.turn == v.turn,
{
    if v.winner is Some {
        lemma_kept_refl(v);
    } else if v.active(side as int).fainted() {
        lemma_kept_refl(v);
    } else {
        let a = apply_action(v, side, action);
        lemma_apply_action_kept(v, side, action);
        lemma_auto_switch_kept(a.0);
        lemma_kept_trans(v, a.0, auto_switch(a.0).0);
        let s = auto_switch(a.0);
        let w = refresh_winner(s.0, events + a.1 + s.1);
        lemma_kept_trans(v, s.0, w.0);
    }
}

/// A turn keeps the roster: each side's name, the size of each team and,
/// for every pet, everything but its hit points; active indices stay in
/// range; and no pet's hit points go up, except from below zero to zero.
/// The turn counter goes up by one unless the battle was already finished.
pub proof fn law_turn_keeps_roster(v: BattleView, left: Action, right: Action)
    requires
        v.wf(),
        turn_model(v, left, right).defined,
    ensures
        kept(v, turn_model(v, left, right).state),
        turn_model(v, left, right).state.turn == if v.winner is Some {
            v.turn as int
        } else {
            v.turn + 1
        },
{
    if v.winner is Some {
        lemma_kept_refl(v);
    } else {
        let v1 = BattleView { turn: (v.turn + 1) as u32, ..v };
        lemma_kept_refl(v);
        assert(kept(v, v1));
        if validation_error(v1, 0, left) is None && validation_error(v1, 1, right) is None {
            let first: usize = if left_goes_first(v1, left, right) {
                0
            } else {
                1
            };
            let (fa, sa) = if first == 0 {
                (left, right)
            } else {
                (right, left)
            };
            let start = seq![EventView::TurnStarted { turn: v1.turn }];
            let a = act(v1, first, fa, start);
            lemma_act_kept(v1, first, fa, start);
            lemma_act_kept(a.0, (1 - first) as usize, sa, a.1);
            lemma_kept_trans(v1, a.0, act(a.0, (1 - first) as usize, sa, a.1).0);
            lemma_kept_trans(v, v1, act(a.0, (1 - first) as usize, sa, a.1).0);
        }
    }
}

/// When no pet starts a turn below zero hit points, every pet ends it with
/// hit points between zero and what it had.
pub proof fn law_turn_keeps_hit_points_in_range(v: BattleView, left: Action, right: Action)
    requires
        v.wf(),
        turn_model(v, left, right).defined,
        forall|s: int, i: int|
            0 <= s < 2 && 0 <= i < v.sides[s].team.pets.len() ==> (#[trigger] v.sides[s].team.pets[i]).current_hp
                >= 0,
    ensures
        forall|s: int, i: int|
            0 <= s < 2 && 0 <= i < v.sides[s].team.pets.len() ==> 0 <= (
            #[trigger] turn_model(v, left, right).state.sides[s].team.pets[i]).current_hp
                <= v.sides[s].team.pets[i].current_hp,
{
    law_turn_keeps_roster(v, left, right);
    let w = turn_model(v, left, right).state;
    assert forall|s: int, i: int|
        0 <= s < 2 && 0 <= i < v.sides[s].team.pets.len() implies 0 <= (
        #[trigger] w.sides[s].team.pets[i]).current_hp <= v.sides[s].team.pets[i].current_hp by {
        assert(hp_lowered(
            v.sides[s].team.pets[i].current_hp as int,
            w.sides[s].team.pets[i].current_hp as int,
        ));
    }
}

/// What a turn in progress has reported about the end of the battle: no end
/// while there is no winner, and the end, last, once there is one.
pub open spec fn end_reported(v: BattleView, events: Seq<EventView>) -> bool {
    &&& v.winner is None ==> no_end(events)
    &&& v.winner matches Some(x) ==> {
        &&& winner_of(v) == Some(x)
        &&& events.len() > 0
        &&& events.last() == EventView::BattleEnded { winner: x }
        &&& no_end(events.drop_last())
    }
}

/// `b` starts with `a`.
pub open spec fn extends(a: Seq<EventView>, b: Seq<EventView>) -> bool {
    a.len() <= b.len() && forall|i: int| 0 <= i < a.len() ==> b[i] == a[i]
}

proof fn lemma_act_reports_end(v: BattleView, side: usize, action: Action, events: Seq<EventView>)
    requires
        v.wf(),
        side < 2,
        act(v, side, action, events).2,
        end_reported(v, events),
    ensures
        end_reported(act(v, side, action, events).0, act(v, side, action, events).1),
        extends(events, act(v, side, action, events).1),
{
    if v.winner is Some {
    } else if v.active(side as int).fainted() {
        let e = events.push(EventView::TurnSkipped { side, reason: fainted_reason() });
        assert forall|i: int| 0 <= i < e.len() implies !((#[trigger] e[i]) is BattleEnded) by {
            if i < events.len() {
                assert(e[i] == events[i]);
            }
        }
    } else {
        let a = apply_action(v, side, action);
        lemma_apply_action_kept(v, side, action);
        lemma_auto_switch_kept(a.0);
        let s = auto_switch(a.0);
        lemma_no_end_concat(events, a.1);
        lemma_no_end_concat(events + a.1, s.1);
        let all = events + a.1 + s.1;
        assert(!has_ended(all));
        assert(all.push(EventView::BattleEnded { winner: 0 }).drop_last() =~= all);
        assert(all.push(EventView::BattleEnded { winner: 1 }).drop_last() =~= all);
        assert forall|i: int| 0 <= i < events.len() implies all[i] == events[i] by {
            assert((events + a.1)[i] == events[i]);
        }
    }
}

/// What a resolved turn reports: it starts with the new turn number; the
/// winner it returns is the battle's winner afterwards; a winner is the only
/// side with a pet left that can fight, and the end of the battle is then the
/// last event and the only one that reports it; without a winner no event
/// reports an end.
pub proof fn law_turn_reports_winner(v: BattleView, left: Action, right: Action)
    requires
        v.wf(),
        turn_model(v, left, right).defined,
        turn_model(v, left, right).result is Ok,
    ensures
        ({
            let m = turn_model(v, left, right);
            let (events, winner) = m.result->Ok_0;
            &&& winner == m.state.winner
            &&& events.len() >= 1
            &&& events[0] == EventView::TurnStarted { turn: (v.turn + 1) as u32 }
            &&& match winner {
                Some(x) => {
                    &&& x < 2
                    &&& m.state.team(x as int).has_available()
                    &&& !m.state.team(1 - x).has_available()
                    &&& events.last() == EventView::BattleEnded { winner: x }
                    &&& no_end(events.drop_last())
                },
                None => no_end(events),
            }
        }),
{
    let v1 = BattleView { turn: (v.turn + 1) as u32, ..v };
    let first: usize = if left_goes_first(v1, left, right) {
        0
    } else {
        1
    };
    let (fa, sa) = if first == 0 {
        (left, right)
    } else {
        (right, left)
    };
    let start = seq![EventView::TurnStarted { turn: v1.turn }];
    assert(no_end(start));
    let a = act(v1, first, fa, start);
    lemma_act_kept(v1, first, fa, start);
    lemma_act_reports_end(v1, first, fa, start);
    lemma_act_reports_end(a.0, (1 - first) as usize, sa, a.1);
    let b = act(a.0, (1 - first) as usize, sa, a.1);
    assert(b.1[0] == a.1[0]);
}

/// A validated move comes from a pet that has not fainted and names one of
/// its moves.
proof fn lemma_valid_move(v: BattleView, side: usize, move_index: usize)
    requires
        validation_error(v, side, Action::UseMove { move_index }) is None,
    ensures
        !v.active(side as int).fainted(),
        move_index < v.active(side as int).moves@.len(),
{
}

/// When both sides use a valid move, the first action played is a move of
/// the side that goes first: the one whose move has the higher priority,
/// then the one whose active pet is faster, then the left side.
pub proof fn law_first_mover(v: BattleView, left_move: usize, right_move: usize)
    requires
        v.wf(),
        v.winner is None,
        turn_model(
            v,
            Action::UseMove { move_index: left_move },
            Action::UseMove { move_index: right_move },
        ).defined,
        validation_error(v, 0, Action::UseMove { move_index: left_move }) is None,
        validation_error(v, 1, Action::UseMove { move_index: right_move }) is None,
    ensures
        ({
            let left = Action::UseMove { move_index: left_move };
            let right = Action::UseMove { move_index: right_move };
            let first: usize = if left_goes_first(v, left, right) {
                0
            } else {
                1
            };
            let m = turn_model(v, left, right);
            &&& m.result is Ok
            &&& m.result->Ok_0.0.len() >= 2
            &&& m.result->Ok_0.0[1] matches EventView::MoveUsed { side, .. } && side == first
        }),
        ({
            let lp = v.active(0).moves@[left_move as int].priority;
            let rp = v.active(1).moves@[right_move as int].priority;
            let ls = v.active(0).stats.speed;
            let rs = v.active(1).stats.speed;
            let m = turn_model(
                v,
                Action::UseMove { move_index: left_move },
                Action::UseMove { move_index: right_move },
            );
            m.result->Ok_0.0[1] matches EventView::MoveUsed { side, .. } && side == if lp > rp {
                0usize
            } else if lp < rp {
                1usize
            } else if ls >= rs {
                0usize
            } else {
                1usize
            }
        }),
{
    let left = Action::UseMove { move_index: left_move };
    let right = Action::UseMove { move_index: right_move };
    let v1 = BattleView { turn: (v.turn + 1) as u32, ..v };
    assert(validation_error(v1, 0, left) == validation_error(v, 0, left));
    assert(validation_error(v1, 1, right) == validation_error(v, 1, right));
    let first: usize = if left_goes_first(v1, left, right) {
        0
    } else {
        1
    };
    let (fa, sa) = if first == 0 {
        (left, right)
    } else {
        (right, left)
    };
    lemma_valid_move(v, 0, left_move);
    lemma_valid_move(v, 1, right_move);
    let start = seq![EventView::TurnStarted { turn: v1.turn }];
    assert(no_end(start));
    let a = act(v1, first, fa, start);
    let ap = apply_action(v1, first, fa);
    let sw = auto_switch(ap.0);
    let all = start + ap.1 + sw.1;
    assert(all[1] == ap.1[0]);
    lemma_act_reports_end(v1, first, fa, start);
    lemma_act_kept(v1, first, fa, start);
    lemma_act_reports_end(a.0, (1 - first) as usize, sa, a.1);
    let b = act(a.0, (1 - first) as usize, sa, a.1);
    assert(b.1[1] == a.1[1]);
}


/// A number no larger in size than the stat limit, `2^28`.
pub open spec fn stat_within(x: int) -> bool {
    -0x1000_0000 <= x <= 0x1000_0000
}

/// A damage effect's power is within the stat limit.
pub open spec fn effect_within(e: BattleEffect) -> bool {
    match e {
        BattleEffect::DealDamage { power, .. } => stat_within(power as int),
        BattleEffect::StatusPlaceholder => true,
    }
}

/// The numbers a pet brings into a hit: attack, defense, hit points and the
/// power of each of its moves' effects are within the stat limit.
pub open spec fn pet_within_limits(p: BattlePet) -> bool {
    &&& stat_within(p.stats.attack as int)
    &&& stat_within(p.stats.defense as int)
    &&& stat_within(p.current_hp as int)
    &&& forall|m: int, e: int|
        0 <= m < p.moves@.len() && 0 <= e < p.moves@[m].semantics.effects@.len() ==> effect_within(
            #[trigger] p.moves@[m].semantics.effects@[e],
        )
}

/// Every pet of both sides is within the stat limit.
pub open spec fn pets_within_limits(v: BattleView) -> bool {
    forall|s: int, i: int|
        0 <= s < 2 && 0 <= i < v.sides[s].team.pets.len() ==> pet_within_limits(
            #[trigger] v.sides[s].team.pets[i],
        )
}

/// A move chosen by index names a move of every pet of the team, so it
/// stays valid whichever pet ends up active.
pub open spec fn moves_in_range(team: TeamView, action: Action) -> bool {
    action matches Action::UseMove { move_index } ==> forall|i: int|
        0 <= i < team.pets.len() ==> move_index < (#[trigger] team.pets[i]).moves@.len()
}

/// A turn that no arithmetic or index can take out of range: the turn
/// counter can go up, every pet is within the stat limit, and each side's
/// move names a move of every pet of its team.
pub open spec fn turn_within_limits(v: BattleView, left: Action, right: Action) -> bool {
    &&& v.turn < u32::MAX
    &&& pets_within_limits(v)
    &&& moves_in_range(v.team(0), left)
    &&& moves_in_range(v.team(1), right)
}

/// What a side may do in the middle of a turn: a move every pet knows, or a
/// switch to a pet of the team.
spec fn action_playable(team: TeamView, action: Action) -> bool {
    &&& moves_in_range(team, action)
    &&& action matches Action::Switch { target_index } ==> target_index < team.pets.len()
}

proof fn lemma_kept_limits(a: BattleView, b: BattleView)
    requires
        a.sides.len() == 2,
        kept(a, b),
        pets_within_limits(a),
    ensures
        pets_within_limits(b),
        forall|s: int| 0 <= s < 2 ==> (#[trigger] b.sides[s]).team.pets.len() == a.sides[s].team.pets.len(),
{
    assert forall|s: int, i: int|
        0 <= s < 2 && 0 <= i < b.sides[s].team.pets.len() implies pet_within_limits(
        #[trigger] b.sides[s].team.pets[i],
    ) by {
        assert(a.sides[s] == a.sides[s]);
        let p = a.sides[s].team.pets[i];
        let q = b.sides[s].team.pets[i];
        assert(pet_within_limits(p));
        assert(hp_lowered(p.current_hp as int, q.current_hp as int));
        assert(p.moves == q.moves && p.stats == q.stats);
        assert forall|m: int, e: int|
            0 <= m < q.moves@.len() && 0 <= e < q.moves@[m].semantics.effects@.len() implies effect_within(
            #[trigger] q.moves@[m].semantics.effects@[e],
        ) by {
            assert(p.moves@[m].semantics.effects@[e] == q.moves@[m].semantics.effects@[e]);
        }
    }
    assert forall|s: int| 0 <= s < 2 implies (#[trigger] b.sides[s]).team.pets.len()
        == a.sides[s].team.pets.len() by {
        assert(a.sides[s] == a.sides[s]);
    }
}

proof fn lemma_kept_playable(a: BattleView, b: BattleView, side: int, action: Action)
    requires
        a.sides.len() == 2,
        0 <= side < 2,
        kept(a, b),
        action_playable(a.team(side), action),
    ensures
        action_playable(b.team(side), action),
{
    assert(a.sides[side] == a.sides[side]);
    if let Action::UseMove { move_index } = action {
        assert forall|i: int| 0 <= i < b.team(side).pets.len() implies move_index < (
        #[trigger] b.team(side).pets[i]).moves@.len() by {
            assert(a.team(side).pets[i] == a.sides[side].team.pets[i]);
        }
    }
}

/// A damage consequence within what pets under the stat limit can deal.
spec fn consequence_within(c: ConsequenceView) -> bool {
    c matches ConsequenceView::Damage { target_side, amount } ==> target_side < 2 && 1 <= amount
        <= 0x3000_0000
}

proof fn lemma_consequences_within(
    v: BattleView,
    side: usize,
    name: Seq<char>,
    cs: Seq<ConsequenceView>,
)
    requires
        v.wf(),
        pets_within_limits(v),
        forall|i: int| 0 <= i < cs.len() ==> consequence_within(#[trigger] cs[i]),
    ensures
        apply_consequences(v, side, name, cs).2,
    decreases cs.len(),
{
    if cs.len() > 0 {
        let init = cs.drop_last();
        assert forall|i: int| 0 <= i < init.len() implies consequence_within(#[trigger] init[i]) by {
            assert(init[i] == cs[i]);
        }
        lemma_consequences_within(v, side, name, init);
        assert forall|i: int| 0 <= i < init.len() implies consequence_sound(#[trigger] init[i]) by {
            assert(init[i] == cs[i]);
            assert(consequence_within(cs[i]));
        }
        lemma_consequences_kept(v, side, name, init);
        let prev = apply_consequences(v, side, name, init);
        lemma_kept_limits(v, prev.0);
        assert(consequence_within(cs[cs.len() - 1]));
        if let ConsequenceView::Damage { target_side, amount } = cs.last() {
            let t = target_side as int;
            assert(prev.0.sides[t] == prev.0.sides[t]);
            assert(pet_within_limits(prev.0.sides[t].team.pets[prev.0.sides[t].team.active as int]));
        }
    }
}

proof fn lemma_move_within(v: BattleView, side: usize, move_index: usize)
    requires
        v.wf(),
        side < 2,
        pets_within_limits(v),
        move_index < v.active(side as int).moves@.len(),
    ensures
        apply_move(v, side, move_index).2,
{
    let source = v.active(side as int);
    let target = v.active(1 - side);
    assert(v.sides[side as int] == v.sides[side as int]);
    assert(v.sides[1 - side] == v.sides[1 - side]);
    assert(pet_within_limits(source));
    assert(pet_within_limits(target));
    let chosen = source.moves@[move_index as int];
    let effects = chosen.semantics.effects@;
    assert forall|i: int| 0 <= i < effects.len() implies effect_fits(
        source,
        target,
        #[trigger] effects[i],
    ) && consequence_within(consequences_of(side, source, target, effects)[i]) by {
        assert(effect_within(source.moves@[move_index as int].semantics.effects@[i]));
    }
    lemma_consequences_within(v, side, chosen.name@, consequences_of(side, source, target, effects));
}

proof fn lemma_act_within(v: BattleView, side: usize, action: Action, events: Seq<EventView>)
    requires
        v.wf(),
        side < 2,
        pets_within_limits(v),
        action_playable(v.team(side as int), action),
    ensures
        act(v, side, action, events).2,
{
    if v.winner is None && !v.active(side as int).fainted() {
        if let Action::UseMove { move_index } = action {
            assert(v.team(side as int).pets[v.team(side as int).active as int] == v.active(
                side as int,
            ));
            lemma_move_within(v, side, move_index);
        }
    }
}

/// A turn within the limits is always defined: no hit points, damage or
/// turn counter leave their integer range and no move index is out of
/// range, whatever the two actions and their order.
pub proof fn law_bounded_turn_is_defined(v: BattleView, left: Action, right: Action)
    requires
        v.wf(),
        turn_within_limits(v, left, right),
    ensures
        turn_model(v, left, right).defined,
{
    if v.winner is None {
        let v1 = BattleView { turn: (v.turn + 1) as u32, ..v };
        if validation_error(v1, 0, left) is None && validation_error(v1, 1, right) is None {
            let first: usize = if left_goes_first(v1, left, right) {
                0
            } else {
                1
            };
            let (fa, sa) = if first == 0 {
                (left, right)
            } else {
                (right, left)
            };
            assert(action_playable(v1.team(0), left));
            assert(action_playable(v1.team(1), right));
            let start = seq![EventView::TurnStarted { turn: v1.turn }];
            lemma_act_within(v1, first, fa, start);
            let a = act(v1, first, fa, start);
            lemma_act_kept(v1, first, fa, start);
            lemma_kept_limits(v1, a.0);
            lemma_kept_playable(v1, a.0, (1 - first) as int, sa);
            lemma_act_within(a.0, (1 - first) as usize, sa, a.1);
        }
    }
}


/// A hit lowers the target's active pet to its hit points minus the damage,
/// but not below zero, and reports exactly the hit points it is left with.
pub proof fn law_damage_report_matches_hit_points(
    v: BattleView,
    side: usize,
    move_name: Seq<char>,
    target_side: usize,
    amount: i32,
)
    requires
        v.wf(),
        target_side < 2,
        consequence_fits(v, ConsequenceView::Damage { target_side, amount }),
    ensures
        ({
            let w = apply_consequence(v, side, move_name, ConsequenceView::Damage { target_side, amount });
            let before = v.active(target_side as int).current_hp;
            let after = w.0.active(target_side as int).current_hp;
            &&& after == if before - amount > 0 {
                before - amount
            } else {
                0
            }
            &&& w.1.len() >= 1
            &&& w.1[0] == (EventView::DamageDealt {
                source_side: side,
                target_side,
                amount,
                remaining_hp: after,
            })
            &&& w.0.team(target_side as int).active == v.team(target_side as int).active
            &&& w.0.team(target_side as int).pets.len() == v.team(target_side as int).pets.len()
        }),
{
    let t = target_side as int;
    let w = apply_consequence(v, side, move_name, ConsequenceView::Damage { target_side, amount });
    assert(w.0.sides[t].team.pets[v.sides[t].team.active as int].current_hp == w.0.active(t).current_hp);
}

} // verus!
