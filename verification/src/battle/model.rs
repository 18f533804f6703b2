//! The meaning of a battle turn, stated over views of the battle state: what
//! each step does to the state, which events it reports, and when it is
//! defined (no index out of range, no `i32` overflow).
use vstd::prelude::*;

use crate::battle::action::Action;
use crate::battle::error::BattleErrorView;
use crate::battle::event::EventView;
use crate::battle::rules::{
    consequences_of, effects_fit, left_first, priority_of, ConsequenceView,
};
use crate::battle::state::{BattlePet, SideView, TeamView};
use crate::text::decimal;

verus! {

/// A battle as its two sides, the turn counter and the winner, if any.
#[verifier::ext_equal]
pub struct BattleView {
    pub sides: Seq<SideView>,
    pub turn: u32,
    pub winner: Option<usize>,
}

impl BattleView {
    /// Two sides, each with its active index pointing at one of its pets.
    pub open spec fn wf(self) -> bool {
        &&& self.sides.len() == 2
        &&& self.sides[0].team.wf()
        &&& self.sides[1].team.wf()
        &&& self.sides[0].team.pets.len() <= usize::MAX
        &&& self.sides[1].team.pets.len() <= usize::MAX
    }

    pub open spec fn team(self, side: int) -> TeamView {
        self.sides[side].team
    }

    pub open spec fn active(self, side: int) -> BattlePet {
        self.sides[side].team.active_pet()
    }

    /// The same battle with the team of `side` replaced.
    pub open spec fn with_team(self, side: int, team: TeamView) -> BattleView {
        BattleView { sides: self.sides.update(side, SideView { team, ..self.sides[side] }), ..self }
    }
}

/// What one consequence does to the battle, and the events it reports.
pub open spec fn apply_consequence(
    v: BattleView,
    side: usize,
    move_name: Seq<char>,
    c: ConsequenceView,
) -> (BattleView, Seq<EventView>) {
    match c {
        ConsequenceView::Damage { target_side, amount } => {
            let team = v.team(target_side as int);
            let pet = team.active_pet();
            let left = pet.current_hp - amount;
            let hp: i32 = if left > 0 {
                left as i32
            } else {
                0
            };
            let dealt = EventView::DamageDealt {
                source_side: side,
                target_side,
                amount,
                remaining_hp: hp,
            };
            let after = v.with_team(target_side as int, team.with_active_hp(hp));
            if hp <= 0 {
                (after, seq![dealt, EventView::Fainted { side: target_side, pet_name: pet.name@ }])
            } else {
                (after, seq![dealt])
            }
        },
        ConsequenceView::NoEffect { reason } => (
            v,
            seq![EventView::MoveHadNoEffect { side, move_name, reason }],
        ),
    }
}

/// A consequence can be applied: it names a side and the hit points stay
/// within `i32`.
pub open spec fn consequence_fits(v: BattleView, c: ConsequenceView) -> bool {
    match c {
        ConsequenceView::Damage { target_side, amount } => target_side < 2 && i32::MIN <= v.active(
            target_side as int,
        ).current_hp - amount <= i32::MAX,
        ConsequenceView::NoEffect { .. } => true,
    }
}

/// Consequences applied one after the other: the battle after them, their
/// events, and whether each could be applied.
pub open spec fn apply_consequences(
    v: BattleView,
    side: usize,
    move_name: Seq<char>,
    cs: Seq<ConsequenceView>,
) -> (BattleView, Seq<EventView>, bool)
    decreases cs.len(),
{
    if cs.len() == 0 {
        (v, Seq::empty(), true)
    } else {
        let prev = apply_consequences(v, side, move_name, cs.drop_last());
        let step = apply_consequence(prev.0, side, move_name, cs.last());
        (step.0, prev.1 + step.1, prev.2 && consequence_fits(prev.0, cs.last()))
    }
}

/// Consequences that can all be applied can be applied up to any point.
pub proof fn lemma_consequences_prefix(
    v: BattleView,
    side: usize,
    move_name: Seq<char>,
    cs: Seq<ConsequenceView>,
    i: int,
)
    requires
        0 <= i <= cs.len(),
        apply_consequences(v, side, move_name, cs).2,
    ensures
        apply_consequences(v, side, move_name, cs.take(i)).2,
    decreases cs.len(),
{
    if i < cs.len() {
        lemma_consequences_prefix(v, side, move_name, cs.drop_last(), i);
        assert(cs.drop_last().take(i) =~= cs.take(i));
    } else {
        assert(cs.take(i) =~= cs);
    }
}

/// Side `side` uses move `move_index` of its active pet on the other side.
pub open spec fn apply_move(v: BattleView, side: usize, move_index: usize) -> (
    BattleView,
    Seq<EventView>,
    bool,
) {
    let source = v.active(side as int);
    let target = v.active(1 - side);
    let chosen = source.moves@[move_index as int];
    let effects = chosen.semantics.effects@;
    let cs = consequences_of(side, source, target, effects);
    let r = apply_consequences(v, side, chosen.name@, cs);
    (
        r.0,
        seq![EventView::MoveUsed { side, pet_name: source.name@, move_name: chosen.name@ }] + r.1,
        move_index < source.moves@.len() && effects_fit(source, target, effects) && r.2,
    )
}

/// The reason reported when a side passes.
pub open spec fn pass_reason() -> Seq<char> {
    "side chose to pass"@
}

/// The reason reported when a side's active pet cannot act.
pub open spec fn fainted_reason() -> Seq<char> {
    "active pet has fainted"@
}

/// What side `side` taking `action` does to the battle.
pub open spec fn apply_action(v: BattleView, side: usize, action: Action) -> (
    BattleView,
    Seq<EventView>,
    bool,
) {
    match action {
        Action::UseMove { move_index } => apply_move(v, side, move_index),
        Action::Switch { target_index } => {
            let team = v.team(side as int);
            (
                v.with_team(side as int, team.with_active(target_index)),
                seq![
                    EventView::Switched {
                        side,
                        pet_name: team.pets[target_index as int].name@,
                    },
                ],
                target_index < team.pets.len(),
            )
        },
        Action::Pass => (v, seq![EventView::TurnSkipped { side, reason: pass_reason() }], true),
    }
}

/// A fainted active pet of `side` is replaced by the first pet that can
/// still fight, if there is one.
pub open spec fn auto_switch_side(v: BattleView, side: usize) -> (BattleView, Seq<EventView>) {
    let team = v.team(side as int);
    if !team.active_pet().fainted() {
        (v, Seq::empty())
    } else {
        match team.first_bench() {
            Some(next) => (
                v.with_team(side as int, team.with_active(next)),
                seq![EventView::AutoSwitched { side, pet_name: team.pets[next as int].name@ }],
            ),
            None => (v, Seq::empty()),
        }
    }
}

/// Both sides replace a fainted active pet, the left side first.
pub open spec fn auto_switch(v: BattleView) -> (BattleView, Seq<EventView>) {
    let left = auto_switch_side(v, 0);
    let right = auto_switch_side(left.0, 1);
    (right.0, left.1 + right.1)
}

/// The events already report the end of the battle.
pub open spec fn has_ended(events: Seq<EventView>) -> bool {
    exists|i: int| 0 <= i < events.len() && (#[trigger] events[i]) is BattleEnded
}

/// The winner: the only side that still has a pet that can fight.
pub open spec fn winner_of(v: BattleView) -> Option<usize> {
    let left = v.team(0).has_available();
    let right = v.team(1).has_available();
    if left && !right {
        Some(0)
    } else if !left && right {
        Some(1)
    } else {
        None
    }
}

/// The winner is recomputed, and the end of the battle reported once.
pub open spec fn refresh_winner(v: BattleView, events: Seq<EventView>) -> (BattleView, Seq<EventView>) {
    let w = winner_of(v);
    let after = BattleView { winner: w, ..v };
    match w {
        Some(x) => if has_ended(events) {
            (after, events)
        } else {
            (after, events.push(EventView::BattleEnded { winner: x }))
        },
        None => (after, events),
    }
}

/// One side's turn within a resolved turn, given the events so far: nothing
/// once the battle has a winner, a skip when the active pet has fainted, and
/// otherwise the action, replacement of fainted pets and the winner check.
pub open spec fn act(v: BattleView, side: usize, action: Action, events: Seq<EventView>) -> (
    BattleView,
    Seq<EventView>,
    bool,
) {
    if v.winner is Some {
        (v, events, true)
    } else if v.active(side as int).fainted() {
        (v, events.push(EventView::TurnSkipped { side, reason: fainted_reason() }), true)
    } else {
        let a = apply_action(v, side, action);
        let s = auto_switch(a.0);
        let w = refresh_winner(s.0, events + a.1 + s.1);
        (w.0, w.1, a.2)
    }
}

/// The prefix of every refusal of an action.
pub open spec fn side_prefix(side: usize) -> Seq<char> {
    "side "@ + decimal(side as nat)
}

/// Why side `side` may not take `action`, if it may not.
pub open spec fn validation_error(v: BattleView, side: usize, action: Action) -> Option<
    BattleErrorView,
> {
    let team = v.team(side as int);
    let active = team.active_pet();
    match action {
        Action::UseMove { move_index } => if active.fainted() {
            Some(
                BattleErrorView::InvalidAction(
                    side_prefix(side) + " cannot act with a fainted pet"@,
                ),
            )
        } else if move_index >= active.moves@.len() {
            Some(
                BattleErrorView::InvalidAction(
                    side_prefix(side) + " selected invalid move index "@ + decimal(
                        move_index as nat,
                    ),
                ),
            )
        } else {
            None
        },
        Action::Switch { target_index } => if target_index >= team.pets.len() {
            Some(
                BattleErrorView::InvalidAction(
                    side_prefix(side) + " selected invalid switch target "@ + decimal(
                        target_index as nat,
                    ),
                ),
            )
        } else if target_index == team.active {
            Some(
                BattleErrorView::InvalidAction(
                    side_prefix(side) + " cannot switch to the active pet"@,
                ),
            )
        } else if team.pets[target_index as int].fainted() {
            Some(
                BattleErrorView::InvalidAction(
                    side_prefix(side) + " cannot switch to a fainted pet"@,
                ),
            )
        } else {
            None
        },
        Action::Pass => None,
    }
}

/// The outcome of a turn: the battle afterwards, what the turn returns, and
/// whether the turn is defined on this input.
pub struct TurnModel {
    pub state: BattleView,
    pub result: Result<(Seq<EventView>, Option<usize>), BattleErrorView>,
    pub defined: bool,
}

/// Whether the left side's action goes first in the battle `v`.
pub open spec fn left_goes_first(v: BattleView, left: Action, right: Action) -> bool {
    left_first(
        priority_of(v.active(0), left),
        v.active(0).stats.speed,
        priority_of(v.active(1), right),
        v.active(1).stats.speed,
    )
}

/// One turn of the battle `v` with the left side taking `left` and the right
/// side taking `right`.
///
/// A finished battle refuses the turn and stays as it is. Otherwise the turn
/// counter goes up, both actions are checked (left first), and they are
/// played in order: higher priority first, then the faster active pet, then
/// the left side.
pub open spec fn turn_model(v: BattleView, left: Action, right: Action) -> TurnModel {
    if v.winner is Some {
        TurnModel { state: v, result: Err(BattleErrorView::BattleAlreadyFinished), defined: true }
    } else {
        let v1 = BattleView { turn: (v.turn + 1) as u32, ..v };
        let fits = v.turn < u32::MAX;
        match validation_error(v1, 0, left) {
            Some(e) => TurnModel { state: v1, result: Err(e), defined: fits },
            None => match validation_error(v1, 1, right) {
                Some(e) => TurnModel { state: v1, result: Err(e), defined: fits },
                None => {
                    let first: usize = if left_goes_first(v1, left, right) {
                        0
                    } else {
                        1
                    };
                    let (first_action, second_action) = if first == 0 {
                        (left, right)
                    } else {
                        (right, left)
                    };
                    let start = seq![EventView::TurnStarted { turn: v1.turn }];
                    let a = act(v1, first, first_action, start);
                    let b = act(a.0, (1 - first) as usize, second_action, a.1);
                    TurnModel { state: b.0, result: Ok((b.1, b.0.winner)), defined: fits && a.2 && b.2 }
                },
            },
        }
    }
}

} // verus!
