use vstd::prelude::*;

verus! {

/// One thing that happened during a turn, in the order it happened.
#[derive(Debug, Clone, PartialEq, Eq)]
pub enum TurnEvent {
    TurnStarted { turn: u32 },
    Switched { side: usize, pet_name: String },
    MoveUsed { side: usize, pet_name: String, move_name: String },
    MoveHadNoEffect { side: usize, move_name: String, reason: String },
    DamageDealt { source_side: usize, target_side: usize, amount: i32, remaining_hp: i32 },
    Fainted { side: usize, pet_name: String },
    AutoSwitched { side: usize, pet_name: String },
    TurnSkipped { side: usize, reason: String },
    BattleEnded { winner: usize },
}

/// A `TurnEvent` with its texts taken as character sequences.
pub enum EventView {
    TurnStarted { turn: u32 },
    Switched { side: usize, pet_name: Seq<char> },
    MoveUsed { side: usize, pet_name: Seq<char>, move_name: Seq<char> },
    MoveHadNoEffect { side: usize, move_name: Seq<char>, reason: Seq<char> },
    DamageDealt { source_side: usize, target_side: usize, amount: i32, remaining_hp: i32 },
    Fainted { side: usize, pet_name: Seq<char> },
    AutoSwitched { side: usize, pet_name: Seq<char> },
    TurnSkipped { side: usize, reason: Seq<char> },
    BattleEnded { winner: usize },
}

impl View for TurnEvent {
    type V = EventView;

    open spec fn view(&self) -> EventView {
        match self {
            TurnEvent::TurnStarted { turn } => EventView::TurnStarted { turn: *turn },
            TurnEvent::Switched { side, pet_name } => EventView::Switched {
                side: *side,
                pet_name: pet_name@,
            },
            TurnEvent::MoveUsed { side, pet_name, move_name } => EventView::MoveUsed {
                side: *side,
                pet_name: pet_name@,
                move_name: move_name@,
            },
            TurnEvent::MoveHadNoEffect { side, move_name, reason } => EventView::MoveHadNoEffect {
                side: *side,
                move_name: move_name@,
                reason: reason@,
            },
            TurnEvent::DamageDealt { source_side, target_side, amount, remaining_hp } =>
                EventView::DamageDealt {
                source_side: *source_side,
                target_side: *target_side,
                amount: *amount,
                remaining_hp: *remaining_hp,
            },
            TurnEvent::Fainted { side, pet_name } => EventView::Fainted {
                side: *side,
                pet_name: pet_name@,
            },
            TurnEvent::AutoSwitched { side, pet_name } => EventView::AutoSwitched {
                side: *side,
                pet_name: pet_name@,
            },
            TurnEvent::TurnSkipped { side, reason } => EventView::TurnSkipped {
                side: *side,
                reason: reason@,
            },
            TurnEvent::BattleEnded { winner } => EventView::BattleEnded { winner: *winner },
        }
    }
}

/// The views of a sequence of events.
pub open spec fn events_view(events: Seq<TurnEvent>) -> Seq<EventView> {
    events.map_values(|e: TurnEvent| e@)
}

/// Appending an event appends its view.
pub proof fn lemma_events_view_push(events: Seq<TurnEvent>, e: TurnEvent)
    ensures
        events_view(events.push(e)) == events_view(events).push(e@),
{
    assert(events_view(events.push(e)) =~= events_view(events).push(e@));
}

/// What a resolved turn reports: its events and the winner, if any.
#[derive(Debug, Clone, PartialEq, Eq)]
pub struct TurnOutcome {
    pub events: Vec<TurnEvent>,
    pub winner: Option<usize>,
}

} // verus!
