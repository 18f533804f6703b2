use crystalline::battle::rules::{action_priority, calculate_damage, resolve_effect, resolve_move, MoveConsequence};
use crystalline::battle::{
    Action, BattleEffect, BattleError, BattleMove, BattleMoveSemantics, BattlePet, BattleState,
    BattleStats, BattleTarget, Side, Team, TurnEvent,
};

fn strike() -> BattleMove {
    BattleMove {
        id: "strike".to_string(),
        name: "Strike".to_string(),
        priority: 0,
        semantics: BattleMoveSemantics {
            effects: vec![BattleEffect::DealDamage { power: 10, target: BattleTarget::OpponentActive }],
        },
    }
}

fn quick_strike() -> BattleMove {
    BattleMove {
        id: "quick_strike".to_string(),
        name: "Quick Strike".to_string(),
        priority: 1,
        semantics: BattleMoveSemantics {
            effects: vec![BattleEffect::DealDamage { power: 6, target: BattleTarget::OpponentActive }],
        },
    }
}

fn stats(speed: i32) -> BattleStats {
    BattleStats { max_hp: 30, attack: 8, defense: 4, speed, special_attack: 7, special_defense: 5 }
}

fn pet(name: &str, speed: i32) -> BattlePet {
    BattlePet::new(
        name.to_lowercase(),
        name.to_lowercase(),
        name.to_string(),
        "Neutral".to_string(),
        stats(speed),
        vec![strike(), quick_strike()],
    )
    .expect("battle test pet should be valid")
}

fn side(name: &str, pets: Vec<BattlePet>) -> Side {
    Side::new(name.to_string(), Team::new(pets).unwrap())
}

#[test]
fn mod_higher_priority_moves_first() {
    let left = side("left", vec![pet("Alpha", 5)]);
    let right = side("right", vec![pet("Beta", 99)]);
    let mut battle = BattleState::new(left, right);

    let outcome = battle
        .resolve_turn([Action::UseMove { move_index: 1 }, Action::UseMove { move_index: 0 }])
        .unwrap();

    assert!(matches!(outcome.events[1], TurnEvent::MoveUsed { side: 0, .. }));
}

#[test]
fn mod_speed_breaks_priority_ties() {
    let left = side("left", vec![pet("Alpha", 50)]);
    let right = side("right", vec![pet("Beta", 10)]);
    let mut battle = BattleState::new(left, right);

    let outcome = battle
        .resolve_turn([Action::UseMove { move_index: 0 }, Action::UseMove { move_index: 0 }])
        .unwrap();

    assert!(matches!(outcome.events[1], TurnEvent::MoveUsed { side: 0, .. }));
}

#[test]
fn mod_fainted_pet_is_auto_replaced() {
    let left = side("left", vec![pet("Alpha", 30), pet("Gamma", 20)]);
    let mut fragile = pet("Beta", 10);
    fragile.current_hp = 5;
    let right = side("right", vec![fragile]);
    let mut battle = BattleState::new(left, right);

    let outcome = battle
        .resolve_turn([Action::UseMove { move_index: 0 }, Action::UseMove { move_index: 0 }])
        .unwrap();

    assert!(outcome.events.iter().any(|event| matches!(event, TurnEvent::BattleEnded { winner: 0 })));
    assert_eq!(outcome.events.iter().filter(|event| matches!(event, TurnEvent::BattleEnded { .. })).count(), 1);
    assert_eq!(outcome.events.last(), Some(&TurnEvent::BattleEnded { winner: 0 }));
}

#[test]
fn status_placeholder_produces_event() {
    let mut alpha = pet("Alpha", 20);
    alpha.moves = vec![BattleMove {
        id: "focus".to_string(),
        name: "Focus".to_string(),
        priority: 0,
        semantics: BattleMoveSemantics { effects: vec![BattleEffect::StatusPlaceholder] },
    }];
    let beta = pet("Beta", 10);
    let left = side("left", vec![alpha]);
    let right = side("right", vec![beta]);
    let mut battle = BattleState::new(left, right);

    let outcome = battle.resolve_turn([Action::UseMove { move_index: 0 }, Action::Pass]).unwrap();

    assert!(outcome
        .events
        .iter()
        .any(|event| matches!(event, TurnEvent::MoveHadNoEffect { side: 0, .. })));
}

// The pets of these scenarios know a strike of power 10 and a quick strike
// of power 6, at priorities 0 and 1.

#[test]
fn battle_higher_priority_moves_first() {
    let left = side("left", vec![pet("Alpha", 5)]);
    let right = side("right", vec![pet("Beta", 99)]);
    let mut battle = BattleState::new(left, right);

    let outcome = battle
        .resolve_turn([Action::UseMove { move_index: 1 }, Action::UseMove { move_index: 0 }])
        .unwrap();

    assert!(matches!(outcome.events[1], TurnEvent::MoveUsed { side: 0, .. }));
}

#[test]
fn battle_speed_breaks_priority_ties() {
    let left = side("left", vec![pet("Alpha", 50)]);
    let right = side("right", vec![pet("Beta", 10)]);
    let mut battle = BattleState::new(left, right);

    let outcome = battle
        .resolve_turn([Action::UseMove { move_index: 0 }, Action::UseMove { move_index: 0 }])
        .unwrap();

    assert!(matches!(outcome.events[1], TurnEvent::MoveUsed { side: 0, .. }));
}

#[test]
fn battle_fainted_pet_is_auto_replaced() {
    let left = side("left", vec![pet("Alpha", 30), pet("Gamma", 20)]);
    let mut fragile = pet("Beta", 10);
    fragile.current_hp = 5;
    let right = side("right", vec![fragile]);
    let mut battle = BattleState::new(left, right);

    let outcome = battle
        .resolve_turn([Action::UseMove { move_index: 0 }, Action::UseMove { move_index: 0 }])
        .unwrap();

    assert!(outcome.events.iter().any(|event| matches!(event, TurnEvent::BattleEnded { winner: 0 })));
}

#[test]
fn full_turn_event_sequence() {
    let left = side("left", vec![pet("Alpha", 50)]);
    let right = side("right", vec![pet("Beta", 10)]);
    let mut battle = BattleState::new(left, right);

    let outcome = battle
        .resolve_turn([Action::UseMove { move_index: 0 }, Action::UseMove { move_index: 0 }])
        .unwrap();

    let expected = vec![
        TurnEvent::TurnStarted { turn: 1 },
        TurnEvent::MoveUsed { side: 0, pet_name: "Alpha".to_string(), move_name: "Strike".to_string() },
        TurnEvent::DamageDealt { source_side: 0, target_side: 1, amount: 14, remaining_hp: 16 },
        TurnEvent::MoveUsed { side: 1, pet_name: "Beta".to_string(), move_name: "Strike".to_string() },
        TurnEvent::DamageDealt { source_side: 1, target_side: 0, amount: 14, remaining_hp: 16 },
    ];
    assert_eq!(outcome.events, expected);
    assert_eq!(outcome.winner, None);
    assert_eq!(battle.turn, 1);
    assert_eq!(battle.sides[0].team.pets[0].current_hp, 16);
    assert_eq!(battle.sides[1].team.pets[0].current_hp, 16);
}

#[test]
fn fainted_active_pet_is_replaced_from_the_bench() {
    let mut fragile = pet("Beta", 10);
    fragile.current_hp = 5;
    let left = side("left", vec![pet("Alpha", 50)]);
    let right = side("right", vec![fragile, pet("Delta", 1)]);
    let mut battle = BattleState::new(left, right);

    let outcome = battle.resolve_turn([Action::UseMove { move_index: 0 }, Action::Pass]).unwrap();

    assert!(outcome.events.contains(&TurnEvent::Fainted { side: 1, pet_name: "Beta".to_string() }));
    assert!(outcome.events.contains(&TurnEvent::AutoSwitched { side: 1, pet_name: "Delta".to_string() }));
    assert_eq!(battle.sides[1].team.active, 1);
    assert_eq!(battle.winner, None);
}

#[test]
fn switching_goes_before_moves() {
    let left = side("left", vec![pet("Alpha", 1), pet("Gamma", 1)]);
    let right = side("right", vec![pet("Beta", 99)]);
    let mut battle = BattleState::new(left, right);

    let outcome = battle
        .resolve_turn([Action::Switch { target_index: 1 }, Action::UseMove { move_index: 1 }])
        .unwrap();

    assert_eq!(outcome.events[1], TurnEvent::Switched { side: 0, pet_name: "Gamma".to_string() });
    assert_eq!(battle.sides[0].team.active, 1);
    assert_eq!(battle.sides[0].team.pets[1].current_hp, 30 - 10);
}

#[test]
fn passing_is_reported() {
    let left = side("left", vec![pet("Alpha", 1)]);
    let right = side("right", vec![pet("Beta", 2)]);
    let mut battle = BattleState::new(left, right);

    let outcome = battle.resolve_turn([Action::Pass, Action::Pass]).unwrap();

    assert_eq!(outcome.events.len(), 3);
    assert!(matches!(outcome.events[1], TurnEvent::TurnSkipped { side: 1, .. }));
    assert!(matches!(outcome.events[2], TurnEvent::TurnSkipped { side: 0, .. }));
}

#[test]
fn finished_battle_refuses_turns() {
    let left = side("left", vec![pet("Alpha", 30)]);
    let mut fragile = pet("Beta", 10);
    fragile.current_hp = 5;
    let right = side("right", vec![fragile]);
    let mut battle = BattleState::new(left, right);
    battle.resolve_turn([Action::UseMove { move_index: 0 }, Action::Pass]).unwrap();
    assert_eq!(battle.winner, Some(0));

    let before = battle.clone();
    let error = battle.resolve_turn([Action::Pass, Action::Pass]).unwrap_err();
    assert_eq!(error, BattleError::BattleAlreadyFinished);
    assert_eq!(error.message(), "battle already finished");
    assert_eq!(battle, before);
}

#[test]
fn invalid_actions_are_refused() {
    let make = || {
        let mut fainted = pet("Gamma", 1);
        fainted.current_hp = 0;
        BattleState::new(side("left", vec![pet("Alpha", 1), fainted]), side("right", vec![pet("Beta", 2)]))
    };

    let mut battle = make();
    let error = battle.resolve_turn([Action::UseMove { move_index: 7 }, Action::Pass]).unwrap_err();
    assert_eq!(error, BattleError::InvalidAction("side 0 selected invalid move index 7".to_string()));

    let mut battle = make();
    let error = battle.resolve_turn([Action::Switch { target_index: 5 }, Action::Pass]).unwrap_err();
    assert_eq!(error, BattleError::InvalidAction("side 0 selected invalid switch target 5".to_string()));

    let mut battle = make();
    let error = battle.resolve_turn([Action::Switch { target_index: 0 }, Action::Pass]).unwrap_err();
    assert_eq!(error, BattleError::InvalidAction("side 0 cannot switch to the active pet".to_string()));

    let mut battle = make();
    let error = battle.resolve_turn([Action::Switch { target_index: 1 }, Action::Pass]).unwrap_err();
    assert_eq!(error, BattleError::InvalidAction("side 0 cannot switch to a fainted pet".to_string()));

    let mut battle = make();
    let error = battle.resolve_turn([Action::Pass, Action::UseMove { move_index: 2 }]).unwrap_err();
    assert_eq!(error, BattleError::InvalidAction("side 1 selected invalid move index 2".to_string()));
}

#[test]
fn pet_and_team_sizes_are_checked() {
    let error = BattlePet::new(
        "x".to_string(),
        "x".to_string(),
        "X".to_string(),
        "Neutral".to_string(),
        stats(1),
        Vec::new(),
    )
    .unwrap_err();
    assert_eq!(error.message(), "pet must have between 1 and 4 moves, got 0");

    let five = vec![strike(), strike(), strike(), strike(), strike()];
    let error = BattlePet::new("x".to_string(), "x".to_string(), "X".to_string(), "N".to_string(), stats(1), five)
        .unwrap_err();
    assert_eq!(error, BattleError::InvalidBattlePet("pet must have between 1 and 4 moves, got 5".to_string()));

    let fresh = pet("Alpha", 3);
    assert_eq!(fresh.current_hp, 30);
    assert!(!fresh.is_fainted());

    let error = Team::new(Vec::new()).unwrap_err();
    assert_eq!(error, BattleError::InvalidTeam("team must have between 1 and 6 pets, got 0".to_string()));
    let seven: Vec<BattlePet> = (0..7).map(|i| pet(&format!("P{i}"), i)).collect();
    let error = Team::new(seven).unwrap_err();
    assert_eq!(error.message(), "team must have between 1 and 6 pets, got 7");
}

#[test]
fn team_queries() {
    let mut first = pet("Alpha", 1);
    first.current_hp = 0;
    let mut team = Team::new(vec![first, pet("Beta", 2), pet("Gamma", 3)]).unwrap();
    assert_eq!(team.active_pet().name, "Alpha");
    assert!(team.has_available_pet());
    assert_eq!(team.first_available_bench(), Some(1));
    team.active_pet_mut().current_hp = 12;
    assert_eq!(team.pets[0].current_hp, 12);
    team.active = 1;
    assert_eq!(team.first_available_bench(), Some(0));

    let mut down = pet("Delta", 1);
    down.current_hp = -3;
    let lone = Team::new(vec![down]).unwrap();
    assert!(!lone.has_available_pet());
    assert_eq!(lone.first_available_bench(), None);
}

#[test]
fn damage_and_priority_rules() {
    let alpha = pet("Alpha", 1);
    let mut tank = pet("Tank", 1);
    tank.stats.defense = 100;
    assert_eq!(calculate_damage(&alpha, &pet("Beta", 1), 10), 14);
    assert_eq!(calculate_damage(&alpha, &tank, 10), 1);

    assert_eq!(action_priority(&alpha, &Action::UseMove { move_index: 1 }), 1);
    assert_eq!(action_priority(&alpha, &Action::Switch { target_index: 0 }), 6);
    assert_eq!(action_priority(&alpha, &Action::Pass), i8::MIN);
}

#[test]
fn moves_resolve_to_consequences() {
    let alpha = pet("Alpha", 1);
    let beta = pet("Beta", 1);
    let consequences = resolve_move(0, &alpha, &beta, &strike().semantics);
    assert_eq!(consequences, vec![MoveConsequence::Damage { target_side: 1, amount: 14 }]);

    let on_self = resolve_effect(
        1,
        &alpha,
        &beta,
        &BattleEffect::DealDamage { power: 2, target: BattleTarget::SelfActive },
    );
    assert_eq!(on_self, MoveConsequence::Damage { target_side: 1, amount: 6 });

    let status = resolve_effect(0, &alpha, &beta, &BattleEffect::StatusPlaceholder);
    assert_eq!(status, MoveConsequence::NoEffect { reason: "status semantics not implemented" });
}

#[test]
fn turns_within_limits_are_recognised() {
    let both_strike = [Action::UseMove { move_index: 0 }, Action::UseMove { move_index: 0 }];
    let battle = BattleState::new(side("left", vec![pet("Alpha", 1)]), side("right", vec![pet("Beta", 2)]));
    assert!(battle.within_limits(both_strike));
    assert!(battle.within_limits([Action::UseMove { move_index: 1 }, Action::Pass]));
    assert!(!battle.within_limits([Action::UseMove { move_index: 2 }, Action::Pass]));

    let mut strong = pet("Strong", 1);
    strong.stats.attack = 0x1000_0001;
    let battle = BattleState::new(side("left", vec![strong]), side("right", vec![pet("Beta", 2)]));
    assert!(!battle.within_limits(both_strike));

    let mut bench = pet("Bench", 1);
    bench.moves.truncate(1);
    let battle = BattleState::new(side("left", vec![pet("Alpha", 1), bench]), side("right", vec![pet("Beta", 2)]));
    assert!(battle.within_limits(both_strike));
    assert!(!battle.within_limits([Action::UseMove { move_index: 1 }, Action::Pass]));

    let mut late = BattleState::new(side("left", vec![pet("Alpha", 1)]), side("right", vec![pet("Beta", 2)]));
    late.turn = u32::MAX;
    assert!(!late.within_limits(both_strike));
}
