use crystalline::battle::{Action, TurnEvent};
use crystalline::bestiary::{BestiaryError, Move, MoveEffect, PetCatalog, PetSpecies, Stats};
use crystalline::demo::{AppError, BattleDemoRequest, BattleDemoService};

fn species(id: i64, name: &str, speed: i32, power: i32) -> PetSpecies {
    PetSpecies {
        pokemon_id: id,
        species_id: format!("pokemon-{id}"),
        name: name.to_string(),
        element: "光".to_string(),
        evo_stage: String::new(),
        ability: String::new(),
        spirit_no: None,
        icon_path: None,
        stats: Stats { max_hp: 50, attack: 10, defense: 5, speed, special_attack: 1, special_defense: 1 },
        learnset: vec![Move {
            id: format!("{id}"),
            name: format!("{name} Hit"),
            element: "光".to_string(),
            category: "魔法".to_string(),
            priority: 0,
            energy_cost: 0,
            description: String::new(),
            effect: MoveEffect::Damage { power },
        }],
        evolutions: Vec::new(),
    }
}

fn catalog() -> PetCatalog {
    PetCatalog::new(vec![species(1, "迪莫", 20, 15), species(2, "火花", 30, 5)])
}

#[test]
fn demo_builds_two_single_pet_sides() {
    let service = BattleDemoService::default();
    let battle = service
        .build_battle(&catalog(), &BattleDemoRequest::new("迪莫".to_string(), "火花".to_string()))
        .unwrap();
    assert_eq!(battle.sides[0].name, "Player A");
    assert_eq!(battle.sides[1].name, "Player B");
    assert_eq!(battle.sides[0].team.pets.len(), 1);
    assert_eq!(battle.sides[0].team.pets[0].name, "迪莫");
    assert_eq!(battle.sides[1].team.pets[0].moves[0].name, "火花 Hit");
    assert_eq!(battle.turn, 0);
    assert_eq!(battle.winner, None);
}

#[test]
fn demo_plays_one_turn() {
    let service = BattleDemoService::default();
    let report = service
        .run_turn(
            &catalog(),
            &BattleDemoRequest::new("迪莫".to_string(), "火花".to_string()),
            [Action::UseMove { move_index: 0 }, Action::UseMove { move_index: 0 }],
        )
        .unwrap();
    assert_eq!(report.turn, 1);
    assert_eq!(report.winner, None);
    assert_eq!(report.events[0], TurnEvent::TurnStarted { turn: 1 });
    assert!(matches!(report.events[1], TurnEvent::MoveUsed { side: 1, .. }));
    assert_eq!(
        report.events[2],
        TurnEvent::DamageDealt { source_side: 1, target_side: 0, amount: 10, remaining_hp: 40 }
    );
    assert_eq!(
        report.events[4],
        TurnEvent::DamageDealt { source_side: 0, target_side: 1, amount: 20, remaining_hp: 30 }
    );
}

#[test]
fn demo_reports_missing_species_and_bad_actions() {
    let service = BattleDemoService::default();
    let error = service
        .run_turn(
            &catalog(),
            &BattleDemoRequest::new("迪莫".to_string(), "nobody".to_string()),
            [Action::Pass, Action::Pass],
        )
        .unwrap_err();
    assert_eq!(error, AppError::Bestiary(BestiaryError::MissingSpecies("nobody".to_string())));
    assert_eq!(error.message(), "missing species data for nobody");

    let error = service
        .run_turn(
            &catalog(),
            &BattleDemoRequest::new("迪莫".to_string(), "火花".to_string()),
            [Action::UseMove { move_index: 3 }, Action::Pass],
        )
        .unwrap_err();
    assert_eq!(error.message(), "side 0 selected invalid move index 3");
}
