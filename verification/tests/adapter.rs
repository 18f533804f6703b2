use crystalline::adapter::mapper::{map_species_to_battle_pet, map_stats};
use crystalline::adapter::move_semantics::{map_move, map_move_semantics};
use crystalline::adapter::roster::{default_battle_moves, select_moves};
use crystalline::adapter::{AdapterError, BattleRosterBuilder};
use crystalline::battle::{BattleEffect, BattleError, BattleStats, BattleTarget};
use crystalline::bestiary::model::{Move, MoveEffect, PetSpecies, Stats};

fn flare_move(id: &str, effect: MoveEffect) -> Move {
    Move {
        id: id.to_string(),
        name: id.to_string(),
        element: "Fire".to_string(),
        category: "Special".to_string(),
        priority: 0,
        energy_cost: 0,
        description: String::new(),
        effect,
    }
}

fn species() -> PetSpecies {
    PetSpecies {
        pokemon_id: 1,
        species_id: "pokemon-1-flare".to_string(),
        name: "Flare".to_string(),
        element: "Fire".to_string(),
        evo_stage: "Base".to_string(),
        ability: "Warm Up".to_string(),
        spirit_no: None,
        icon_path: None,
        stats: Stats { max_hp: 30, attack: 8, defense: 4, speed: 10, special_attack: 7, special_defense: 5 },
        learnset: vec![
            Move {
                id: "status".to_string(),
                name: "Status".to_string(),
                element: "Fire".to_string(),
                category: "Status".to_string(),
                priority: 0,
                energy_cost: 0,
                description: String::new(),
                effect: MoveEffect::Status,
            },
            Move {
                id: "damage".to_string(),
                name: "Damage".to_string(),
                element: "Fire".to_string(),
                category: "Special".to_string(),
                priority: 0,
                energy_cost: 0,
                description: String::new(),
                effect: MoveEffect::Damage { power: 20 },
            },
        ],
        evolutions: Vec::new(),
    }
}

#[test]
fn battle_adapter_defaults_to_damaging_moves_first() {
    let builder = BattleRosterBuilder;
    let pet = builder.build_pet_with_defaults(&species()).unwrap();

    assert_eq!(pet.moves.len(), 1);
    assert_eq!(pet.moves[0].id, "damage");
}

#[test]
fn battle_adapter_validates_selected_moves() {
    let builder = BattleRosterBuilder;
    let error = builder.build_pet(&species(), &[String::from("missing")]).unwrap_err();

    assert!(matches!(error, AdapterError::MissingMove(_)));
}

#[test]
fn roster_defaults_to_damaging_moves_first() {
    let builder = BattleRosterBuilder;
    let pet = builder.build_pet_with_defaults(&species()).unwrap();

    assert_eq!(pet.moves.len(), 1);
    assert_eq!(pet.moves[0].id, "damage");
    assert_eq!(
        pet.moves[0].semantics.effects,
        vec![BattleEffect::DealDamage { power: 20, target: BattleTarget::OpponentActive }]
    );
}

#[test]
fn roster_validates_selected_moves() {
    let builder = BattleRosterBuilder;
    let error = builder.build_pet(&species(), &[String::from("missing")]).unwrap_err();

    assert!(matches!(error, AdapterError::MissingMove(_)));
}

#[test]
fn built_pet_takes_the_species_data() {
    let pet = BattleRosterBuilder.build_pet_with_defaults(&species()).unwrap();
    assert_eq!(pet.id, "pokemon-1-flare");
    assert_eq!(pet.species_id, "pokemon-1-flare");
    assert_eq!(pet.name, "Flare");
    assert_eq!(pet.element, "Fire");
    assert_eq!(pet.current_hp, 30);
    assert_eq!(pet.stats.speed, 10);
}

#[test]
fn selected_moves_come_in_the_order_asked() {
    let ids = vec!["damage".to_string(), "status".to_string()];
    let pet = BattleRosterBuilder.build_pet(&species(), &ids).unwrap();
    assert_eq!(pet.moves.len(), 2);
    assert_eq!(pet.moves[0].id, "damage");
    assert_eq!(pet.moves[1].id, "status");
    assert_eq!(pet.moves[1].semantics.effects, vec![BattleEffect::StatusPlaceholder]);

    let error = BattleRosterBuilder.build_pet(&species(), &ids.iter().cycle().take(5).cloned().collect::<Vec<_>>())
        .unwrap_err();
    assert_eq!(error, AdapterError::InvalidSelection("pet must have between 1 and 4 moves, got 5".to_string()));

    let error = select_moves(&species().learnset, &["status".to_string(), "nope".to_string()]).unwrap_err();
    assert_eq!(error, AdapterError::MissingMove("nope".to_string()));
    assert_eq!(error.message(), "missing move definition for nope");
}

#[test]
fn default_moves_take_at_most_four() {
    let learnset: Vec<Move> = (0..6).map(|i| flare_move(&format!("m{i}"), MoveEffect::Damage { power: i })).collect();
    let moves = default_battle_moves(&learnset);
    assert_eq!(moves.iter().map(|m| m.id.as_str()).collect::<Vec<_>>(), vec!["m0", "m1", "m2", "m3"]);

    let statuses: Vec<Move> = (0..5).map(|i| flare_move(&format!("s{i}"), MoveEffect::Status)).collect();
    let moves = default_battle_moves(&statuses);
    assert_eq!(moves.len(), 4);
    assert_eq!(moves[0].id, "s0");

    let mixed = vec![
        flare_move("a", MoveEffect::Status),
        flare_move("b", MoveEffect::Damage { power: 1 }),
        flare_move("c", MoveEffect::Status),
        flare_move("d", MoveEffect::Damage { power: 2 }),
    ];
    let moves = default_battle_moves(&mixed);
    assert_eq!(moves.iter().map(|m| m.id.as_str()).collect::<Vec<_>>(), vec!["b", "d"]);
}

#[test]
fn species_without_moves_is_refused() {
    let mut bare = species();
    bare.learnset.clear();
    let error = BattleRosterBuilder.build_pet_with_defaults(&bare).unwrap_err();
    assert_eq!(error, AdapterError::InvalidSelection("pokemon Flare does not have any usable moves".to_string()));
    assert_eq!(error.message(), "pokemon Flare does not have any usable moves");

    let error = map_species_to_battle_pet(&bare, Vec::new()).unwrap_err();
    assert_eq!(
        error,
        AdapterError::Battle(BattleError::InvalidBattlePet("pet must have between 1 and 4 moves, got 0".to_string()))
    );
}

#[test]
fn mapping_keeps_stats_and_moves() {
    let stats = Stats { max_hp: 1, attack: 2, defense: 3, speed: 4, special_attack: 5, special_defense: 6 };
    assert_eq!(
        map_stats(&stats),
        BattleStats { max_hp: 1, attack: 2, defense: 3, speed: 4, special_attack: 5, special_defense: 6 }
    );

    let mut quick = flare_move("quick", MoveEffect::Damage { power: 9 });
    quick.priority = 2;
    quick.name = "Quick".to_string();
    let battle_move = map_move(quick);
    assert_eq!(battle_move.id, "quick");
    assert_eq!(battle_move.name, "Quick");
    assert_eq!(battle_move.priority, 2);
    assert_eq!(
        battle_move.semantics.effects,
        vec![BattleEffect::DealDamage { power: 9, target: BattleTarget::OpponentActive }]
    );
    assert_eq!(map_move_semantics(MoveEffect::Status).effects, vec![BattleEffect::StatusPlaceholder]);
}
