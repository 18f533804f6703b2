use crystalline::battle::BattleError;
use crystalline::bestiary::{Move, MoveEffect, Stats};
use crystalline::pets::{bundled_nrc_bundle_dir, pet_files, validate_loaded_pet, Pet};

fn saved_pet(moves: usize, current_hp: i32) -> Pet {
    Pet {
        id: "sparky".to_string(),
        name: "Sparky".to_string(),
        element: "Electric".to_string(),
        stats: Stats { max_hp: 40, attack: 9, defense: 5, speed: 12, special_attack: 8, special_defense: 6 },
        current_hp,
        moves: (0..moves)
            .map(|i| Move {
                id: format!("m{i}"),
                name: format!("Move {i}"),
                element: "Electric".to_string(),
                category: "Special".to_string(),
                priority: 0,
                energy_cost: 0,
                description: String::new(),
                effect: MoveEffect::Damage { power: 5 },
            })
            .collect(),
    }
}

#[test]
fn saved_pet_at_full_health_is_accepted() {
    let pet = saved_pet(2, 40);
    assert_eq!(validate_loaded_pet(pet.clone()), Ok(pet));
}

#[test]
fn saved_pet_must_start_at_full_health() {
    let error = validate_loaded_pet(saved_pet(2, 39)).unwrap_err();
    assert_eq!(
        error,
        BattleError::InvalidBattlePet("pet sparky must start with current_hp equal to max_hp".to_string())
    );
}

#[test]
fn saved_pet_needs_one_to_four_moves() {
    let error = validate_loaded_pet(saved_pet(0, 40)).unwrap_err();
    assert_eq!(error.message(), "pet must have between 1 and 4 moves, got 0");
    let error = validate_loaded_pet(saved_pet(5, 1)).unwrap_err();
    assert_eq!(error.message(), "pet must have between 1 and 4 moves, got 5");
    assert!(validate_loaded_pet(saved_pet(4, 40)).is_ok());
}

#[test]
fn nrc_bundle_lies_beside_the_package() {
    assert_eq!(bundled_nrc_bundle_dir("/ws/crystalline"), "/ws/crystalline/../data/nrc_pokemon_data_bundle");
    assert_eq!(bundled_nrc_bundle_dir("/ws/crystalline/"), "/ws/crystalline/../data/nrc_pokemon_data_bundle");
}

#[test]
fn pet_files_are_json_files_in_order() {
    let listing: Vec<String> = ["pets/b.json", "pets/notes.txt", "pets/a.json", "pets/.json", "pets/c.json.bak", "pets/README"]
        .iter()
        .map(|s| s.to_string())
        .collect();
    assert_eq!(pet_files(&listing), vec!["pets/a.json".to_string(), "pets/b.json".to_string()]);
    assert!(pet_files(&Vec::new()).is_empty());
}
