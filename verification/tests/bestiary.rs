use crystalline::bestiary::nrc::{
    build_icon_index, bundled_bundle_dir, evolutions_for, load_catalog, normalize_spirit_no, resolve_icon_path,
    species_id_for, BundleContents, EvolutionRow, NrcCatalogLoader, SpeciesRow,
};
use crystalline::bestiary::{BestiaryError, Evolution, Move, MoveEffect, PetCatalog, PetSpecies, Stats};

fn catalog() -> PetCatalog {
    let alpha = PetSpecies {
        pokemon_id: 1,
        species_id: "alpha".to_string(),
        name: "Alpha".to_string(),
        element: "Fire".to_string(),
        evo_stage: "Base".to_string(),
        ability: "Warm Up".to_string(),
        spirit_no: None,
        icon_path: None,
        stats: Stats { max_hp: 20, attack: 8, defense: 4, speed: 6, special_attack: 7, special_defense: 5 },
        learnset: vec![Move {
            id: "flare".to_string(),
            name: "Flare".to_string(),
            element: "Fire".to_string(),
            category: "Special".to_string(),
            priority: 0,
            energy_cost: 0,
            description: String::new(),
            effect: MoveEffect::Damage { power: 20 },
        }],
        evolutions: vec![Evolution {
            to_name: "Beta".to_string(),
            evo_level: Some(16),
            condition: None,
            chain_text: None,
        }],
    };
    let beta = PetSpecies {
        pokemon_id: 2,
        species_id: "beta".to_string(),
        name: "Beta".to_string(),
        element: "Water".to_string(),
        evo_stage: "Final".to_string(),
        ability: "Splash".to_string(),
        spirit_no: None,
        icon_path: Some("/tmp/beta.png".to_string()),
        stats: alpha.stats.clone(),
        learnset: alpha.learnset.clone(),
        evolutions: Vec::new(),
    };

    PetCatalog::new(vec![alpha, beta])
}

#[test]
fn queries_species_by_filters() {
    let catalog = catalog();
    let query = catalog.query();

    assert_eq!(query.species_by_element("Fire").unwrap().len(), 1);
    assert_eq!(query.species_by_stage("Final").unwrap().len(), 1);
    assert_eq!(query.evolution_chain_for_species("alpha").unwrap()[0].to_name, "Beta");
    assert_eq!(query.icon_path_for_species("beta").unwrap(), Some("/tmp/beta.png".to_string()));
}

#[test]
fn catalog_lookups() {
    let catalog = catalog();
    assert_eq!(catalog.species().len(), 2);
    assert_eq!(catalog.species_by_id("beta").unwrap().name, "Beta");
    assert!(catalog.species_by_id("gamma").is_none());
    assert_eq!(catalog.species_by_name("Alpha").unwrap().species_id, "alpha");
    assert_eq!(catalog.list_species().unwrap().len(), 2);
    assert_eq!(catalog.get_species("alpha").unwrap().unwrap().pokemon_id, 1);
    assert_eq!(catalog.get_species("none").unwrap(), None);
    assert_eq!(catalog.find_species_by_name("Beta").unwrap().unwrap().pokemon_id, 2);

    let query = catalog.service();
    assert_eq!(query.species_by_name("Beta").unwrap().species_id, "beta");
    assert_eq!(query.legal_moves_for_species("alpha").unwrap()[0].id, "flare");
    assert!(query.species_by_element("Grass").unwrap().is_empty());
    assert_eq!(query.icon_path_for_species("alpha").unwrap(), None);
}

#[test]
fn later_species_win_lookups() {
    let mut first = catalog().species()[0].clone();
    let mut second = first.clone();
    first.pokemon_id = 10;
    second.pokemon_id = 11;
    let catalog = PetCatalog::new(vec![first, second]);
    assert_eq!(catalog.species_by_id("alpha").unwrap().pokemon_id, 11);
    assert_eq!(catalog.species_by_name("Alpha").unwrap().pokemon_id, 11);
}

#[test]
fn missing_species_are_errors() {
    let catalog = catalog();
    let query = catalog.query();
    let error = query.species_by_name("Nobody").unwrap_err();
    assert_eq!(error, BestiaryError::MissingSpecies("Nobody".to_string()));
    assert_eq!(error.message(), "missing species data for Nobody");
    assert!(matches!(query.legal_moves_for_species("nobody"), Err(BestiaryError::MissingSpecies(_))));
    assert!(matches!(query.evolution_chain_for_species("nobody"), Err(BestiaryError::MissingSpecies(_))));
    assert!(matches!(query.icon_path_for_species("nobody"), Err(BestiaryError::MissingSpecies(_))));
    assert_eq!(BestiaryError::Io("disk".to_string()).message(), "disk");
    assert_eq!(BestiaryError::Sqlite("db".to_string()).message(), "db");
    assert_eq!(BestiaryError::InvalidPet("bad".to_string()).message(), "bad");
}

fn dimo_row(move_id: Option<i64>) -> SpeciesRow {
    SpeciesRow {
        pokemon_id: 1,
        name: "迪莫".to_string(),
        element: "光".to_string(),
        evo_stage: "完全体".to_string(),
        ability: "圣光护佑".to_string(),
        base_hp: 120,
        base_atk: 95,
        base_spatk: 110,
        base_def: 85,
        base_spdef: 90,
        base_speed: 100,
        spirit_no: Some("No.439".to_string()),
        move_id,
        move_name: Some("聚能光照".to_string()),
        move_element: Some("光".to_string()),
        move_category: Some("魔法".to_string()),
        move_energy_cost: Some(15),
        move_power: Some(90),
        move_description: Some("用光能打击对手。".to_string()),
    }
}

fn dimo_contents() -> BundleContents {
    BundleContents {
        species_rows: vec![dimo_row(Some(10)), dimo_row(Some(10))],
        evolution_rows: vec![EvolutionRow {
            from_name: "迪莫".to_string(),
            to_name: "圣光迪莫".to_string(),
            evo_level: Some(100),
            condition: Some("觉醒".to_string()),
            chain_text: Some("迪莫 -> 圣光迪莫".to_string()),
        }],
        icons_dir: Some("/bundle/icons".to_string()),
        icon_file_names: vec![
            "NO439_other.png".to_string(),
            "NO439_迪莫.png".to_string(),
            "NO439_note.txt".to_string(),
        ],
    }
}

#[test]
fn loads_species_from_rows() {
    let catalog = load_catalog(&dimo_contents());
    let species = catalog.species();
    assert_eq!(species.len(), 1);

    let dimo = &species[0];
    assert_eq!(dimo.species_id, "pokemon-1-迪莫");
    assert_eq!(dimo.name, "迪莫");
    assert_eq!(dimo.element, "光");
    assert_eq!(dimo.stats.max_hp, 120);
    assert_eq!(dimo.stats.special_attack, 110);
    assert_eq!(dimo.learnset.len(), 1);
    assert_eq!(dimo.learnset[0].name, "聚能光照");
    assert_eq!(dimo.learnset[0].id, "10");
    assert_eq!(dimo.learnset[0].effect, MoveEffect::Damage { power: 90 });
    assert_eq!(dimo.evolutions.len(), 1);
    assert_eq!(dimo.evolutions[0].to_name, "圣光迪莫");
    assert_eq!(dimo.icon_path, Some("/bundle/icons/NO439_迪莫.png".to_string()));
}

#[test]
fn rows_without_moves_and_defaults() {
    let mut bare = dimo_row(None);
    bare.pokemon_id = 7;
    bare.name = "Zed Zero".to_string();
    bare.spirit_no = None;
    let mut weak = dimo_row(Some(3));
    weak.pokemon_id = 2;
    weak.move_power = None;
    weak.move_element = None;
    weak.move_category = None;
    let contents = BundleContents {
        species_rows: vec![bare, weak],
        evolution_rows: Vec::new(),
        icons_dir: None,
        icon_file_names: vec!["NO439_迪莫.png".to_string()],
    };
    let catalog = NrcCatalogLoader::load_from_rows(&contents);
    let species = catalog.species();
    assert_eq!(species.len(), 2);
    assert_eq!(species[0].pokemon_id, 2);
    assert_eq!(species[0].learnset[0].effect, MoveEffect::Status);
    assert_eq!(species[0].learnset[0].element, "普通");
    assert_eq!(species[0].learnset[0].category, "状态");
    assert_eq!(species[0].icon_path, None);
    assert_eq!(species[1].pokemon_id, 7);
    assert_eq!(species[1].species_id, "pokemon-7-zedzero");
    assert!(species[1].learnset.is_empty());
}

#[test]
fn spirit_numbers_and_species_ids() {
    assert_eq!(normalize_spirit_no("No.439"), Some("NO439".to_string()));
    assert_eq!(normalize_spirit_no("7"), Some("NO007".to_string()));
    assert_eq!(normalize_spirit_no("No.1234"), Some("NO1234".to_string()));
    assert_eq!(normalize_spirit_no("none"), None);
    assert_eq!(species_id_for(1, "迪莫"), "pokemon-1-迪莫");
    assert_eq!(species_id_for(-3, "Big Fire Cat"), "pokemon--3-bigfirecat");
}

#[test]
fn icons_are_grouped_and_resolved() {
    let names = vec![
        "NO439_迪莫.png".to_string(),
        "NO439_alt.png".to_string(),
        "NO007_x.png".to_string(),
        "plain.png".to_string(),
        "NO008_y.jpg".to_string(),
        "_hidden".to_string(),
    ];
    let index = build_icon_index(Some("icons"), &names);
    assert_eq!(index.dir, "icons");
    assert_eq!(index.groups.len(), 2);
    let group = index.groups.iter().find(|g| g.prefix == "NO439").unwrap();
    assert_eq!(group.file_names, vec!["NO439_alt.png".to_string(), "NO439_迪莫.png".to_string()]);

    let spirit = Some("No.439".to_string());
    assert_eq!(resolve_icon_path(&index, &spirit, "迪莫"), Some("icons/NO439_迪莫.png".to_string()));
    assert_eq!(resolve_icon_path(&index, &spirit, "其他"), Some("icons/NO439_alt.png".to_string()));
    assert_eq!(resolve_icon_path(&index, &Some("No.9".to_string()), "x"), None);
    assert_eq!(resolve_icon_path(&index, &None, "迪莫"), None);

    let empty = build_icon_index(None, &names);
    assert!(empty.groups.is_empty());
}

#[test]
fn evolutions_follow_their_source() {
    let rows = vec![
        EvolutionRow { from_name: "A".to_string(), to_name: "B".to_string(), evo_level: Some(5), condition: None, chain_text: None },
        EvolutionRow { from_name: "C".to_string(), to_name: "D".to_string(), evo_level: None, condition: None, chain_text: None },
        EvolutionRow { from_name: "A".to_string(), to_name: "E".to_string(), evo_level: None, condition: Some("x".to_string()), chain_text: None },
    ];
    let evolutions = evolutions_for(&rows, "A");
    assert_eq!(evolutions.len(), 2);
    assert_eq!(evolutions[0].to_name, "B");
    assert_eq!(evolutions[1].to_name, "E");
    assert_eq!(evolutions[1].condition, Some("x".to_string()));
    assert!(evolutions_for(&rows, "Z").is_empty());
}

#[test]
fn bundle_directory_is_beside_the_crates() {
    assert_eq!(bundled_bundle_dir("/ws/crates/bestiary"), "/ws/crates/bestiary/../../data/nrc_pokemon_data_bundle");
}

#[test]
fn loading_the_same_contents_twice_gives_the_same_catalog() {
    let first = load_catalog(&dimo_contents());
    let second = NrcCatalogLoader::load_from_rows(&dimo_contents());
    assert_eq!(first, second);
}

#[test]
fn every_icon_group_holds_a_file() {
    let names = vec!["NO001_a.png".to_string(), "x_y.txt".to_string(), "NO002_b.png".to_string(), "NO001_c.png".to_string()];
    let index = build_icon_index(Some("d"), &names);
    assert_eq!(index.groups.len(), 2);
    assert!(index.groups.iter().all(|group| !group.file_names.is_empty()));
}
