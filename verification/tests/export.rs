use crystalline::bestiary::{Evolution, Move, MoveEffect, PetSpecies, Stats};
use crystalline::export::{
    build_predecessors, display_text, exported_icon_file, generated_timestamp, icon_file_name, icon_url,
    normalized_option, site_data, species_card, stats_total_in_range, species_detail, unique_sorted, EvolutionDto, MoveDto,
    MoveEffectDto, StatsDto,
};

fn species(id: i64, name: &str, element: &str, stage: &str, evolves_to: &[&str]) -> PetSpecies {
    PetSpecies {
        pokemon_id: id,
        species_id: format!("pokemon-{id}-{}", name.to_lowercase()),
        name: name.to_string(),
        element: element.to_string(),
        evo_stage: stage.to_string(),
        ability: "  Blaze ".to_string(),
        spirit_no: Some(" No.1 ".to_string()),
        icon_path: None,
        stats: Stats { max_hp: 10, attack: 20, defense: 30, speed: 40, special_attack: 50, special_defense: 60 },
        learnset: vec![Move {
            id: "1".to_string(),
            name: "Ember".to_string(),
            element: element.to_string(),
            category: "Special".to_string(),
            priority: 1,
            energy_cost: 3,
            description: "hot".to_string(),
            effect: MoveEffect::Damage { power: 40 },
        }],
        evolutions: evolves_to
            .iter()
            .map(|to| Evolution {
                to_name: to.to_string(),
                evo_level: Some(16),
                condition: Some("lvl".to_string()),
                chain_text: None,
            })
            .collect(),
    }
}

#[test]
fn display_text_trims_and_drops_placeholders() {
    assert_eq!(display_text("  Blaze  "), "Blaze");
    assert_eq!(display_text(" : "), "");
    assert_eq!(display_text("   "), "");
    assert_eq!(display_text("a:b"), "a:b");
    assert_eq!(normalized_option(&Some(" x ".to_string())), Some("x".to_string()));
    assert_eq!(normalized_option(&Some(":".to_string())), None);
    assert_eq!(normalized_option(&None), None);
}

#[test]
fn unique_sorted_drops_empty_and_duplicates() {
    let values = vec!["Water".to_string(), String::new(), "Fire".to_string(), "Water".to_string(), "光".to_string()];
    assert_eq!(unique_sorted(&values), vec!["Fire".to_string(), "Water".to_string(), "光".to_string()]);
    assert!(unique_sorted(&Vec::new()).is_empty());
}

#[test]
fn predecessors_are_sorted_and_unique() {
    let all = vec![
        species(3, "Zeta", "Fire", "Base", &["Omega"]),
        species(1, "Alpha", "Fire", "Base", &["Omega", "Omega"]),
        species(2, "Beta", "Water", "Mid", &["Gamma"]),
        species(4, "Alpha", "Fire", "Base", &["Omega"]),
    ];
    let predecessors = build_predecessors(&all);
    assert_eq!(predecessors.names_for("Omega"), vec!["Alpha".to_string(), "Zeta".to_string()]);
    assert_eq!(predecessors.names_for("Gamma"), vec!["Beta".to_string()]);
    assert!(predecessors.names_for("Alpha").is_empty());
    assert_eq!(predecessors.entries.len(), 2);
}

#[test]
fn stats_and_move_shapes() {
    let entry = species(1, "Alpha", "Fire", "Base", &["Beta"]);
    let stats = StatsDto::from_species(&entry);
    assert_eq!(stats.total, 210);
    assert_eq!(stats.special_defense, 60);

    let shown = MoveDto::from_move(&entry.learnset[0]);
    assert_eq!(shown.name, "Ember");
    assert_eq!(shown.priority, 1);
    assert_eq!(shown.effect, MoveEffectDto { kind: "damage", power: Some(40) });
    assert_eq!(MoveEffectDto::from_effect(&MoveEffect::Status), MoveEffectDto { kind: "status", power: None });

    let evolution = EvolutionDto::from_evolution(&entry.evolutions[0]);
    assert_eq!(evolution.to_name, "Beta");
    assert_eq!(evolution.evo_level, Some(16));
    assert_eq!(evolution.condition, Some("lvl".to_string()));
}

#[test]
fn cards_and_details_show_a_species() {
    let all = vec![species(1, "Alpha", "Fire", "Base", &["Beta"]), species(2, "Beta", "Fire", "Final", &[])];
    let card = species_card(&all[0], Some("icons/x.png".to_string()));
    assert_eq!(card.id, "pokemon-1-alpha");
    assert_eq!(card.ability, "Blaze");
    assert_eq!(card.spirit_no, Some("No.1".to_string()));
    assert_eq!(card.icon, Some("icons/x.png".to_string()));
    assert_eq!(card.move_count, 1);
    assert_eq!(card.evolution_count, 1);

    let predecessors = build_predecessors(&all);
    let detail = species_detail(&all[1], None, &predecessors);
    assert_eq!(detail.name, "Beta");
    assert_eq!(detail.evolves_from, vec!["Alpha".to_string()]);
    assert!(detail.evolves_to.is_empty());
    assert_eq!(detail.learnset.len(), 1);
    assert_eq!(detail.stats.total, 210);
}

#[test]
fn icon_files_are_named_by_species() {
    assert_eq!(icon_file_name("pokemon-1-a", &Some("webp".to_string())), "pokemon-1-a.webp");
    assert_eq!(icon_file_name("pokemon-1-a", &None), "pokemon-1-a.png");
    assert_eq!(icon_url("pokemon-1-a.png"), "icons/pokemon-1-a.png");

    let mut entry = species(5, "Eve", "Fire", "Base", &[]);
    assert_eq!(exported_icon_file(&entry), None);
    entry.icon_path = Some("/bundle/icons/NO005_Eve.jpg".to_string());
    assert_eq!(exported_icon_file(&entry), Some("pokemon-5-eve.jpg".to_string()));
    entry.icon_path = Some("/bundle/icons/NO005_Eve".to_string());
    assert_eq!(exported_icon_file(&entry), Some("pokemon-5-eve.png".to_string()));
}

#[test]
fn timestamps_are_decimal_seconds() {
    assert_eq!(generated_timestamp(Some(1700000000)), "1700000000");
    assert_eq!(generated_timestamp(Some(0)), "0");
    assert_eq!(generated_timestamp(None), "0");
}

#[test]
fn site_data_collects_everything() {
    let mut first = species(1, "Alpha", "Fire", "Base", &["Beta"]);
    first.icon_path = Some("/bundle/icons/NO001_Alpha.png".to_string());
    let all = vec![first, species(2, "Beta", "Water", "", &[]), species(3, "Gamma", "Fire", "Base", &["Beta"])];
    let data = site_data(&all, "123".to_string());

    assert_eq!(data.index.generated_at, "123");
    assert_eq!(data.index.species_count, 3);
    assert_eq!(data.index.elements, vec!["Fire".to_string(), "Water".to_string()]);
    assert_eq!(data.index.stages, vec!["Base".to_string()]);
    assert_eq!(data.index.species.len(), 3);
    assert_eq!(data.index.species[0].icon, Some("icons/pokemon-1-alpha.png".to_string()));
    assert_eq!(data.index.species[1].icon, None);
    assert_eq!(data.details.len(), 3);
    assert_eq!(data.details[1].evolves_from, vec!["Alpha".to_string(), "Gamma".to_string()]);
    assert!(data.details[0].evolves_from.is_empty());
    assert_eq!(data.details[0].icon, Some("icons/pokemon-1-alpha.png".to_string()));
}

#[test]
fn stat_totals_must_fit() {
    let entry = species(1, "Alpha", "Fire", "Base", &[]);
    assert!(stats_total_in_range(&entry.stats));
    let big = Stats { max_hp: i32::MAX, attack: 1, defense: -1, speed: 0, special_attack: 0, special_defense: 0 };
    assert!(!stats_total_in_range(&big));
    let low = Stats { max_hp: i32::MIN, attack: 0, defense: 0, speed: 0, special_attack: 0, special_defense: -1 };
    assert!(!stats_total_in_range(&low));
}
