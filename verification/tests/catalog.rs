use space_trader::models::blueprint::BlueprintCategory;
use space_trader::models::faction::{get_storylines_for_faction, FactionType, Storyline};
use space_trader::models::ship::ShipType;
use space_trader::models::skills::{level_for_points, Skill, SkillCategory, SkillSet};
use space_trader::models::universe::{ResourceFieldType, StationType};
use space_trader::network::error::NetworkError;
use space_trader::systems::crafting::convert_skillset_to_map;
use space_trader::systems::mining::MiningSystem;
use space_trader::systems::trading::TradingSystem;
use space_trader::ui::ascii_art::{get_ship_art, get_station_art};
use space_trader::ui::character_info::CharacterInfoTab;
use space_trader::ui::style::get_animated_border_char;

#[test]
fn resource_fields() {
    assert_eq!(ResourceFieldType::BlackHoleAccretion.to_string(), "Black Hole Accretion Disk");
    assert_eq!(ResourceFieldType::GasField.required_mining_level(), 2);
    assert_eq!(ResourceFieldType::StarCorona.danger_level(), 4);
    let res = ResourceFieldType::IceField.primary_resources();
    assert_eq!(res.len(), 4);
    assert_eq!(res[3], ("Carbon Dioxide".to_string(), 50));
}

#[test]
fn station_types() {
    assert_eq!(StationType::Habitation.to_string(), "Habitat Ring");
    assert_eq!(
        StationType::Research.services(),
        vec!["Blueprint Research".to_string(), "Technology Exchange".to_string(), "Science Missions".to_string()]
    );
}

#[test]
fn names_of_kinds() {
    assert_eq!(ShipType::Freighter.to_string(), "Freighter");
    assert_eq!(BlueprintCategory::Mining.to_string(), "Mining Equipment");
    assert_eq!(SkillCategory::Navigation.to_string(), "Navigation");
    assert_eq!(FactionType::Scientists.to_string(), "Scientific Academy");
    assert_eq!(NetworkError::Timeout.message(), "Timeout error");
    assert_eq!(NetworkError::AuthError("bad token".to_string()).message(), "Authentication error: bad token");
}

#[test]
fn skill_levels_by_points() {
    assert_eq!(level_for_points(0), 0);
    assert!(level_for_points(100_000) >= level_for_points(10));
}

#[test]
fn storylines_for_each_faction() {
    for f in [FactionType::Traders, FactionType::Miners, FactionType::Military, FactionType::Scientists] {
        let lines = get_storylines_for_faction(&f);
        assert_eq!(lines.len(), 3);
        assert!(lines.iter().all(|s| s.faction == f && s.progress == 0 && !s.completed));
    }
    assert_eq!(get_storylines_for_faction(&FactionType::Traders)[0].id, "traders_dominance");
}

#[test]
fn storyline_advances_to_completion() {
    let mut s = Storyline::new("id", FactionType::Traders, "n", "d", 2);
    assert!(s.advance());
    assert!(!s.completed);
    assert!(s.advance());
    assert!(s.completed);
    assert!(!s.advance());
    assert_eq!(s.progress, 2);
}

#[test]
fn skill_map_keeps_last_level() {
    let skill = |category: SkillCategory, level: u8| Skill {
        category,
        points: 0,
        level,
        active: false,
        last_update: None,
    };
    let set = SkillSet { skills: vec![skill(SkillCategory::Mining, 2), skill(SkillCategory::Trading, 1), skill(SkillCategory::Mining, 4)] };
    let map = convert_skillset_to_map(&set);
    assert_eq!(map.len(), 2);
    assert!(map.contains(&("Mining".to_string(), 4)));
    assert!(map.contains(&("Trading".to_string(), 1)));
}

#[test]
fn mining_lookup_by_system() {
    let mut m = MiningSystem::new();
    let systems = vec![
        ("sol".to_string(), vec![("Iron".to_string(), 70)]),
        ("vega".to_string(), vec![("Ice".to_string(), 20), ("Gas".to_string(), 5)]),
    ];
    assert_eq!(m.get_resources_for_system(&systems, "vega".to_string()).len(), 2);
    assert!(m.get_resources_for_system(&systems, "nowhere".to_string()).is_empty());
    m.select_resource("Iron".to_string());
    assert_eq!(m.selected_resource, Some("Iron".to_string()));
}

#[test]
fn trading_mode() {
    let mut t = TradingSystem::new();
    assert!(t.is_buy_mode());
    t.set_buy_mode(false);
    assert!(!t.is_buy_mode());
    assert_eq!(t.transaction_cooldown, 500);
}

#[test]
fn art_and_tabs() {
    assert!(get_ship_art(&ShipType::Scout).contains("\"mwwwwmwmw\"m"));
    assert!(get_station_art().contains("|   []  []   |"));
    assert_eq!(CharacterInfoTab::from_index(2), CharacterInfoTab::Assets);
    assert_eq!(CharacterInfoTab::from_index(9), CharacterInfoTab::Skills);
    assert_eq!(CharacterInfoTab::Background.index(), 3);
    assert_eq!(get_animated_border_char(4), "═");
    assert_eq!(get_animated_border_char(6), "≣");
    assert_eq!(get_animated_border_char(7), "≡");
}
