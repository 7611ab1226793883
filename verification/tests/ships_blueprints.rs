use space_trader::models::blueprint::{Blueprint, BlueprintCategory, BlueprintIngredient, BlueprintLibrary, BlueprintType};
use space_trader::models::item::{ItemType, ResourceType};
use space_trader::models::ship::{Ship, ShipType};

#[test]
fn ship_classes_and_overrides() {
    let s = Ship::new("Hauler", ShipType::Freighter, Some(150), None, None, None, None);
    assert_eq!(s.hull, 200);
    assert_eq!(s.shield, 100);
    assert_eq!(s.cargo_capacity, 150);
    assert_eq!(s.speed, 60);
    assert_eq!(s.fuel_capacity, 1500);
    assert_eq!(s.current_fuel, 1500);
    assert_eq!(s.fuel_consumption_tenths, 15);
    assert_eq!(s.get_total_specialized_cargo(), 35);
    assert_eq!(s.get_capacity_for_resource(&ResourceType::Gas), 10);
    assert_eq!(s.get_capacity_for_resource(&ResourceType::Refined), 0);
    assert_eq!(
        s.get_specialized_cargo_info(),
        "Mining Bays: Mineral: 0/10 | Gas: 0/10 | Ice: 0/10 | Exotic: 0/5"
    );
    assert_eq!(Ship::default("M", ShipType::Miner).mining_power, 10);
}

#[test]
fn damage_goes_through_shield_first() {
    let mut s = Ship::default("Scout", ShipType::Scout);
    assert!(!s.take_damage(30));
    assert_eq!((s.hull, s.shield), (100, 20));
    assert!(!s.take_damage(70));
    assert_eq!((s.hull, s.shield), (50, 0));
    assert!(s.take_damage(50));
    assert_eq!(s.hull, 0);
    s.repair(500);
    assert_eq!(s.hull, 100);
    s.recharge_shield(10);
    assert_eq!(s.shield, 10);
}

#[test]
fn refuel_stops_at_capacity() {
    let mut s = Ship::default("F", ShipType::Fighter);
    s.current_fuel = 550;
    assert_eq!(s.refuel(100), 50);
    assert_eq!(s.current_fuel, 600);
    assert_eq!(s.refuel(10), 0);
}

fn original() -> Blueprint {
    Blueprint::new(
        "Drill",
        "A mining drill",
        BlueprintCategory::Mining,
        BlueprintType::Original,
        vec![BlueprintIngredient { item_name: "Iron".to_string(), item_type: ItemType::Resource(ResourceType::Mineral), quantity: 3 }],
        "Drill",
        ItemType::Equipment,
        1,
        4,
        10,
        None,
    )
}

#[test]
fn blueprint_research_and_copies() {
    let mut b = original();
    assert_eq!(b.research_required, 400);
    assert_eq!(b.quality_level, 1);
    assert!(b.create_copy().is_none());
    assert!(b.start_research_at(1_000));
    assert_eq!(b.research_start_time, Some(1_000));
    assert!(!b.start_research_at(2_000));
    b.research_complete = true;
    b.quality_level = 3;
    let mut c = b.create_copy().unwrap();
    assert_eq!(c.name, "Drill (Copy)");
    assert_eq!(c.bp_type, BlueprintType::Copy);
    assert_eq!(c.remaining_uses, Some(5));
    assert_eq!(c.research_progress, 400);
    assert_eq!(c.ingredients.len(), 1);
    assert_ne!(c.id, b.id);
    for _ in 0..5 {
        assert!(c.use_blueprint());
    }
    assert!(!c.use_blueprint());
    assert!(c.create_copy().is_none());
    assert!(b.use_blueprint());
}

#[test]
fn blueprint_library_lookup() {
    let mut lib = BlueprintLibrary::new();
    let b = original();
    let id = b.id.clone();
    lib.add_blueprint(b);
    lib.add_blueprint(original());
    assert_eq!(lib.get_blueprint(&id).unwrap().id, id);
    assert!(lib.get_blueprint("nope").is_none());
    assert!(lib.remove_blueprint(&id));
    assert!(!lib.remove_blueprint(&id));
    assert_eq!(lib.blueprints.len(), 1);
    let mut fresh = original();
    assert!(fresh.start_research());
    assert!(fresh.research_start_time.is_some());
}
