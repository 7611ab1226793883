use space_trader::models::item::{Inventory, Item, ItemType};
use space_trader::models::skills::SkillSet;
use space_trader::systems::crafting::{BlueprintRarity, CraftingSystem, CraftingTable};

fn alloy_system() -> (CraftingSystem, String) {
    let mut c = CraftingSystem::new();
    let recipe = CraftingSystem::create_recipe(
        "Basic Mineral Alloy",
        "Refine raw minerals",
        vec![("Iron Ore".to_string(), 2), ("Copper Ore".to_string(), 1)],
        Item::new("Mineral Alloy", 150, 1, ItemType::Component),
        1,
        300,
    );
    let id = c.register_recipe(recipe);
    (c, id)
}

#[test]
fn recipes_must_be_learned() {
    let (mut c, id) = alloy_system();
    assert!(!c.player_knows_recipe("p1", &id));
    assert!(!c.learn_recipe("p1", "missing"));
    assert!(c.learn_recipe("p1", &id));
    assert!(c.learn_recipe("p1", &id));
    assert!(c.player_knows_recipe("p1", &id));
    assert_eq!(c.get_player_recipes("p1").len(), 1);
    assert!(c.get_player_recipes("p2").is_empty());
}

#[test]
fn starting_a_job_checks_everything() {
    let (mut c, id) = alloy_system();
    assert!(c.add_skill_requirement(&id, "Engineering", 2));
    assert!(c.add_facility_requirement(&id, "Forge"));
    assert!(!c.add_facility_requirement("nope", "Forge"));
    let skills = vec![("Engineering".to_string(), 1)];
    let forge = vec!["Forge".to_string()];
    assert_eq!(c.start_crafting_job("p1", "nope", 0, &skills, &forge).unwrap_err(), "Recipe not found");
    assert_eq!(c.start_crafting_job("p1", &id, 0, &skills, &forge).unwrap_err(), "You don't know this recipe");
    c.learn_recipe("p1", &id);
    assert_eq!(
        c.start_crafting_job("p1", &id, 0, &skills, &forge).unwrap_err(),
        "You need Engineering level 2 (you have 1)"
    );
    let good = vec![("Engineering".to_string(), 5)];
    assert_eq!(c.start_crafting_job("p1", &id, 0, &good, &[]).unwrap_err(), "You need access to a Forge");
    let (job, end) = c.start_crafting_job("p1", &id, 1_000, &good, &forge).unwrap();
    assert_eq!(end, 1_300);
    let j = &c.active_jobs.iter().find(|(k, _)| *k == job).unwrap().1;
    assert_eq!(j.quality_bonus_steps, 3);
    assert_eq!(j.input_items.len(), 2);
    assert_eq!(c.check_job_status(&job, 1_200), Some(false));
    assert_eq!(c.check_job_status("nope", 1_200), None);
    assert_eq!(
        c.collect_completed_job(&job, "p1", 1_200).unwrap_err(),
        "Job not completed yet. Ready in 100 seconds"
    );
    assert_eq!(c.collect_completed_job(&job, "p2", 1_400).unwrap_err(), "This job doesn't belong to you");
    let done = c.update_jobs(1_300);
    assert_eq!(done, vec![(job.clone(), "p1".to_string())]);
    assert!(c.update_jobs(1_400).is_empty());
    assert_eq!(c.check_job_status(&job, 0), Some(true));
    let (finished, item, qty) = c.collect_completed_job(&job, "p1", 0).unwrap();
    assert_eq!(finished.id, job);
    assert_eq!(item.name, "Mineral Alloy");
    assert_eq!(qty, 1);
    assert_eq!(c.collect_completed_job(&job, "p1", 0).unwrap_err(), "Job not found");
}

#[test]
fn finding_recipes() {
    let (mut c, id) = alloy_system();
    let cell = CraftingSystem::create_recipe(
        "Power Cell",
        "",
        vec![("Mineral Alloy".to_string(), 1)],
        Item::new("Power Cell", 500, 2, ItemType::Product),
        1,
        600,
    );
    let cell_id = c.register_recipe(cell);
    c.add_skill_requirement(&cell_id, "Electronics", 2);
    c.learn_recipe("p", &id);
    c.learn_recipe("p", &cell_id);
    let none: Vec<(String, u32)> = Vec::new();
    assert_eq!(c.find_available_recipes("p", None, &none).len(), 1);
    assert_eq!(c.find_available_recipes("p", Some(&ItemType::Product), &none).len(), 0);
    let skilled = vec![("Electronics".to_string(), 2)];
    assert_eq!(c.find_available_recipes("p", Some(&ItemType::Product), &skilled).len(), 1);
    let mut inv = Inventory::new(100);
    assert!(c.find_craftable_recipes("p", &inv, &skilled, &[]).is_empty());
    inv.add_item(Item::new("Iron Ore", 1, 1, ItemType::Component), 2);
    inv.add_item(Item::new("Copper Ore", 1, 1, ItemType::Component), 1);
    let craftable = c.find_craftable_recipes("p", &inv, &skilled, &[]);
    assert_eq!(craftable.len(), 1);
    assert_eq!(craftable[0].name, "Basic Mineral Alloy");
}

#[test]
fn blueprints_in_the_crafting_system() {
    let (mut c, id) = alloy_system();
    assert_eq!(
        c.create_blueprint("missing", "x", "y", true, false, None, BlueprintRarity::Common).unwrap_err(),
        "Recipe does not exist"
    );
    let hidden = c.create_blueprint(&id, "Alloy", "d", false, false, Some("Mars"), BlueprintRarity::Rare).unwrap();
    assert!(c.get_available_blueprints().is_empty());
    assert!(c.discover_blueprint(&hidden));
    assert!(!c.discover_blueprint("missing"));
    assert_eq!(c.get_available_blueprints().len(), 1);
    c.set_selected_blueprint_index(Some(3));
    assert_eq!(c.get_selected_blueprint_index(), None);
    c.set_selected_blueprint_index(Some(0));
    assert_eq!(c.get_selected_blueprint().unwrap().id, hidden);
    assert!(c.learn_blueprint(&hidden, "p9"));
    assert!(c.player_knows_recipe("p9", &id));
    assert!(c.blueprints[0].learned);
    assert!(!c.learn_blueprint("missing", "p9"));
}

#[test]
fn crafting_from_a_blueprint() {
    let (mut c, id) = alloy_system();
    let mut hold = Inventory::new(100);
    let skills = SkillSet::new_at(0);
    assert_eq!(c.craft_item("p1", &mut hold, &skills, 0, 10).unwrap_err(), "Invalid blueprint index");
    c.create_blueprint(&id, "Alloy", "d", false, false, None, BlueprintRarity::Common).unwrap();
    assert_eq!(c.craft_item("p1", &mut hold, &skills, 0, 10).unwrap_err(), "You haven't discovered this blueprint yet");
    c.blueprints[0].discovered = true;
    assert_eq!(
        c.craft_item("p1", &mut hold, &skills, 0, 10).unwrap_err(),
        "You haven't learned how to craft this item yet"
    );
    c.blueprints[0].learned = true;
    assert_eq!(c.craft_item("p1", &mut hold, &skills, 0, 10).unwrap_err(), "You don't know this recipe");
    c.learn_recipe("p1", &id);
    assert_eq!(c.craft_item("p1", &mut hold, &skills, 0, 10).unwrap_err(), "Not enough Iron Ore. Need 2, have 0");
    hold.add_item(Item::new("Iron Ore", 5, 1, ItemType::Component), 3);
    hold.add_item(Item::new("Copper Ore", 5, 1, ItemType::Component), 1);
    c.add_skill_requirement(&id, "Mining", 1);
    assert_eq!(c.craft_item("p1", &mut hold, &skills, 0, 10).unwrap_err(), "You need Mining level 1 (you have 0)");
    let mut trained = SkillSet::new_at(0);
    trained.skills[0].level = 3;
    c.add_facility_requirement(&id, "Forge");
    assert_eq!(c.craft_item("p1", &mut hold, &trained, 0, 10).unwrap_err(), "You need access to a Forge");
    assert_eq!(hold.get_item_quantity("Iron Ore"), 3);
    let (mut c, id) = alloy_system();
    c.create_blueprint(&id, "Alloy", "d", true, true, None, BlueprintRarity::Common).unwrap();
    c.learn_recipe("p1", &id);
    let job = c.craft_item("p1", &mut hold, &trained, 0, 10).unwrap();
    assert_eq!(hold.get_item_quantity("Iron Ore"), 1);
    assert_eq!(hold.get_item_quantity("Copper Ore"), 0);
    assert_eq!(c.check_job_status(&job, 310), Some(true));
}

#[test]
fn basic_recipes_and_blueprints() {
    let mut c = CraftingSystem::new();
    c.setup_basic_blueprints();
    assert_eq!(c.recipes.len(), 3);
    assert_eq!(c.blueprints.len(), 3);
    let cell = &c.recipes.iter().find(|(_, r)| r.name == "Standard Power Cell").unwrap().1;
    assert_eq!(cell.facility_requirements, vec!["Electronics Lab".to_string()]);
    assert_eq!(cell.skill_requirements, vec![("Electronics".to_string(), 2)]);
    let shield = &c.recipes.iter().find(|(_, r)| r.name == "Basic Shield Generator").unwrap().1;
    assert_eq!(shield.input_items.len(), 4);
    assert_eq!(shield.skill_requirements, vec![("Engineering".to_string(), 3), ("Electronics".to_string(), 2)]);
    for (b, (rid, r)) in c.blueprints.iter().zip(c.recipes.iter()) {
        assert_eq!(&b.recipe_id, rid);
        assert_eq!(b.name, r.name);
        assert!(b.discovered && !b.learned);
        assert_eq!(b.rarity, BlueprintRarity::Common);
    }
    c.setup_basic_blueprints();
    assert_eq!(c.recipes.len(), 3);
    assert_eq!(c.blueprints.len(), 6);
}

#[test]
fn crafting_table_access() {
    let mut t = CraftingTable::new("Bench", "sol", vec!["Forge".to_string()]);
    assert_eq!(t.can_use("anyone"), Ok(0));
    t.add_tool("Hammer");
    t.add_tool("Hammer");
    assert_eq!(t.available_tools, vec!["Hammer".to_string()]);
    t.upgrade_quality(25);
    t.upgrade_speed(10);
    assert_eq!((t.quality_modifier_hundredths, t.speed_modifier_hundredths), (125, 110));
    t.set_owner("ann", true, Some(15));
    assert_eq!(t.can_use("ann"), Ok(0));
    assert_eq!(t.can_use("bob"), Ok(15));
    t.set_owner("ann", false, None);
    assert_eq!(t.can_use("bob"), Err("This crafting table is private".to_string()));
}
