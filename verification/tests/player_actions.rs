use space_trader::models::blueprint::{Blueprint, BlueprintCategory, BlueprintType};
use space_trader::models::faction::FactionType;
use space_trader::models::item::{Item, ItemType, ResourceType};
use space_trader::models::market::{
    cancel_expired, cancel_order, complete_order, get_player_orders, plan_orders, OrderQuote, OrderStatus, OrderType, TradeOrder,
};
use space_trader::models::player::Player;
use space_trader::models::ship::ShipType;
use space_trader::models::skills::{Skill, SkillCategory, SkillSet};
use space_trader::systems::mining::MiningSystem;
use space_trader::systems::navigation::NavigationSystem;
use space_trader::systems::trading::TradingSystem;
use space_trader::debug::client_server::NetworkSimulator;
use space_trader::ui::style::AnimationClock;

fn market() -> Vec<(Item, u32)> {
    vec![
        (Item::new("Iron", 50, 1, ItemType::Resource(ResourceType::Mineral)), 100),
        (Item::new("Engine", 4_000, 30, ItemType::ShipModule), 2),
        (Item::new("Gold", 9_000, 1, ItemType::Resource(ResourceType::Mineral)), 5),
    ]
}

#[test]
fn new_player_starts_docked_at_sol() {
    let p = Player::new("Ann");
    assert_eq!(p.name, "Ann");
    assert_eq!(p.credits, 5_000);
    assert_eq!(p.ship.name, "Rustbucket");
    assert_eq!(p.inventory.capacity, 20);
    assert_eq!(p.current_system_id, "sol");
    assert!(p.is_docked);
}

#[test]
fn credits_come_and_go() {
    let mut p = Player::new("Ann");
    p.add_credits(500);
    assert_eq!(p.credits, 5_500);
    assert!(p.remove_credits(500));
    assert_eq!(p.credits, 5_000);
    assert!(!p.remove_credits(5_001));
    assert_eq!(p.credits, 5_000);
}

#[test]
fn buying_one_unit() {
    let mut t = TradingSystem::new();
    let mut p = Player::new("Ann");
    let m = market();
    p.is_docked = false;
    assert_eq!(t.buy_item(&mut p, &m, 0).unwrap(), "You must be docked at a station to trade");
    p.is_docked = true;
    assert_eq!(t.buy_item(&mut p, &m, 7).unwrap(), "Invalid item selection");
    assert_eq!(t.buy_item(&mut p, &m, 2).unwrap(), "Cannot afford Gold (need 9000 cr)");
    assert_eq!(t.buy_item(&mut p, &m, 1).unwrap(), "Not enough cargo space for Engine");
    assert_eq!(t.buy_item(&mut p, &m, 0).unwrap(), "Purchased 1 Iron for 50 cr");
    assert_eq!(p.credits, 4_950);
    assert_eq!(p.inventory.get_item_quantity("Iron"), 1);
}

#[test]
fn selling_one_unit_at_nine_tenths() {
    let mut t = TradingSystem::new();
    let mut p = Player::new("Ann");
    let m = market();
    t.buy_item(&mut p, &m, 0);
    t.buy_item(&mut p, &m, 0);
    assert_eq!(t.sell_item(&mut p, 3, 0).unwrap(), "Invalid item selection");
    let price = station_price(p.inventory.items[0].0.value);
    assert_eq!(price, 45);
    assert_eq!(t.sell_item(&mut p, 0, price).unwrap(), "Sold 1 Iron for 45 cr");
    assert_eq!(p.credits, 4_945);
    assert_eq!(p.inventory.get_item_quantity("Iron"), 1);
    p.is_docked = false;
    assert_eq!(t.sell_item(&mut p, 0, price).unwrap(), "You must be docked at a station to trade");
}

#[test]
fn mining_uses_the_roll() {
    let mut m = MiningSystem::new();
    let mut p = Player::new("Ann");
    let systems = vec![("sol".to_string(), vec![("Iron".to_string(), 60)])];
    assert_eq!(m.mine_resource(&mut p, &systems, 3, 0).unwrap(), "Invalid resource selection");
    // A scout has mining power 2: with abundance 60 the chance is 1 in 100.
    assert_eq!(m.mine_resource(&mut p, &systems, 0, 1).unwrap(), "Failed to mine Iron");
    assert_eq!(p.inventory.get_item_quantity("Iron"), 0);
    assert_eq!(m.mine_resource(&mut p, &systems, 0, 0).unwrap(), "Successfully mined 1 Iron");
    assert_eq!(p.inventory.items[0].0.value, 80);
    p.inventory.capacity = 1;
    assert_eq!(m.mine_resource(&mut p, &systems, 0, 0).unwrap(), "Not enough cargo space for mining");
}

#[test]
fn jumps_take_fuel_and_time() {
    let mut n = NavigationSystem::new();
    let mut p = Player::new("Ann");
    assert_eq!(n.calculate_fuel_required(0), 1);
    assert_eq!(n.calculate_fuel_required(7), 7);
    assert!(!n.can_travel_to(&p, true, 5));
    n.undock(&mut p);
    assert!(n.can_travel_to(&p, true, 5));
    assert!(!n.can_travel_to(&p, false, 5));
    assert!(!n.can_travel_to(&p, true, 10_000));
    n.travel_to(&mut p, "vega".to_string(), 5, 3_000);
    assert_eq!(p.ship.current_fuel, 795);
    assert!(n.is_traveling());
    assert!(!n.can_travel_to(&p, true, 5));
    n.update(&mut p, 1_000);
    assert_eq!(n.get_remaining_travel_time(), 2_000);
    assert_eq!(p.current_system_id, "sol");
    n.update(&mut p, 2_000);
    assert!(!n.is_traveling());
    assert_eq!(p.current_system_id, "vega");
    assert!(n.can_dock(&p, true));
    assert!(!n.can_dock(&p, false));
    n.dock(&mut p);
    assert!(n.is_docked(&p));
}

#[test]
fn faction_ships() {
    let s = FactionType::Traders.starting_ship();
    assert_eq!(s.name, "United Trade Federation Merchant Vessel");
    assert_eq!(s.ship_type, ShipType::Freighter);
    assert_eq!(s.cargo_capacity, 150);
    let s = FactionType::Miners.starting_ship();
    assert_eq!(s.name, "Mining Consortium Mining Vessel");
    assert_eq!(s.mining_power, 15);
    let s = FactionType::Military.starting_ship();
    assert_eq!((s.speed, s.weapon_power), (100, 15));
    let s = FactionType::Scientists.starting_ship();
    assert_eq!(s.name, "Scientific Academy Explorer");
    assert_eq!(s.jump_range, 12);
}

#[test]
fn skills_train_over_time() {
    let mut s = Skill::new_at(SkillCategory::Mining, 0);
    s.update(100_000);
    assert_eq!(s.points, 0);
    assert!(s.activate_at(1_000));
    assert!(!s.activate_at(2_000));
    s.update(1_001_000);
    assert_eq!(s.points, 100);
    assert_eq!(s.level, 1);
    assert_eq!(s.last_update, Some(1_001_000));
    s.update(1_001_000);
    assert_eq!(s.points, 100);
    assert!(!s.deactivate());
    assert!(!s.active);
}

#[test]
fn skill_sets_by_category() {
    let mut set = SkillSet::new_at(5);
    assert_eq!(set.skills.len(), 6);
    assert_eq!(set.get_skill(&SkillCategory::Research).unwrap().category, SkillCategory::Research);
    assert!(set.activate_skill_at(&SkillCategory::Trading, 10));
    assert!(!set.activate_skill_at(&SkillCategory::Trading, 20));
    set.update_all_at(3_000_010);
    assert_eq!(set.get_skill(&SkillCategory::Trading).unwrap().points, 300);
    assert_eq!(set.get_skill(&SkillCategory::Trading).unwrap().level, 2);
    assert_eq!(set.get_skill(&SkillCategory::Mining).unwrap().points, 0);
    assert!(!set.deactivate_skill(&SkillCategory::Trading));
    assert!(!set.get_skill(&SkillCategory::Trading).unwrap().active);
    assert!(set.update_all());
}

#[test]
fn blueprint_quality_rises_after_research() {
    let mut b = Blueprint::new(
        "Drill",
        "d",
        BlueprintCategory::Mining,
        BlueprintType::Original,
        vec![],
        "Drill",
        ItemType::Equipment,
        1,
        2,
        10,
        None,
    );
    assert!(!b.improve_quality(next_required(b.research_required)));
    b.research_complete = true;
    let required = b.research_required;
    assert!(b.improve_quality(next_required(required)));
    assert_eq!(b.quality_level, 2);
    assert_eq!(b.research_required, required + required / 2);
    assert!(!b.research_complete);
    b.research_complete = true;
    b.quality_level = 5;
    assert!(!b.improve_quality(next_required(b.research_required)));
    assert_eq!(next_required(6_000_001), 9_000_002);
}

fn order(id: &str, player: &str, status: OrderStatus) -> TradeOrder {
    TradeOrder {
        id: id.to_string(),
        player_id: player.to_string(),
        system_id: "sol".to_string(),
        item_name: "Iron".to_string(),
        order_type: OrderType::Buy,
        quantity: 1,
        target_price: 10,
        price_condition: "below".to_string(),
        status,
        created_at: 0,
        expires_at: None,
        executed_at: None,
        notes: String::new(),
    }
}

#[test]
fn standing_orders() {
    let mut orders = vec![
        order("a", "ann", OrderStatus::Active),
        order("b", "bob", OrderStatus::Active),
        order("c", "ann", OrderStatus::Completed),
    ];
    assert_eq!(get_player_orders(&orders, "ann").len(), 1);
    assert!(!cancel_order(&mut orders, "a", "bob"));
    assert!(!cancel_order(&mut orders, "c", "ann"));
    assert!(cancel_order(&mut orders, "a", "ann"));
    assert_eq!(orders[0].status, OrderStatus::Cancelled);
    assert!(get_player_orders(&orders, "ann").is_empty());
    assert_eq!(get_player_orders(&orders, "bob")[0].id, "b");
}

#[test]
fn simulated_network() {
    let mut s = NetworkSimulator::new();
    assert_eq!(s.process_outgoing(0), Some(0));
    s.enable();
    s.set_packet_loss(250);
    assert_eq!(s.packet_loss_percent, 100);
    s.set_latency(40);
    assert_eq!(s.process_outgoing(99), None);
    s.set_packet_loss(10);
    assert_eq!(s.process_outgoing(9), None);
    assert_eq!(s.process_outgoing(10), Some(40));
    s.set_corruption(5);
    s.set_duplication(101);
    s.set_reordering(0);
    assert_eq!(
        s.get_settings(),
        "Network Simulator Settings:\nEnabled: true\nLatency: 40 ms\nPacket Loss: 10%\nCorruption: 5%\nDuplication: 100%\nReordering: 0%"
    );
    s.disable();
    assert!(!s.is_enabled());
}

#[test]
fn animation_steps_every_fifth_of_a_second() {
    let mut c = AnimationClock::new();
    assert_eq!(c.update_animation(1_000), 0);
    assert_eq!(c.update_animation(1_199), 0);
    assert_eq!(c.update_animation(1_200), 1);
    for i in 0..7u64 {
        c.update_animation(1_400 + 200 * i);
    }
    assert_eq!(c.counter, 0);
}

#[test]
fn buying_and_selling_back_costs_the_margin() {
    let mut t = TradingSystem::new();
    let mut p = Player::new("Ann");
    let m = vec![(Item::new("Water", 120, 1, ItemType::Product), 10)];
    let before = p.inventory.items.len();
    t.buy_item(&mut p, &m, 0);
    t.sell_item(&mut p, before, station_price(120));
    assert_eq!(p.inventory.items.len(), before);
    assert_eq!(p.credits, 5_000 - 120 + 108);
}

#[test]
fn market_prices_come_due_every_minute() {
    let mut t = TradingSystem::new();
    assert!(!t.update(30_000));
    assert!(!t.update(30_000));
    assert!(t.update(1));
    assert_eq!(t.last_transaction, 0);
    assert!(!t.update(60_000));
}

/// Nine tenths of a value, reckoned in `f32` as the station does.
fn station_price(value: u32) -> u32 {
    (value as f32 * 0.9) as u32
}

/// Half as much research again, reckoned in `f32`.
fn next_required(required: u32) -> u32 {
    (required as f32 * 1.5) as u32
}

#[test]
fn station_price_follows_f32() {
    assert_eq!(station_price(10_000_001), 9_000_001);
    assert_eq!(station_price(50), 45);
}

fn quote(price: u32, available: u32, buy_cost: Option<u32>, sell_revenue: Option<u32>) -> Option<OrderQuote> {
    Some(OrderQuote { price, available, buy_cost, sell_revenue })
}

#[test]
fn order_round_plans_expiries_and_executions() {
    let mut expired = order("e", "p", OrderStatus::Active);
    expired.expires_at = Some(50);
    let cheap_buy = order("b", "p", OrderStatus::Active);
    let dear_buy = order("d", "p", OrderStatus::Active);
    let done = order("x", "p", OrderStatus::Completed);
    let mut sell = order("s", "p", OrderStatus::Active);
    sell.order_type = OrderType::Sell;
    sell.quantity = 2;
    let mut short_sell = sell.clone();
    short_sell.id = "t".to_string();
    short_sell.quantity = 5;
    let mut orders = vec![expired, cheap_buy, dear_buy, done, sell, short_sell];
    let quotes = vec![
        quote(8, 10, Some(8), Some(7)),
        quote(8, 10, Some(8), Some(7)),
        quote(12, 10, Some(12), Some(10)),
        quote(8, 10, Some(8), Some(7)),
        quote(12, 10, None, Some(20)),
        quote(12, 10, None, Some(50)),
    ];
    let held = vec![None, None, None, None, Some(3), Some(3)];
    let (exp, exec) = plan_orders(&orders, 100, &quotes, 100, &held).unwrap();
    assert_eq!(exp, vec![0]);
    assert_eq!(exec, vec![1, 4]);
    // Not enough credits for the cheap buy: it waits.
    assert_eq!(plan_orders(&orders, 100, &quotes, 5, &held).unwrap().1, vec![4]);
    // A buy whose cost does not fit in a u32 stops the round there.
    let over = vec![None, quote(8, 10, None, None), None, None, None, None];
    assert_eq!(plan_orders(&orders, 100, &over, 100, &held), Err(1));
    cancel_expired(&mut orders, &exp);
    assert_eq!(orders[0].status, OrderStatus::Cancelled);
    assert_eq!(orders[1].status, OrderStatus::Active);
    let done = complete_order(&mut orders, 4, 100);
    assert_eq!(done.id, "s");
    assert_eq!(orders[4].status, OrderStatus::Completed);
    assert_eq!(orders[4].executed_at, Some(100));
}
