use space_trader::game::{Command, Game, GameScreen, Key, RefuelOutcome};
use space_trader::models::faction::FactionType;
use space_trader::models::item::{Inventory, Item, ItemType};
use space_trader::models::market::{OrderStatus, OrderType, TradeOrder};

fn press(game: &mut Game, keys: &[Key]) -> Vec<Command> {
    let inv = Inventory::new(10);
    keys.iter().map(|k| game.handle_input(*k, true, &inv)).collect()
}

#[test]
fn new_game_starts_in_character_creation() {
    let g = Game::new();
    assert_eq!(g.current_screen, GameScreen::CharacterCreation);
    assert_eq!(g.previous_screen, GameScreen::MainMenu);
    assert_eq!(g.creation_stage, 0);
    assert!(g.orders_view_active);
    assert!(!g.is_game_over());
}

#[test]
fn character_creation_full_flow() {
    let mut g = Game::new();
    press(&mut g, &[Key::Char('Z'), Key::Char('o'), Key::Char('x'), Key::Backspace, Key::Char('e')]);
    assert_eq!(g.character_name, "Zoe");
    press(&mut g, &[Key::Enter]);
    assert_eq!(g.creation_stage, 1);
    press(&mut g, &[Key::Char('2')]);
    assert_eq!(g.selected_faction, 1);
    assert_eq!(g.creation_stage, 2);
    press(&mut g, &[Key::Char('3')]);
    assert_eq!(g.selected_storyline, 2);
    assert_eq!(g.creation_stage, 3);
    let out = press(&mut g, &[Key::Char('y')]);
    match &out[0] {
        Command::CreateCharacter { name, faction, storyline } => {
            assert_eq!(name, "Zoe");
            assert_eq!(*faction, FactionType::Miners);
            assert_eq!(storyline.id, "miner_asteroids");
            assert_eq!(storyline.name, "Asteroid Baron");
            assert_eq!(storyline.total_steps, 5);
        },
        other => panic!("unexpected {:?}", other),
    }
    assert_eq!(g.current_screen, GameScreen::MainMenu);
}

#[test]
fn empty_name_is_refused() {
    let mut g = Game::new();
    press(&mut g, &[Key::Enter]);
    assert_eq!(g.creation_stage, 0);
    assert_eq!(g.message, Some("Please enter a name".to_string()));
    assert!(g.message_time.is_some());
}

#[test]
fn creation_backspace_and_restart() {
    let mut g = Game::new();
    press(&mut g, &[Key::Char('A'), Key::Enter, Key::Char('4'), Key::Backspace]);
    assert_eq!(g.creation_stage, 1);
    assert_eq!(g.selected_faction, 3);
    press(&mut g, &[Key::Char('4'), Key::Char('1'), Key::Char('n')]);
    assert_eq!(g.creation_stage, 0);
    assert_eq!(g.character_name, "");
    assert_eq!(g.selected_faction, 0);
    assert_eq!(g.selected_storyline, 0);
}

#[test]
fn storyline_choices_per_faction() {
    let mut g = Game::new();
    g.selected_storyline = 0;
    assert_eq!(g.get_selected_storyline(FactionType::Traders).id, "trader_commerce");
    assert_eq!(g.get_selected_storyline(FactionType::Military).name, "System Defense");
    g.selected_storyline = 1;
    assert_eq!(g.get_selected_storyline(FactionType::Scientists).id, "scientist_explorer");
    g.selected_storyline = 7;
    let s = g.get_selected_storyline(FactionType::Miners);
    assert_eq!(s.id, "miner_default");
    assert_eq!(s.description, "Learn the basics of mining and resource gathering.");
    assert_eq!(s.progress, 0);
    assert!(!s.completed);
}

#[test]
fn main_menu_keys_open_screens() {
    let mut g = Game::new();
    g.current_screen = GameScreen::MainMenu;
    press(&mut g, &[Key::Char('o')]);
    assert_eq!(g.current_screen, GameScreen::Orders);
    assert_eq!(g.previous_screen, GameScreen::MainMenu);
    press(&mut g, &[Key::Char('m')]);
    assert_eq!(g.current_screen, GameScreen::MainMenu);
    press(&mut g, &[Key::Char('x')]);
    assert_eq!(g.current_screen, GameScreen::MainMenu);
}

#[test]
fn quit_then_decline_returns_to_screen() {
    let mut g = Game::new();
    g.current_screen = GameScreen::Market;
    assert!(!g.confirm_quit());
    assert_eq!(g.current_screen, GameScreen::Quit);
    press(&mut g, &[Key::Char('n')]);
    assert_eq!(g.current_screen, GameScreen::Market);
    assert!(!g.is_game_over());
    assert!(!g.confirm_quit());
    press(&mut g, &[Key::Char('y')]);
    assert!(g.confirm_quit());
    assert!(g.is_game_over());
}

#[test]
fn cancel_goes_to_main_menu() {
    let mut g = Game::new();
    g.current_screen = GameScreen::Ship;
    g.cancel_action();
    assert_eq!(g.current_screen, GameScreen::MainMenu);
    assert_eq!(g.previous_screen, GameScreen::Ship);
    g.cancel_action();
    assert_eq!(g.previous_screen, GameScreen::Ship);
}

#[test]
fn screen_commands() {
    let mut g = Game::new();
    let inv = Inventory::new(10);
    g.current_screen = GameScreen::Navigation;
    assert!(matches!(g.handle_input(Key::Char('3'), false, &inv), Command::Travel(2)));
    assert!(matches!(g.handle_input(Key::Char('d'), false, &inv), Command::Dock));
    assert!(matches!(g.handle_input(Key::Char('u'), false, &inv), Command::Nothing));
    assert_eq!(g.message, Some("Not currently docked".to_string()));
    assert!(matches!(g.handle_input(Key::Char('t'), true, &inv), Command::Nothing));
    assert_eq!(g.current_screen, GameScreen::StationServices);
    assert!(matches!(g.handle_input(Key::Char('2'), true, &inv), Command::Refuel));
    g.current_screen = GameScreen::Market;
    assert!(matches!(g.handle_input(Key::Char('s'), true, &inv), Command::SetBuyMode(false)));
    assert!(matches!(g.handle_input(Key::Char('9'), true, &inv), Command::Trade(8)));
    g.current_screen = GameScreen::Mining;
    assert!(matches!(g.handle_input(Key::Char('3'), true, &inv), Command::Mine(2)));
    assert!(matches!(g.handle_input(Key::Char('4'), true, &inv), Command::Nothing));
    g.current_screen = GameScreen::Crafting;
    assert!(matches!(g.handle_input(Key::Char('5'), true, &inv), Command::Craft(4)));
}

#[test]
fn character_tabs_say_what_is_shown() {
    let mut g = Game::new();
    g.current_screen = GameScreen::Character;
    press(&mut g, &[Key::Char('3')]);
    assert_eq!(g.character_info_tab, 2);
    assert_eq!(g.message, Some("Viewing assets information".to_string()));
    press(&mut g, &[Key::Esc]);
    assert_eq!(g.current_screen, GameScreen::MainMenu);
}

#[test]
fn orders_need_docking_and_active_view() {
    let mut g = Game::new();
    g.current_screen = GameScreen::Orders;
    let mut inv = Inventory::new(50);
    assert!(matches!(g.handle_input(Key::Char('b'), false, &inv), Command::Nothing));
    assert_eq!(g.message, Some("You must be docked at a station to create orders".to_string()));
    match g.handle_input(Key::Char('b'), true, &inv) {
        Command::CreateBuyOrder { item_name, quantity, target_price, notes } => {
            assert_eq!(item_name, "Iron");
            assert_eq!(quantity, 10);
            assert_eq!(target_price, 50);
            assert_eq!(notes, "Test buy order");
        },
        other => panic!("unexpected {:?}", other),
    }
    assert!(matches!(g.handle_input(Key::Char('s'), true, &inv), Command::Nothing));
    assert_eq!(g.message, Some("You have no items to sell".to_string()));
    assert!(inv.add_item(Item::new("Gold", 120, 1, ItemType::Product), 2));
    match g.handle_input(Key::Char('s'), true, &inv) {
        Command::CreateSellOrder { item_name, quantity, target_price, .. } => {
            assert_eq!(item_name, "Gold");
            assert_eq!(quantity, 1);
            assert_eq!(target_price, 130);
        },
        other => panic!("unexpected {:?}", other),
    }
    assert!(matches!(g.handle_input(Key::Tab, true, &inv), Command::DeselectOrder));
    assert!(!g.orders_view_active);
    assert_eq!(g.message, Some("Viewing completed orders".to_string()));
    assert!(matches!(g.handle_input(Key::Char('c'), true, &inv), Command::Nothing));
    assert_eq!(g.message, Some("You can only cancel orders in the active orders view".to_string()));
    assert!(matches!(g.handle_input(Key::Up, true, &inv), Command::SelectPreviousOrder));
}

#[test]
fn refuel_outcomes() {
    let mut g = Game::new();
    let mut fuel = 300u32;
    let mut credits = 100u32;
    assert_eq!(g.refuel_ship(false, &mut fuel, 800, &mut credits), RefuelOutcome::NotDocked);
    assert_eq!(g.message, Some("You must be docked at a station to refuel".to_string()));
    assert_eq!(g.refuel_ship(true, &mut fuel, 800, &mut credits), RefuelOutcome::Unaffordable(12500));
    assert_eq!(g.message, Some("Not enough credits. Refueling costs 12500 credits".to_string()));
    credits = 20000;
    assert_eq!(g.refuel_ship(true, &mut fuel, 800, &mut credits), RefuelOutcome::Refueled(12500));
    assert_eq!(fuel, 800);
    assert_eq!(credits, 7500);
    assert_eq!(g.message, Some("Ship refueled for 12500 credits. Fuel now at 800/800".to_string()));
    assert_eq!(g.refuel_ship(true, &mut fuel, 800, &mut credits), RefuelOutcome::AlreadyFull);
    assert_eq!(g.message, Some("Ship fuel tank is already full".to_string()));
}

fn order(kind: OrderType, qty: u32, name: &str, price: u32) -> TradeOrder {
    TradeOrder {
        id: "o".to_string(),
        player_id: "p".to_string(),
        system_id: "sol".to_string(),
        item_name: name.to_string(),
        order_type: kind,
        quantity: qty,
        target_price: price,
        price_condition: "below".to_string(),
        status: OrderStatus::Completed,
        created_at: 0,
        expires_at: None,
        executed_at: Some(1),
        notes: String::new(),
    }
}

#[test]
fn executed_orders_notice_lists_three() {
    let orders = vec![
        order(OrderType::Buy, 10, "Iron", 50),
        order(OrderType::Sell, 2, "Gold", 300),
        order(OrderType::Buy, 1, "Water", 5),
        order(OrderType::Sell, 4, "Ice", 7),
        order(OrderType::Sell, 4, "Gas", 9),
    ];
    assert_eq!(
        space_trader::game::executed_orders_notice(&orders),
        "Order(s) executed: Bought 10 Iron at 50 credits, Sold 2 Gold at 300 credits, Bought 1 Water at 5 credits and 2 more"
    );
    assert_eq!(
        space_trader::game::executed_orders_notice(&orders[..1].to_vec()),
        "Order(s) executed: Bought 10 Iron at 50 credits"
    );
}

#[test]
fn tick_clears_old_messages_and_animates() {
    let mut g = Game::new();
    g.last_update = 1_000;
    g.update_at(1_050, &Vec::new());
    assert_eq!(g.animation_frame, 0);
    g.update_at(1_200, &vec![order(OrderType::Buy, 1, "Iron", 2)]);
    assert_eq!(g.animation_frame, 1);
    assert_eq!(g.message, Some("Order(s) executed: Bought 1 Iron at 2 credits".to_string()));
    assert_eq!(g.message_time, Some(1_200));
    g.update_at(4_000, &Vec::new());
    assert!(g.message.is_some());
    g.update_at(4_201, &Vec::new());
    assert!(g.message.is_none());
    assert!(g.message_time.is_none());
}

#[test]
fn orders_screen_lists_the_view_and_finds_the_selection() {
    let mut active = order(OrderType::Buy, 1, "Iron", 5);
    active.status = OrderStatus::Active;
    let orders = vec![
        active.clone(),
        order(OrderType::Sell, 2, "Gold", 300),
        active.clone(),
        order(OrderType::Buy, 3, "Ice", 7),
    ];
    let shown_active = space_trader::models::market::orders_in_view(&orders, true);
    assert_eq!(shown_active, vec![0, 2]);
    let shown_done = space_trader::models::market::orders_in_view(&orders, false);
    assert_eq!(shown_done, vec![1, 3]);
    assert_eq!(space_trader::models::market::shown_position(&shown_done, Some(3)), Some(1));
    assert_eq!(space_trader::models::market::shown_position(&shown_done, Some(2)), None);
    assert_eq!(space_trader::models::market::shown_position(&shown_done, None), None);
}
