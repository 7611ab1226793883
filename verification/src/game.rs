//! The game's screen flow: which screen is shown, what a key press does
//! there, and the character creation dialogue.
use vstd::prelude::*;
use crate::models::faction::{fresh_storyline, FactionType, Storyline, StorylineView};
use crate::models::item::{Inventory, ItemView};
use crate::platform::unix_now_millis;
use crate::models::market::{OrderType, TradeOrder};
use crate::text::{decimal, string_pop, string_push, u64_to_decimal};

verus! {

/// The screens of the game.
#[derive(Debug, Clone, Copy, PartialEq, Eq, Structural)]
pub enum GameScreen {
    MainMenu,
    CharacterCreation,
    Navigation,
    Market,
    Ship,
    Mining,
    Crafting,
    Inventory,
    Character,
    Orders,
    StationServices,
    Help,
    Quit,
}

/// A key press, as far as the game tells keys apart.
#[derive(Debug, Clone, Copy, PartialEq, Eq, Structural)]
pub enum Key {
    Char(char),
    Backspace,
    Enter,
    Esc,
    Up,
    Down,
    Tab,
    Other,
}

/// What the screen flow asks the rest of the game to do after a key press.
#[derive(Debug)]
pub enum Command {
    Nothing,
    Refuel,
    Travel(usize),
    Dock,
    Undock,
    SetBuyMode(bool),
    Trade(usize),
    Mine(usize),
    Craft(usize),
    CreateBuyOrder { item_name: String, quantity: u32, target_price: u32, notes: String },
    CreateSellOrder { item_name: String, quantity: u32, target_price: u32, notes: String },
    CancelOrder,
    SelectPreviousOrder,
    SelectNextOrder,
    DeselectOrder,
    CreateCharacter { name: String, faction: FactionType, storyline: Storyline },
}

/// The state of the screen flow. Times are milliseconds on the clock of
/// `unix_now_millis`.
#[derive(Debug)]
pub struct Game {
    pub current_screen: GameScreen,
    pub previous_screen: GameScreen,
    pub last_update: u64,
    pub game_over: bool,
    pub quit_confirmed: bool,
    pub message: Option<String>,
    pub message_time: Option<u64>,
    pub animation_frame: u64,
    pub show_animation_effects: bool,
    pub character_name: String,
    pub selected_faction: usize,
    pub selected_storyline: usize,
    pub creation_stage: u8,
    pub character_info_tab: usize,
    pub orders_view_active: bool,
}

pub struct GameView {
    pub current_screen: GameScreen,
    pub previous_screen: GameScreen,
    pub last_update: u64,
    pub game_over: bool,
    pub quit_confirmed: bool,
    pub message: Option<Seq<char>>,
    pub message_time: Option<u64>,
    pub animation_frame: u64,
    pub show_animation_effects: bool,
    pub character_name: Seq<char>,
    pub selected_faction: usize,
    pub selected_storyline: usize,
    pub creation_stage: u8,
    pub character_info_tab: usize,
    pub orders_view_active: bool,
}

impl View for Game {
    type V = GameView;

    open spec fn view(&self) -> GameView {
        GameView {
            current_screen: self.current_screen,
            previous_screen: self.previous_screen,
            last_update: self.last_update,
            game_over: self.game_over,
            quit_confirmed: self.quit_confirmed,
            message: match self.message {
                Some(m) => Some(m@),
                None => None,
            },
            message_time: self.message_time,
            animation_frame: self.animation_frame,
            show_animation_effects: self.show_animation_effects,
            character_name: self.character_name@,
            selected_faction: self.selected_faction,
            selected_storyline: self.selected_storyline,
            creation_stage: self.creation_stage,
            character_info_tab: self.character_info_tab,
            orders_view_active: self.orders_view_active,
        }
    }
}

/// The state after moving to screen `s`: the screen left becomes the previous one.
pub open spec fn switched(g: GameView, s: GameScreen) -> GameView {
    GameView { previous_screen: g.current_screen, current_screen: s, ..g }
}

/// `after` is `before` with message `m` shown, stamped at some time.
pub open spec fn shown(before: GameView, after: GameView, m: Seq<char>) -> bool {
    &&& after.message_time is Some
    &&& after == GameView { message: Some(m), message_time: after.message_time, ..before }
}

/// The faction picked by the faction choice `i` (the first one for any
/// choice out of range).
pub open spec fn faction_of(i: usize) -> FactionType {
    if i == 1 {
        FactionType::Miners
    } else if i == 2 {
        FactionType::Military
    } else if i == 3 {
        FactionType::Scientists
    } else {
        FactionType::Traders
    }
}

/// The value of a digit key '1'..='9'.
pub open spec fn digit_of(c: char) -> Option<usize> {
    if c == '1' { Some(1usize) }
    else if c == '2' { Some(2usize) }
    else if c == '3' { Some(3usize) }
    else if c == '4' { Some(4usize) }
    else if c == '5' { Some(5usize) }
    else if c == '6' { Some(6usize) }
    else if c == '7' { Some(7usize) }
    else if c == '8' { Some(8usize) }
    else if c == '9' { Some(9usize) }
    else { None }
}

fn digit_value(c: char) -> (r: Option<usize>)
    ensures
        r == digit_of(c),
{
    match c {
        '1' => Some(1),
        '2' => Some(2),
        '3' => Some(3),
        '4' => Some(4),
        '5' => Some(5),
        '6' => Some(6),
        '7' => Some(7),
        '8' => Some(8),
        '9' => Some(9),
        _ => None,
    }
}

/// The creation dialogue after key `k`, leaving aside the message it may show.
/// Stage 0 edits the name, 1 picks a faction, 2 a storyline, 3 confirms.
pub open spec fn creation_after(g: GameView, k: Key) -> GameView {
    let stage = g.creation_stage;
    if stage == 0 {
        match k {
            Key::Char(c) => GameView { character_name: g.character_name.push(c), ..g },
            Key::Backspace => if g.character_name.len() > 0 {
                GameView { character_name: g.character_name.drop_last(), ..g }
            } else {
                g
            },
            Key::Enter => if g.character_name.len() > 0 {
                GameView { creation_stage: 1, ..g }
            } else {
                g
            },
            _ => g,
        }
    } else if stage == 1 {
        match k {
            Key::Char(c) => if c == '1' || c == '2' || c == '3' || c == '4' {
                GameView { selected_faction: (digit_of(c)->0 - 1) as usize, creation_stage: 2, ..g }
            } else {
                g
            },
            Key::Backspace => GameView { creation_stage: 0, ..g },
            _ => g,
        }
    } else if stage == 2 {
        match k {
            Key::Char(c) => if c == '1' || c == '2' || c == '3' {
                GameView { selected_storyline: (digit_of(c)->0 - 1) as usize, creation_stage: 3, ..g }
            } else {
                g
            },
            Key::Backspace => GameView { creation_stage: 1, ..g },
            _ => g,
        }
    } else if stage == 3 {
        match k {
            Key::Char(c) => if c == 'y' {
                switched(g, GameScreen::MainMenu)
            } else if c == 'n' {
                GameView {
                    character_name: Seq::empty(),
                    selected_faction: 0,
                    selected_storyline: 0,
                    creation_stage: 0,
                    ..g
                }
            } else {
                g
            },
            Key::Backspace => GameView { creation_stage: 2, ..g },
            _ => g,
        }
    } else {
        GameView { creation_stage: 0, ..g }
    }
}

/// Whether key `k` confirms the character in this state.
pub open spec fn confirms_creation(g: GameView, k: Key) -> bool {
    g.creation_stage == 3 && k == Key::Char('y')
}

/// Whether key `k` is an attempt to leave the name stage with an empty name.
pub open spec fn empty_name_entered(g: GameView, k: Key) -> bool {
    g.creation_stage == 0 && k == Key::Enter && g.character_name.len() == 0
}

/// The storyline a new character of faction `f` starts with, for the
/// choice `index` (0, 1 or 2; any other choice gives the introductory one).
pub open spec fn chosen_storyline(f: FactionType, index: usize) -> StorylineView {
    match f {
        FactionType::Traders => if index == 0 {
            fresh_storyline("trader_commerce"@, FactionType::Traders, "Commerce Pioneer"@, "Establish trade routes throughout the galaxy and become a wealthy merchant."@, Seq::empty(), 5, Seq::empty())
        } else if index == 1 {
            fresh_storyline("trader_smuggler"@, FactionType::Traders, "Smuggler's Run"@, "Master the art of moving goods through dangerous territories for higher profits."@, Seq::empty(), 5, Seq::empty())
        } else if index == 2 {
            fresh_storyline("trader_entrepreneur"@, FactionType::Traders, "Galactic Entrepreneur"@, "Build your own trading empire by investing in stations and infrastructure."@, Seq::empty(), 5, Seq::empty())
        } else {
            fresh_storyline("trader_default"@, FactionType::Traders, "Getting Started"@, "Learn the basics of trading and navigation."@, Seq::empty(), 5, Seq::empty())
        },
        FactionType::Miners => if index == 0 {
            fresh_storyline("miner_prospector"@, FactionType::Miners, "Elite Prospector"@, "Discover and claim the richest mining locations in the galaxy."@, Seq::empty(), 5, Seq::empty())
        } else if index == 1 {
            fresh_storyline("miner_refiner"@, FactionType::Miners, "Master Refiner"@, "Specialize in processing raw materials into high-value refined goods."@, Seq::empty(), 5, Seq::empty())
        } else if index == 2 {
            fresh_storyline("miner_asteroids"@, FactionType::Miners, "Asteroid Baron"@, "Control the asteroid belts and establish mining operations throughout the system."@, Seq::empty(), 5, Seq::empty())
        } else {
            fresh_storyline("miner_default"@, FactionType::Miners, "Getting Started"@, "Learn the basics of mining and resource gathering."@, Seq::empty(), 5, Seq::empty())
        },
        FactionType::Military => if index == 0 {
            fresh_storyline("military_defense"@, FactionType::Military, "System Defense"@, "Protect civilian shipping lanes from pirates and other threats."@, Seq::empty(), 5, Seq::empty())
        } else if index == 1 {
            fresh_storyline("military_special_ops"@, FactionType::Military, "Special Operations"@, "Undertake covert missions in rival territories and hostile zones."@, Seq::empty(), 5, Seq::empty())
        } else if index == 2 {
            fresh_storyline("military_fleet"@, FactionType::Military, "Fleet Commander"@, "Lead a squadron of ships to maintain galactic peace and order."@, Seq::empty(), 5, Seq::empty())
        } else {
            fresh_storyline("military_default"@, FactionType::Military, "Getting Started"@, "Learn the basics of combat and fleet operations."@, Seq::empty(), 5, Seq::empty())
        },
        FactionType::Scientists => if index == 0 {
            fresh_storyline("scientist_researcher"@, FactionType::Scientists, "Research Pioneer"@, "Discover new technologies by studying cosmic phenomena and artifacts."@, Seq::empty(), 5, Seq::empty())
        } else if index == 1 {
            fresh_storyline("scientist_explorer"@, FactionType::Scientists, "Galactic Explorer"@, "Chart unexplored regions of space and document new discoveries."@, Seq::empty(), 5, Seq::empty())
        } else if index == 2 {
            fresh_storyline("scientist_biotech"@, FactionType::Scientists, "Biotechnology Expert"@, "Research alien biology and develop enhancements for human survival in space."@, Seq::empty(), 5, Seq::empty())
        } else {
            fresh_storyline("scientist_default"@, FactionType::Scientists, "Getting Started"@, "Learn the basics of research and exploration."@, Seq::empty(), 5, Seq::empty())
        },
    }
}

/// One step of the creation dialogue: the state after key `k` and what it asks for.
pub open spec fn creation_step(g: GameView, k: Key, after: GameView, r: Command) -> bool {
    &&& empty_name_entered(g, k) ==> shown(g, after, "Please enter a name"@)
    &&& !empty_name_entered(g, k) ==> after == creation_after(g, k)
    &&& confirms_creation(g, k) ==> (r matches Command::CreateCharacter { name, faction, storyline } && name@
        == g.character_name && faction == faction_of(g.selected_faction) && storyline@ == chosen_storyline(
        faction_of(g.selected_faction),
        g.selected_storyline,
    ))
    &&& !confirms_creation(g, k) ==> r is Nothing
}

impl Game {
    /// A fresh game that opens on character creation.
    pub fn new() -> (g: Game)
        ensures
            g@ == (GameView {
                current_screen: GameScreen::CharacterCreation,
                previous_screen: GameScreen::MainMenu,
                last_update: g@.last_update,
                game_over: false,
                quit_confirmed: false,
                message: None,
                message_time: None,
                animation_frame: 0,
                show_animation_effects: true,
                character_name: Seq::empty(),
                selected_faction: 0,
                selected_storyline: 0,
                creation_stage: 0,
                character_info_tab: 0,
                orders_view_active: true,
            }),
    {
        Game {
            current_screen: GameScreen::CharacterCreation,
            previous_screen: GameScreen::MainMenu,
            last_update: unix_now_millis(),
            game_over: false,
            quit_confirmed: false,
            message: None,
            message_time: None,
            animation_frame: 0,
            show_animation_effects: true,
            character_name: String::new(),
            selected_faction: 0,
            selected_storyline: 0,
            creation_stage: 0,
            character_info_tab: 0,
            orders_view_active: true,
        }
    }

    /// Moves to `screen`; the screen left becomes the previous one.
    pub fn change_screen(&mut self, screen: GameScreen)
        ensures
            final(self)@ == switched(old(self)@, screen),
    {
        self.previous_screen = self.current_screen;
        self.current_screen = screen;
    }

    /// Shows `message`, stamped with the current time.
    pub fn show_message(&mut self, message: &str)
        ensures
            shown(old(self)@, final(self)@, message@),
    {
        self.message = Some(String::from_str(message));
        self.message_time = Some(unix_now_millis());
    }

    /// Shows an already built message, stamped with the current time.
    pub fn show_formatted_message(&mut self, message: String)
        ensures
            shown(old(self)@, final(self)@, message@),
    {
        self.message = Some(message);
        self.message_time = Some(unix_now_millis());
    }

    /// The storyline chosen in this character creation for faction `faction`.
    pub fn get_selected_storyline(&self, faction: FactionType) -> (s: Storyline)
        ensures
            s@ == chosen_storyline(faction, self.selected_storyline),
    {
        let index = self.selected_storyline;
        match faction {
            FactionType::Traders => {
                if index == 0 {
                    Storyline::new("trader_commerce", FactionType::Traders, "Commerce Pioneer", "Establish trade routes throughout the galaxy and become a wealthy merchant.", 5)
                } else if index == 1 {
                    Storyline::new("trader_smuggler", FactionType::Traders, "Smuggler's Run", "Master the art of moving goods through dangerous territories for higher profits.", 5)
                } else if index == 2 {
                    Storyline::new("trader_entrepreneur", FactionType::Traders, "Galactic Entrepreneur", "Build your own trading empire by investing in stations and infrastructure.", 5)
                } else {
                    Storyline::new("trader_default", FactionType::Traders, "Getting Started", "Learn the basics of trading and navigation.", 5)
                }
            },
            FactionType::Miners => {
                if index == 0 {
                    Storyline::new("miner_prospector", FactionType::Miners, "Elite Prospector", "Discover and claim the richest mining locations in the galaxy.", 5)
                } else if index == 1 {
                    Storyline::new("miner_refiner", FactionType::Miners, "Master Refiner", "Specialize in processing raw materials into high-value refined goods.", 5)
                } else if index == 2 {
                    Storyline::new("miner_asteroids", FactionType::Miners, "Asteroid Baron", "Control the asteroid belts and establish mining operations throughout the system.", 5)
                } else {
                    Storyline::new("miner_default", FactionType::Miners, "Getting Started", "Learn the basics of mining and resource gathering.", 5)
                }
            },
            FactionType::Military => {
                if index == 0 {
                    Storyline::new("military_defense", FactionType::Military, "System Defense", "Protect civilian shipping lanes from pirates and other threats.", 5)
                } else if index == 1 {
                    Storyline::new("military_special_ops", FactionType::Military, "Special Operations", "Undertake covert missions in rival territories and hostile zones.", 5)
                } else if index == 2 {
                    Storyline::new("military_fleet", FactionType::Military, "Fleet Commander", "Lead a squadron of ships to maintain galactic peace and order.", 5)
                } else {
                    Storyline::new("military_default", FactionType::Military, "Getting Started", "Learn the basics of combat and fleet operations.", 5)
                }
            },
            FactionType::Scientists => {
                if index == 0 {
                    Storyline::new("scientist_researcher", FactionType::Scientists, "Research Pioneer", "Discover new technologies by studying cosmic phenomena and artifacts.", 5)
                } else if index == 1 {
                    Storyline::new("scientist_explorer", FactionType::Scientists, "Galactic Explorer", "Chart unexplored regions of space and document new discoveries.", 5)
                } else if index == 2 {
                    Storyline::new("scientist_biotech", FactionType::Scientists, "Biotechnology Expert", "Research alien biology and develop enhancements for human survival in space.", 5)
                } else {
                    Storyline::new("scientist_default", FactionType::Scientists, "Getting Started", "Learn the basics of research and exploration.", 5)
                }
            },
        }
    }

    /// One key press in the character creation dialogue. Confirming hands
    /// back the new character's name, faction and storyline, and returns
    /// to the main menu.
    pub fn handle_character_creation_input(&mut self, key: Key) -> (r: Command)
        ensures
            creation_step(old(self)@, key, final(self)@, r),
    {
        let stage = self.creation_stage;
        if stage == 0 {
            match key {
                Key::Char(c) => {
                    string_push(&mut self.character_name, c);
                },
                Key::Backspace => {
                    if !self.character_name.as_str().is_empty() {
                        let _ = string_pop(&mut self.character_name);
                    }
                },
                Key::Enter => {
                    if !self.character_name.as_str().is_empty() {
                        self.creation_stage = 1;
                    } else {
                        self.show_message("Please enter a name");
                    }
                },
                _ => {},
            }
            Command::Nothing
        } else if stage == 1 {
            match key {
                Key::Char(c) => {
                    if c == '1' || c == '2' || c == '3' || c == '4' {
                        let d = digit_value(c);
                        match d {
                            Some(n) => {
                                self.selected_faction = n - 1;
                                self.creation_stage = 2;
                            },
                            None => {},
                        }
                    }
                },
                Key::Backspace => {
                    self.creation_stage = 0;
                },
                _ => {},
            }
            Command::Nothing
        } else if stage == 2 {
            match key {
                Key::Char(c) => {
                    if c == '1' || c == '2' || c == '3' {
                        let d = digit_value(c);
                        match d {
                            Some(n) => {
                                self.selected_storyline = n - 1;
                                self.creation_stage = 3;
                            },
                            None => {},
                        }
                    }
                },
                Key::Backspace => {
                    self.creation_stage = 1;
                },
                _ => {},
            }
            Command::Nothing
        } else if stage == 3 {
            match key {
                Key::Char(c) => {
                    if c == 'y' {
                        let faction = if self.selected_faction == 1 {
                            FactionType::Miners
                        } else if self.selected_faction == 2 {
                            FactionType::Military
                        } else if self.selected_faction == 3 {
                            FactionType::Scientists
                        } else {
                            FactionType::Traders
                        };
                        let storyline = self.get_selected_storyline(faction);
                        let name = self.character_name.clone();
                        self.change_screen(GameScreen::MainMenu);
                        Command::CreateCharacter { name, faction, storyline }
                    } else if c == 'n' {
                        self.character_name = String::new();
                        self.selected_faction = 0;
                        self.selected_storyline = 0;
                        self.creation_stage = 0;
                        Command::Nothing
                    } else {
                        Command::Nothing
                    }
                },
                Key::Backspace => {
                    self.creation_stage = 2;
                    Command::Nothing
                },
                _ => Command::Nothing,
            }
        } else {
            self.creation_stage = 0;
            Command::Nothing
        }
    }
}


/// The screen that a main-menu key leads to.
pub open spec fn main_menu_target(c: char) -> Option<GameScreen> {
    if c == 'n' { Some(GameScreen::Navigation) }
    else if c == 'm' { Some(GameScreen::Market) }
    else if c == 's' { Some(GameScreen::Ship) }
    else if c == 'r' { Some(GameScreen::Mining) }
    else if c == 'c' { Some(GameScreen::Crafting) }
    else if c == 'i' { Some(GameScreen::Inventory) }
    else if c == 'p' { Some(GameScreen::Character) }
    else if c == 'o' { Some(GameScreen::Orders) }
    else if c == 't' { Some(GameScreen::StationServices) }
    else if c == 'h' { Some(GameScreen::Help) }
    else if c == 'q' { Some(GameScreen::Quit) }
    else { None }
}

/// The message shown when the character screen switches to tab `tab`.
pub open spec fn tab_message(tab: usize) -> Seq<char> {
    if tab == 0 {
        "Viewing skills information"@
    } else if tab == 1 {
        "Viewing reputation information"@
    } else if tab == 2 {
        "Viewing assets information"@
    } else {
        "Viewing background information"@
    }
}

/// Whether `k` is one of the character keys in `cs`.
pub open spec fn key_in(k: Key, cs: Seq<char>) -> bool {
    k matches Key::Char(c) && cs.contains(c)
}

/// The position (from 0) that a digit key names.
pub open spec fn digit_index(k: Key) -> usize {
    (digit_of(k->0)->0 - 1) as usize
}

/// Whether `k` is a digit key '1'..='9'.
pub open spec fn is_digit_key(k: Key) -> bool {
    k matches Key::Char(c) && digit_of(c) is Some
}

/// A key press that only knows the way back to the main menu.
pub open spec fn back_to_menu(g: GameView, k: Key) -> GameView {
    if k == Key::Char('m') {
        switched(g, GameScreen::MainMenu)
    } else {
        g
    }
}

/// The main menu after key `k`.
pub open spec fn main_menu_after(g: GameView, k: Key) -> GameView {
    match k {
        Key::Char(c) => match main_menu_target(c) {
            Some(s) => switched(g, s),
            None => g,
        },
        _ => g,
    }
}

/// The quit screen after key `k`.
pub open spec fn quit_after(g: GameView, k: Key) -> GameView {
    if k == Key::Char('y') {
        GameView { quit_confirmed: true, ..g }
    } else if k == Key::Char('n') {
        switched(GameView { quit_confirmed: false, ..g }, g.previous_screen)
    } else {
        g
    }
}

/// One step of the character screen.
pub open spec fn character_step(g: GameView, k: Key, after: GameView) -> bool {
    if k == Key::Char('m') || k == Key::Esc {
        after == switched(g, GameScreen::MainMenu)
    } else if key_in(k, seq!['1', '2', '3', '4']) {
        shown(GameView { character_info_tab: digit_index(k), ..g }, after, tab_message(digit_index(k)))
    } else {
        after == g
    }
}

/// One step of the station services screen.
pub open spec fn station_step(g: GameView, k: Key, after: GameView, r: Command) -> bool {
    &&& after == back_to_menu(g, k)
    &&& if k == Key::Char('2') { r is Refuel } else { r is Nothing }
}

/// One step of the mining screen.
pub open spec fn mining_step(g: GameView, k: Key, after: GameView, r: Command) -> bool {
    &&& after == back_to_menu(g, k)
    &&& if key_in(k, seq!['1', '2', '3']) { r == Command::Mine(digit_index(k)) } else { r is Nothing }
}

/// One step of the crafting screen.
pub open spec fn crafting_step(g: GameView, k: Key, after: GameView, r: Command) -> bool {
    &&& after == back_to_menu(g, k)
    &&& if key_in(k, seq!['1', '2', '3', '4', '5']) { r == Command::Craft(digit_index(k)) } else { r is Nothing }
}

/// One step of the market screen.
pub open spec fn market_step(g: GameView, k: Key, after: GameView, r: Command) -> bool {
    &&& after == back_to_menu(g, k)
    &&& if k == Key::Char('b') {
        r == Command::SetBuyMode(true)
    } else if k == Key::Char('s') {
        r == Command::SetBuyMode(false)
    } else if is_digit_key(k) {
        r == Command::Trade(digit_index(k))
    } else {
        r is Nothing
    }
}

/// One step of the navigation screen, given whether the ship is docked.
pub open spec fn navigation_step(g: GameView, k: Key, docked: bool, after: GameView, r: Command) -> bool {
    if is_digit_key(k) {
        r == Command::Travel(digit_index(k)) && after == g
    } else if k == Key::Char('d') {
        r is Dock && after == g
    } else if k == Key::Char('u') {
        if docked {
            r is Undock && shown(g, after, "Undocked from station"@)
        } else {
            r is Nothing && shown(g, after, "Not currently docked"@)
        }
    } else if k == Key::Char('t') {
        r is Nothing && if docked {
            after == switched(g, GameScreen::StationServices)
        } else {
            shown(g, after, "You must be docked at a station to access services"@)
        }
    } else {
        r is Nothing && after == back_to_menu(g, k)
    }
}

/// Why an order cannot be placed or cancelled now, if it cannot.
pub open spec fn order_refusal(g: GameView, docked: bool, what: Seq<char>) -> Option<Seq<char>> {
    if g.orders_view_active && docked {
        None
    } else if !docked {
        Some("You must be docked at a station to "@ + what + " orders"@)
    } else {
        Some("You can only "@ + what + " orders in the active orders view"@)
    }
}

/// One step of the orders screen, given whether the ship is docked and
/// what the player holds.
pub open spec fn orders_step(
    g: GameView,
    k: Key,
    docked: bool,
    held: Seq<(ItemView, u32)>,
    after: GameView,
    r: Command,
) -> bool {
    if k == Key::Char('m') || k == Key::Esc {
        r is Nothing && after == switched(g, GameScreen::MainMenu)
    } else if k == Key::Char('b') {
        match order_refusal(g, docked, "create"@) {
            Some(m) => r is Nothing && shown(g, after, m),
            None => after == g && (r matches Command::CreateBuyOrder { item_name, quantity, target_price, notes }
                && item_name@ == "Iron"@ && quantity == 10 && target_price == 50 && notes@ == "Test buy order"@),
        }
    } else if k == Key::Char('s') {
        match order_refusal(g, docked, "create"@) {
            Some(m) => r is Nothing && shown(g, after, m),
            None => if held.len() == 0 {
                r is Nothing && shown(g, after, "You have no items to sell"@)
            } else {
                after == g && (r matches Command::CreateSellOrder { item_name, quantity, target_price, notes }
                    && item_name@ == held[0].0.name && quantity == 1 && target_price == held[0].0.value + 10
                    && notes@ == "Test sell order"@)
            },
        }
    } else if k == Key::Char('c') {
        match order_refusal(g, docked, "cancel"@) {
            Some(m) => r is Nothing && shown(g, after, m),
            None => r is CancelOrder && after == g,
        }
    } else if k == Key::Up {
        r is SelectPreviousOrder && after == g
    } else if k == Key::Down {
        r is SelectNextOrder && after == g
    } else if k == Key::Tab {
        r is DeselectOrder && shown(
            GameView { orders_view_active: !g.orders_view_active, ..g },
            after,
            if g.orders_view_active { "Viewing completed orders"@ } else { "Viewing active orders"@ },
        )
    } else {
        r is Nothing && after == g
    }
}

/// One key press on whatever screen is shown.
pub open spec fn input_step(
    g: GameView,
    k: Key,
    docked: bool,
    held: Seq<(ItemView, u32)>,
    after: GameView,
    r: Command,
) -> bool {
    match g.current_screen {
        GameScreen::MainMenu => r is Nothing && after == main_menu_after(g, k),
        GameScreen::CharacterCreation => creation_step(g, k, after, r),
        GameScreen::Navigation => navigation_step(g, k, docked, after, r),
        GameScreen::Market => market_step(g, k, after, r),
        GameScreen::Ship => r is Nothing && after == back_to_menu(g, k),
        GameScreen::Mining => mining_step(g, k, after, r),
        GameScreen::Crafting => crafting_step(g, k, after, r),
        GameScreen::Inventory => r is Nothing && after == back_to_menu(g, k),
        GameScreen::Character => r is Nothing && character_step(g, k, after),
        GameScreen::Orders => orders_step(g, k, docked, held, after, r),
        GameScreen::StationServices => station_step(g, k, after, r),
        GameScreen::Help => r is Nothing && after == back_to_menu(g, k),
        GameScreen::Quit => r is Nothing && after == quit_after(g, k),
    }
}

impl Game {
    /// Main menu: each letter opens its screen; other keys do nothing.
    pub fn handle_main_menu_input(&mut self, key: Key)
        ensures
            final(self)@ == main_menu_after(old(self)@, key),
    {
        match key {
            Key::Char(c) => {
                let target = if c == 'n' {
                    Some(GameScreen::Navigation)
                } else if c == 'm' {
                    Some(GameScreen::Market)
                } else if c == 's' {
                    Some(GameScreen::Ship)
                } else if c == 'r' {
                    Some(GameScreen::Mining)
                } else if c == 'c' {
                    Some(GameScreen::Crafting)
                } else if c == 'i' {
                    Some(GameScreen::Inventory)
                } else if c == 'p' {
                    Some(GameScreen::Character)
                } else if c == 'o' {
                    Some(GameScreen::Orders)
                } else if c == 't' {
                    Some(GameScreen::StationServices)
                } else if c == 'h' {
                    Some(GameScreen::Help)
                } else if c == 'q' {
                    Some(GameScreen::Quit)
                } else {
                    None
                };
                match target {
                    Some(s) => self.change_screen(s),
                    None => {},
                }
            },
            _ => {},
        }
    }

    /// Quit screen: 'y' confirms; 'n' withdraws and goes back to the screen
    /// shown before.
    pub fn handle_quit_input(&mut self, key: Key)
        ensures
            final(self)@ == quit_after(old(self)@, key),
    {
        match key {
            Key::Char('y') => {
                self.quit_confirmed = true;
            },
            Key::Char('n') => {
                self.quit_confirmed = false;
                let back = self.previous_screen;
                self.change_screen(back);
            },
            _ => {},
        }
    }

    /// Asks to quit: on the quit screen this answers whether quitting was
    /// confirmed; anywhere else it opens the quit screen and answers no.
    pub fn confirm_quit(&mut self) -> (r: bool)
        ensures
            old(self).current_screen == GameScreen::Quit ==> r == old(self).quit_confirmed && final(self)@ == old(self)@,
            old(self).current_screen != GameScreen::Quit ==> !r && final(self)@ == switched(old(self)@, GameScreen::Quit),
    {
        if self.current_screen == GameScreen::Quit {
            return self.quit_confirmed;
        }
        self.change_screen(GameScreen::Quit);
        false
    }

    /// Returns to the main menu unless already there.
    pub fn cancel_action(&mut self)
        ensures
            old(self).current_screen != GameScreen::MainMenu ==> final(self)@ == switched(old(self)@, GameScreen::MainMenu),
            old(self).current_screen == GameScreen::MainMenu ==> final(self)@ == old(self)@,
    {
        if self.current_screen != GameScreen::MainMenu {
            self.change_screen(GameScreen::MainMenu);
        }
    }

    /// Whether the game has ended, by losing or by a confirmed quit.
    pub fn is_game_over(&self) -> (r: bool)
        ensures
            r == (self.game_over || self.quit_confirmed),
    {
        self.game_over || self.quit_confirmed
    }

    /// Ship screen: only the way back to the menu.
    pub fn handle_ship_input(&mut self, key: Key)
        ensures
            final(self)@ == back_to_menu(old(self)@, key),
    {
        if key == Key::Char('m') {
            self.change_screen(GameScreen::MainMenu);
        }
    }

    /// Inventory screen: only the way back to the menu.
    pub fn handle_inventory_input(&mut self, key: Key)
        ensures
            final(self)@ == back_to_menu(old(self)@, key),
    {
        if key == Key::Char('m') {
            self.change_screen(GameScreen::MainMenu);
        }
    }

    /// Help screen: only the way back to the menu.
    pub fn handle_help_input(&mut self, key: Key)
        ensures
            final(self)@ == back_to_menu(old(self)@, key),
    {
        if key == Key::Char('m') {
            self.change_screen(GameScreen::MainMenu);
        }
    }

    /// Character screen: 'm' or Esc go back; '1'..='4' pick a tab and say so.
    pub fn handle_character_input(&mut self, key: Key)
        ensures
            character_step(old(self)@, key, final(self)@),
    {
        proof {
            assert(seq!['1', '2', '3', '4'].contains('1')) by { assert(seq!['1', '2', '3', '4'][0] == '1'); }
            assert(seq!['1', '2', '3', '4'].contains('2')) by { assert(seq!['1', '2', '3', '4'][1] == '2'); }
            assert(seq!['1', '2', '3', '4'].contains('3')) by { assert(seq!['1', '2', '3', '4'][2] == '3'); }
            assert(seq!['1', '2', '3', '4'].contains('4')) by { assert(seq!['1', '2', '3', '4'][3] == '4'); }
        }
        match key {
            Key::Char('m') | Key::Esc => self.change_screen(GameScreen::MainMenu),
            Key::Char('1') => {
                self.character_info_tab = 0;
                self.show_message("Viewing skills information");
            },
            Key::Char('2') => {
                self.character_info_tab = 1;
                self.show_message("Viewing reputation information");
            },
            Key::Char('3') => {
                self.character_info_tab = 2;
                self.show_message("Viewing assets information");
            },
            Key::Char('4') => {
                self.character_info_tab = 3;
                self.show_message("Viewing background information");
            },
            _ => {},
        }
    }

    /// Station services: '2' asks for a refuel, 'm' goes back.
    pub fn handle_station_services_input(&mut self, key: Key) -> (r: Command)
        ensures
            station_step(old(self)@, key, final(self)@, r),
    {
        match key {
            Key::Char('2') => Command::Refuel,
            Key::Char('m') => {
                self.change_screen(GameScreen::MainMenu);
                Command::Nothing
            },
            _ => Command::Nothing,
        }
    }

    /// Mining screen: '1'..='3' mine the resource at that position.
    pub fn handle_mining_input(&mut self, key: Key) -> (r: Command)
        ensures
            mining_step(old(self)@, key, final(self)@, r),
    {
        let picks = key_index(key, 3);
        match picks {
            Some(i) => Command::Mine(i),
            None => {
                if key == Key::Char('m') {
                    self.change_screen(GameScreen::MainMenu);
                }
                Command::Nothing
            },
        }
    }

    /// Crafting screen: '1'..='5' craft the blueprint at that position.
    pub fn handle_crafting_input(&mut self, key: Key) -> (r: Command)
        ensures
            crafting_step(old(self)@, key, final(self)@, r),
    {
        let picks = key_index(key, 5);
        match picks {
            Some(i) => Command::Craft(i),
            None => {
                if key == Key::Char('m') {
                    self.change_screen(GameScreen::MainMenu);
                }
                Command::Nothing
            },
        }
    }

    /// Market screen: 'b' and 's' pick buying or selling, a digit trades
    /// the item at that position.
    pub fn handle_market_input(&mut self, key: Key) -> (r: Command)
        ensures
            market_step(old(self)@, key, final(self)@, r),
    {
        if key == Key::Char('b') {
            return Command::SetBuyMode(true);
        }
        if key == Key::Char('s') {
            return Command::SetBuyMode(false);
        }
        match key_index(key, 9) {
            Some(i) => Command::Trade(i),
            None => {
                if key == Key::Char('m') {
                    self.change_screen(GameScreen::MainMenu);
                }
                Command::Nothing
            },
        }
    }

    /// Navigation screen: a digit travels to that nearby system, 'd' docks,
    /// 'u' undocks, 't' opens station services when docked.
    pub fn handle_navigation_input(&mut self, key: Key, docked: bool) -> (r: Command)
        ensures
            navigation_step(old(self)@, key, docked, final(self)@, r),
    {
        match key_index(key, 9) {
            Some(i) => Command::Travel(i),
            None => {
                if key == Key::Char('d') {
                    Command::Dock
                } else if key == Key::Char('u') {
                    if docked {
                        self.show_message("Undocked from station");
                        Command::Undock
                    } else {
                        self.show_message("Not currently docked");
                        Command::Nothing
                    }
                } else if key == Key::Char('t') {
                    if docked {
                        self.change_screen(GameScreen::StationServices);
                    } else {
                        self.show_message("You must be docked at a station to access services");
                    }
                    Command::Nothing
                } else {
                    if key == Key::Char('m') {
                        self.change_screen(GameScreen::MainMenu);
                    }
                    Command::Nothing
                }
            },
        }
    }
}

/// The position named by a digit key '1'..=`max` (as `max` goes up to 9).
fn key_index(key: Key, max: usize) -> (r: Option<usize>)
    requires
        1 <= max <= 9,
    ensures
        r matches Some(i) ==> is_digit_key(key) && i == digit_index(key) && digit_of(key->0)->0 <= max,
        r is None ==> !(is_digit_key(key) && digit_of(key->0)->0 <= max),
        max == 3 ==> (r is Some <==> key_in(key, seq!['1', '2', '3'])),
        max == 5 ==> (r is Some <==> key_in(key, seq!['1', '2', '3', '4', '5'])),
        max == 9 ==> (r is Some <==> is_digit_key(key)),
{
    proof {
        let s3 = seq!['1', '2', '3'];
        let s5 = seq!['1', '2', '3', '4', '5'];
        assert(s3[0] == '1' && s3[1] == '2' && s3[2] == '3');
        assert(s5[0] == '1' && s5[1] == '2' && s5[2] == '3' && s5[3] == '4' && s5[4] == '5');
    }
    match key {
        Key::Char(c) => match digit_value(c) {
            Some(n) => if n <= max { Some(n - 1) } else { None },
            None => None,
        },
        _ => None,
    }
}

impl Game {
    /// Orders screen. Placing or cancelling orders needs the ship docked and
    /// the active-orders view; selling offers one unit of the first item held
    /// at 10 credits above its value.
    pub fn handle_orders_input(&mut self, key: Key, docked: bool, inventory: &Inventory) -> (r: Command)
        requires
            key == Key::Char('s') && old(self).orders_view_active && docked && inventory@.len() > 0 ==> inventory@[0].0.value
                + 10 <= u32::MAX,
        ensures
            orders_step(old(self)@, key, docked, inventory@, final(self)@, r),
    {
        if key == Key::Char('m') || key == Key::Esc {
            self.change_screen(GameScreen::MainMenu);
            return Command::Nothing;
        }
        if key == Key::Char('b') || key == Key::Char('s') || key == Key::Char('c') {
            let creating = key != Key::Char('c');
            proof {
                reveal_strlit("You must be docked at a station to ");
                reveal_strlit(" orders");
                reveal_strlit("You can only ");
                reveal_strlit(" orders in the active orders view");
                reveal_strlit("create");
                reveal_strlit("cancel");
                reveal_strlit("You must be docked at a station to create orders");
                reveal_strlit("You must be docked at a station to cancel orders");
                reveal_strlit("You can only create orders in the active orders view");
                reveal_strlit("You can only cancel orders in the active orders view");
                assert("You must be docked at a station to "@ + "create"@ + " orders"@
                    =~= "You must be docked at a station to create orders"@);
                assert("You must be docked at a station to "@ + "cancel"@ + " orders"@
                    =~= "You must be docked at a station to cancel orders"@);
                assert("You can only "@ + "create"@ + " orders in the active orders view"@
                    =~= "You can only create orders in the active orders view"@);
                assert("You can only "@ + "cancel"@ + " orders in the active orders view"@
                    =~= "You can only cancel orders in the active orders view"@);
            }
            if !docked {
                if creating {
                    self.show_message("You must be docked at a station to create orders");
                } else {
                    self.show_message("You must be docked at a station to cancel orders");
                }
                return Command::Nothing;
            }
            if !self.orders_view_active {
                if creating {
                    self.show_message("You can only create orders in the active orders view");
                } else {
                    self.show_message("You can only cancel orders in the active orders view");
                }
                return Command::Nothing;
            }
            if key == Key::Char('b') {
                return Command::CreateBuyOrder {
                    item_name: String::from_str("Iron"),
                    quantity: 10,
                    target_price: 50,
                    notes: String::from_str("Test buy order"),
                };
            }
            if key == Key::Char('c') {
                return Command::CancelOrder;
            }
            if inventory.items.len() == 0 {
                self.show_message("You have no items to sell");
                return Command::Nothing;
            }
            let first = &inventory.items[0].0;
            proof {
                assert(inventory@[0].0 == first@);
            }
            return Command::CreateSellOrder {
                item_name: first.name.clone(),
                quantity: 1,
                target_price: first.value + 10,
                notes: String::from_str("Test sell order"),
            };
        }
        match key {
            Key::Up => Command::SelectPreviousOrder,
            Key::Down => Command::SelectNextOrder,
            Key::Tab => {
                self.orders_view_active = !self.orders_view_active;
                if self.orders_view_active {
                    self.show_message("Viewing active orders");
                } else {
                    self.show_message("Viewing completed orders");
                }
                Command::DeselectOrder
            },
            _ => Command::Nothing,
        }
    }

    /// One key press on whatever screen is shown, given whether the ship is
    /// docked and what the player holds.
    pub fn handle_input(&mut self, key: Key, docked: bool, inventory: &Inventory) -> (r: Command)
        requires
            old(self).current_screen == GameScreen::Orders && key == Key::Char('s') && old(self).orders_view_active && docked
                && inventory@.len() > 0 ==> inventory@[0].0.value + 10 <= u32::MAX,
        ensures
            input_step(old(self)@, key, docked, inventory@, final(self)@, r),
    {
        match self.current_screen {
            GameScreen::MainMenu => {
                self.handle_main_menu_input(key);
                Command::Nothing
            },
            GameScreen::CharacterCreation => self.handle_character_creation_input(key),
            GameScreen::Navigation => self.handle_navigation_input(key, docked),
            GameScreen::Market => self.handle_market_input(key),
            GameScreen::Ship => {
                self.handle_ship_input(key);
                Command::Nothing
            },
            GameScreen::Mining => self.handle_mining_input(key),
            GameScreen::Crafting => self.handle_crafting_input(key),
            GameScreen::Inventory => {
                self.handle_inventory_input(key);
                Command::Nothing
            },
            GameScreen::Character => {
                self.handle_character_input(key);
                Command::Nothing
            },
            GameScreen::Orders => self.handle_orders_input(key, docked, inventory),
            GameScreen::StationServices => self.handle_station_services_input(key),
            GameScreen::Help => {
                self.handle_help_input(key);
                Command::Nothing
            },
            GameScreen::Quit => {
                self.handle_quit_input(key);
                Command::Nothing
            },
        }
    }
}

/// How one executed order is reported.
pub open spec fn order_phrase(o: TradeOrder) -> Seq<char> {
    (if o.order_type == OrderType::Buy { "Bought "@ } else { "Sold "@ }) + decimal(o.quantity as nat) + " "@
        + o.item_name@ + " at "@ + decimal(o.target_price as nat) + " credits"@
}

/// The first `k` order phrases, separated by ", ".
pub open spec fn phrases_joined(orders: Seq<TradeOrder>, k: nat) -> Seq<char>
    decreases k,
{
    if k == 0 {
        Seq::empty()
    } else if k == 1 {
        order_phrase(orders[0])
    } else {
        phrases_joined(orders, (k - 1) as nat) + ", "@ + order_phrase(orders[k - 1])
    }
}

/// The notice for a batch of executed orders: at most three are spelled
/// out, the rest are counted.
pub open spec fn executed_notice(orders: Seq<TradeOrder>) -> Seq<char> {
    if orders.len() > 3 {
        "Order(s) executed: "@ + phrases_joined(orders, 3) + " and "@ + decimal((orders.len() - 3) as nat) + " more"@
    } else {
        "Order(s) executed: "@ + phrases_joined(orders, orders.len())
    }
}

/// The notice a tick shows for the orders executed since the last one.
pub open spec fn notice_for(orders: Seq<TradeOrder>) -> Option<Seq<char>> {
    if orders.len() > 0 {
        Some(executed_notice(orders))
    } else {
        None
    }
}

/// The time elapsed from `earlier` to `later`, 0 if the clock went back.
pub open spec fn elapsed(later: u64, earlier: u64) -> u64 {
    if later >= earlier { (later - earlier) as u64 } else { 0 }
}

/// The state after a tick at time `now`, given the notice it shows if any.
pub open spec fn ticked(g: GameView, now: u64, notice: Option<Seq<char>>) -> GameView {
    let delta = elapsed(now, g.last_update);
    let (message, message_time) = match notice {
        Some(m) => (Some(m), Some(now)),
        None => (g.message, g.message_time),
    };
    let frame = if g.show_animation_effects && delta > 100 { (g.animation_frame + 1) as u64 } else { g.animation_frame };
    let expired = message_time matches Some(t) && elapsed(now, t) > 3000;
    GameView {
        last_update: now,
        animation_frame: frame,
        message: if expired { None } else { message },
        message_time: if expired { None } else { message_time },
        ..g
    }
}

/// The outcome of a refuel request.
#[derive(Debug, Clone, Copy, PartialEq, Eq, Structural)]
pub enum RefuelOutcome {
    NotDocked,
    AlreadyFull,
    Unaffordable(u32),
    Refueled(u32),
}

/// Credits per unit of fuel.
pub const FUEL_PRICE: u32 = 25;

/// What a refuel request comes to.
pub open spec fn refuel_outcome(docked: bool, fuel: u32, capacity: u32, credits: u32) -> RefuelOutcome {
    if !docked {
        RefuelOutcome::NotDocked
    } else if fuel >= capacity {
        RefuelOutcome::AlreadyFull
    } else {
        let cost = ((capacity - fuel) * FUEL_PRICE) as u32;
        if credits < cost {
            RefuelOutcome::Unaffordable(cost)
        } else {
            RefuelOutcome::Refueled(cost)
        }
    }
}

/// The message shown for a refuel outcome.
pub open spec fn refuel_message(o: RefuelOutcome, capacity: u32) -> Seq<char> {
    match o {
        RefuelOutcome::NotDocked => "You must be docked at a station to refuel"@,
        RefuelOutcome::AlreadyFull => "Ship fuel tank is already full"@,
        RefuelOutcome::Unaffordable(cost) => "Not enough credits. Refueling costs "@ + decimal(cost as nat) + " credits"@,
        RefuelOutcome::Refueled(cost) => "Ship refueled for "@ + decimal(cost as nat) + " credits. Fuel now at "@ + decimal(
            capacity as nat,
        ) + "/"@ + decimal(capacity as nat),
    }
}

fn order_phrase_text(o: &TradeOrder) -> (s: String)
    ensures
        s@ == order_phrase(*o),
{
    let mut s = if o.order_type == OrderType::Buy {
        String::from_str("Bought ")
    } else {
        String::from_str("Sold ")
    };
    s.append(u64_to_decimal(o.quantity as u64).as_str());
    s.append(" ");
    s.append(o.item_name.as_str());
    s.append(" at ");
    s.append(u64_to_decimal(o.target_price as u64).as_str());
    s.append(" credits");
    s
}

/// The notice for executed orders, as shown to the player.
pub fn executed_orders_notice(orders: &Vec<TradeOrder>) -> (s: String)
    requires
        orders.len() > 0,
    ensures
        s@ == executed_notice(orders@),
{
    let mut s = String::from_str("Order(s) executed: ");
    let ghost head = s@;
    let mut i: usize = 0;
    let n = orders.len();
    while i < n
        invariant_except_break
            i <= n,
            n == orders@.len(),
            head == "Order(s) executed: "@,
            i <= 3,
            (i == 3 ==> n <= 3),
            s@ == head + phrases_joined(orders@, i as nat),
        ensures
            s@ == executed_notice(orders@),
        decreases n - i,
    {
        if i > 0 {
            s.append(", ");
        }
        let phrase = order_phrase_text(&orders[i]);
        s.append(phrase.as_str());
        proof {
            if i == 0 {
                assert(s@ =~= head + phrases_joined(orders@, 1));
            } else {
                assert(s@ =~= head + phrases_joined(orders@, (i + 1) as nat));
            }
        }
        if i >= 2 && n > 3 {
            s.append(" and ");
            s.append(u64_to_decimal((n - 3) as u64).as_str());
            s.append(" more");
            proof {
                assert(s@ =~= executed_notice(orders@));
            }
            break;
        }
        i = i + 1;
    }
    s
}

impl Game {
    /// A tick of the clock at time `now`: reports executed orders, advances
    /// the animation after more than 100 ms, and drops messages older than
    /// three seconds.
    pub fn update_at(&mut self, now: u64, executed_orders: &Vec<TradeOrder>)
        requires
            old(self).animation_frame < u64::MAX,
        ensures
            final(self)@ == ticked(
                old(self)@,
                now,
                notice_for(executed_orders@),
            ),
    {
        let delta = if now >= self.last_update { now - self.last_update } else { 0 };
        self.last_update = now;
        if executed_orders.len() > 0 {
            let notice = executed_orders_notice(executed_orders);
            self.message = Some(notice);
            self.message_time = Some(now);
        }
        if self.show_animation_effects && delta > 100 {
            self.animation_frame = self.animation_frame + 1;
        }
        let expired = match self.message_time {
            Some(t) => (if now >= t { now - t } else { 0 }) > 3000,
            None => false,
        };
        if expired {
            self.message = None;
            self.message_time = None;
        }
    }

    /// A tick of the clock at the current time.
    pub fn update(&mut self, executed_orders: &Vec<TradeOrder>)
        requires
            old(self).animation_frame < u64::MAX,
        ensures
            exists|now: u64| #[trigger]
                ticked(
                    old(self)@,
                    now,
                    notice_for(executed_orders@),
                ) == final(self)@,
    {
        let now = unix_now_millis();
        self.update_at(now, executed_orders);
    }

    /// Refuels the ship to capacity at the fuel price when docked and
    /// affordable, and says how it went.
    pub fn refuel_ship(&mut self, docked: bool, current_fuel: &mut u32, fuel_capacity: u32, credits: &mut u32) -> (r:
        RefuelOutcome)
        requires
            *old(current_fuel) < fuel_capacity ==> (fuel_capacity - *old(current_fuel)) * FUEL_PRICE <= u32::MAX,
        ensures
            r == refuel_outcome(docked, *old(current_fuel), fuel_capacity, *old(credits)),
            shown(old(self)@, final(self)@, refuel_message(r, fuel_capacity)),
            r matches RefuelOutcome::Refueled(cost) ==> *final(credits) == *old(credits) - cost && *final(current_fuel)
                == fuel_capacity,
            !(r is Refueled) ==> *final(credits) == *old(credits) && *final(current_fuel) == *old(current_fuel),
    {
        if !docked {
            self.show_message("You must be docked at a station to refuel");
            return RefuelOutcome::NotDocked;
        }
        if *current_fuel >= fuel_capacity {
            self.show_message("Ship fuel tank is already full");
            return RefuelOutcome::AlreadyFull;
        }
        let missing = fuel_capacity - *current_fuel;
        let cost = missing * FUEL_PRICE;
        if *credits < cost {
            let mut m = String::from_str("Not enough credits. Refueling costs ");
            m.append(u64_to_decimal(cost as u64).as_str());
            m.append(" credits");
            self.show_formatted_message(m);
            return RefuelOutcome::Unaffordable(cost);
        }
        *credits = *credits - cost;
        *current_fuel = fuel_capacity;
        let mut m = String::from_str("Ship refueled for ");
        m.append(u64_to_decimal(cost as u64).as_str());
        m.append(" credits. Fuel now at ");
        m.append(u64_to_decimal(fuel_capacity as u64).as_str());
        m.append("/");
        m.append(u64_to_decimal(fuel_capacity as u64).as_str());
        self.show_formatted_message(m);
        RefuelOutcome::Refueled(cost)
    }
}

/// Asking to quit from any other screen and then declining returns to
/// that screen, with quitting not confirmed.
pub proof fn law_quit_then_decline_returns(g: GameView)
    requires
        g.current_screen != GameScreen::Quit,
    ensures
        quit_after(switched(g, GameScreen::Quit), Key::Char('n')).current_screen == g.current_screen,
        !quit_after(switched(g, GameScreen::Quit), Key::Char('n')).quit_confirmed,
{
}

/// In the creation dialogue, Backspace right after picking a faction or a
/// storyline goes back to that choice, keeping the name.
pub proof fn law_backspace_returns_to_choice(g: GameView, c: char)
    requires
        g.creation_stage == 1 && (c == '1' || c == '2' || c == '3' || c == '4') || g.creation_stage == 2 && (c == '1'
            || c == '2' || c == '3'),
    ensures
        creation_after(creation_after(g, Key::Char(c)), Key::Backspace).creation_stage == g.creation_stage,
        creation_after(creation_after(g, Key::Char(c)), Key::Backspace).character_name == g.character_name,
{
}

/// Typing a character and then Backspace on the name leaves the name as it was.
pub proof fn law_type_then_erase(g: GameView, c: char)
    requires
        g.creation_stage == 0,
    ensures
        creation_after(creation_after(g, Key::Char(c)), Key::Backspace).character_name == g.character_name,
{
    assert(g.character_name.push(c).drop_last() =~= g.character_name);
}

/// A completed refuel leaves the tank full: a second request is told so.
pub proof fn law_refuel_fills_tank(fuel: u32, capacity: u32, credits: u32, cost: u32)
    requires
        fuel < capacity ==> (capacity - fuel) * FUEL_PRICE <= u32::MAX,
        refuel_outcome(true, fuel, capacity, credits) == RefuelOutcome::Refueled(cost),
    ensures
        cost <= credits,
        refuel_outcome(true, capacity, capacity, (credits - cost) as u32) == RefuelOutcome::AlreadyFull,
{
}

} // verus!
