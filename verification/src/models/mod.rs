pub mod item;
pub mod skills;
pub mod faction;
pub mod account;
pub mod player_market;
pub mod market;
pub mod universe;
pub mod ship;
pub mod blueprint;
pub mod player;
