//! Core rules of a space trading game: inventories, accounts, markets,
//! factions, crafting and diagnostics bookkeeping, with their contracts.
pub mod text;
pub mod keyed;
pub mod platform;
pub mod models;
pub mod game;
pub mod debug;
pub mod systems;
pub mod ui;
pub mod network;
