pub mod crafting;
pub mod mining;
pub mod trading;
pub mod navigation;
