pub mod ascii_art;
pub mod character_info;
pub mod style;
