pub mod manager;
pub mod gamemode;
