//! The verified core of EndlessOpt, a Windows system optimizer: validation of names and
//! configurations, the decisions of memory cleaning, process priorities and game mode,
//! and the texts that report on them.

pub mod text;
pub mod common;
pub mod validation;
pub mod config;
pub mod memory;
pub mod process;
pub mod utils;
pub mod gui;
