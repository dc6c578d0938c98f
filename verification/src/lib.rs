pub mod database;
pub mod services;
pub mod tui;
pub mod utils;
