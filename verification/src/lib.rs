pub mod config;
pub mod icon;
pub mod kill;
pub mod menu;
pub mod model;
pub mod notify;
pub mod text;
pub mod update;
