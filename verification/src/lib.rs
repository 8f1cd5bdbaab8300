pub mod auth;
pub mod battle;
pub mod battle_state;
pub mod catalog;
pub mod config;
pub mod core_buffer;
pub mod device;
pub mod error;
pub mod events;
pub mod json;
pub mod messages;
pub mod number;
pub mod paths;
pub mod playtools;
pub mod screen;
pub mod server;
pub mod session;
pub mod text;
pub mod tools;
