//! The shell: the menus, screens and prompts around the missions.

pub mod audio;
pub mod confirm;
pub mod cursor;
pub mod debug;
pub mod dialog;
pub mod menu;
pub mod mouse;
pub mod screens;
pub mod mechbay;
pub mod variants;
pub mod roster;
pub mod settings;
pub mod smacker;
