//! The sim: the mission engine's timing, input, display and music fixes.

pub mod camera;
pub mod carry;
pub mod cd_audio;
pub mod hud;
pub mod input;
pub mod jumpjets;
pub mod shots;
pub mod stats;
pub mod timing;
pub mod window;
