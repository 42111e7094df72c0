//! Decision logic of a layer-shell video wallpaper player.
pub mod cli;
pub mod config;
pub mod control;
pub mod error;
pub mod handover;
pub mod holder;
pub mod mpv;
pub mod numtext;
pub mod process;
pub mod render;
pub mod startup;
pub mod wayland;
pub mod text;

pub use error::{AppError, Result};
