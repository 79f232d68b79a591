//! The rules of a grid shooter: ships that follow scripted moves, a board
//! that holds them, a player, and the settings and controls that steer the
//! game.

pub mod arduino;
pub mod board;
pub mod fly_patterns;
pub mod game;
pub mod game_state;
pub mod player;
pub mod score_display;
pub mod settings;
pub mod ship;
pub mod structs;
mod outside;
