//! Core of a tile-based beam puzzle: a rectangular grid of coded tiles, a
//! light beam cast from a source tile and bent by mirrors and teleports, and
//! a drag resolver that slides movable pieces along the grid tracks.

pub mod geom;
pub mod tile;
pub mod level;
pub mod beam;
pub mod drag;
pub mod ui;
pub mod config;
pub mod game;
pub mod page_router;
