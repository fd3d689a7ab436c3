//! The rules of a small tile-based chase game: a catalogue of maps, the tile
//! grid and its collision cells, the player's movement, and the director that
//! plays the scripted camera scenes.
//!
//! Everything here is deterministic integer arithmetic. Lengths are counted in
//! thousandths of a world unit, times in microseconds, scales and directions
//! in thousandths. Rendering, sound and input live outside the library and
//! talk to it through plain values.

pub mod audio;
pub mod frame;
pub mod game;
pub mod loading;
pub mod map;
pub mod player;
pub mod scenes;
pub mod ui;
pub mod units;
