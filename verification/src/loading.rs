//! The files the game is made of.

pub mod paths;
