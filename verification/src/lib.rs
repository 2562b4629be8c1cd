//! Simulation core of a side-scrolling arcade game.

pub mod beans;
pub mod fixed;
pub mod game;
pub mod input;
pub mod player;
pub mod utils;
