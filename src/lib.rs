//! Grid-world simulation core: procedural boards, a stochastic two-mover
//! turn model, reward and termination rules, and state enumeration.

pub mod agent;
pub mod config;
pub mod random;
pub mod board;
pub mod layout;
pub mod generation;
pub mod game_state;
pub mod laws;
