//! `cargo-bay`: browse, run, and rebuild every binary in a Cargo workspace.
//!
//! This library holds what the program decides; the terminal, the file system
//! and the processes belong to the program around it. [`cli`] reads the
//! command line, [`discover`] and [`resolve`] find the apps and how each one
//! starts, [`job`] keeps the background work, [`launcher`] and [`events`] turn
//! keys and clicks into actions, and [`ui`] composes the screen.

pub mod cli;
pub mod discover;
pub mod events;
pub mod geometry;
pub mod job;
pub mod launcher;
pub mod laws;
pub mod ordering;
pub mod paths;
pub mod resolve;
pub mod text;
pub mod text_map;
pub mod theme;
pub mod ui;
pub mod workspace;
