//! What the operations are for, stated on their inputs and results: each law
//! says in its own words what a result must satisfy or how two results relate,
//! for every input.

pub mod command_line;
pub mod finding;
pub mod jobs;
pub mod launching;
pub mod screen;
pub mod words;
