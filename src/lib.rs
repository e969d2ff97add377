//! Replays a commit as a simulated live-typing session: a diff is compiled
//! into an ordered stream of edit and cursor steps, and a scheduler plays that
//! stream against a clock while an editor buffer and its syntax colouring
//! follow along.

pub mod buffer;
pub mod compile;
pub mod diff;
pub mod engine;
pub mod highlight;
pub mod layout;
pub mod motion;
pub mod replay;
pub mod script;
pub mod session;
pub mod step;
pub mod text;
pub mod tree;
