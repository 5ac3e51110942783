//! Engine for a Langton's-Ant-style cellular automaton: agents walk a
//! toroidal grid of colored cells, marking or erasing the cell under them
//! and turning according to a fixed two-state rule.

pub mod agent;
pub mod color;
pub mod grid;
mod rng;
pub mod sim;
