//! A parallel matrix computation engine with cooperative deadlines: work over
//! a rows-by-columns grid is planned as disjoint row chunks, each cell is
//! transformed by a pure kernel, and a run stops early once a shared
//! cancellation flag is set or the configured deadline has elapsed, returning
//! the finished prefix together with completion accounting.

pub mod chunk;
pub mod config;
pub mod grid;
pub mod kernel;
pub mod token;
pub mod clock;
pub mod engine;
