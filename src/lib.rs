pub mod board;
pub mod error;
pub mod tree;
pub mod evaluation;
pub mod solver;
