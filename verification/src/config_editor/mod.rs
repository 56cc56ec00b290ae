//! What the configuration editor shows.

pub mod tree;
