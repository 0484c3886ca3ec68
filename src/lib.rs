//! Stamp tour: participants register, visit checkpoints, and redeem each
//! visit exactly once into an append-only history.
pub mod outside;
pub mod table;
pub mod records;
pub mod tour;
pub mod laws;
pub mod args;
pub mod query;
pub mod assets;
