//! A verified record store for a small game's server state: players,
//! achievements and inventory items, a shared monotonic identifier counter,
//! and the two cross-entity transactions (earning an achievement, consuming
//! an inventory item) with their invariants.

pub mod entity;
pub mod errors;
pub mod laws;
pub mod state;
pub mod store;
