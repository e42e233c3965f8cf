//! Game-state engine for a two-player, four-in-a-row board game whose
//! horizontal axis may wrap around, together with the decision logic of the
//! atomic update of a stored game and of the service in front of it.

pub mod board;
pub mod errors;
pub mod filter;
pub mod identity;
pub mod index_range;
pub mod matrix;
pub mod player;
pub mod registry;
pub mod service;
pub mod stored;
pub mod update;
