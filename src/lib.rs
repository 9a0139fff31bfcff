//! Score and rating engine of a rhythm-game server: play ratings, personal
//! bests, the bounded pool of recent plays and the player's overall rating,
//! with the small pure helpers that the server's other endpoints use.

pub mod backup;
pub mod data_access;
pub mod dlc;
pub mod info;
pub mod lookup;
pub mod pool;
pub mod rating;
pub mod score;
pub mod store;
pub mod text;
