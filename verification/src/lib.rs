//! Core of a nutrition and body-weight tracker.
//!
//! Foods carry a per-unit macro-nutrient profile; recipes are composed of
//! weighted ingredients and their totals are derived on every read; consumption
//! events reference either a food or a recipe and contribute derived totals;
//! consumables are ranked for quick re-selection; sessions are opaque,
//! hash-indexed, time-limited tokens; passwords are held as memory-hard hashes.

pub mod credential;
pub mod error;
pub mod model;
pub mod nutrition;
pub mod rank;
pub mod session;
pub mod store;
