//! Extraction of a creature record from a stat-block page, and its
//! validation against the limits of the storage schema.

pub mod digits;
pub mod document;
pub mod error;
pub mod monster;
pub mod render;
pub mod text;
pub mod title;
pub mod traits;
