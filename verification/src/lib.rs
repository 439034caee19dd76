//! The housekeeping rules of a hotel cleaning service: cleaners, rooms and
//! cleaning tasks, held in one store, with the checks and the room-status
//! effects that every request goes through.

pub mod outside;
pub mod text;
pub mod models;
pub mod error;
pub mod state;
pub mod model;
pub mod lookup;
pub mod handlers;
pub mod laws;
pub mod effects;
