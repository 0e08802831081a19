//! Selects the private driveways that a known set of OpenStreetMap editors
//! mapped, drops those that pass through a barrier, and lays the survivors out
//! as the events of an OSM XML document that a mapper can inspect by hand.

pub mod bounds;
pub mod dataset;
pub mod document;
pub mod editors;
pub mod export;
pub mod filter;
pub mod laws;
pub mod nesting;
pub mod objects;
pub mod order;
pub mod strings;
pub mod tags;
