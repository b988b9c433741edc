//! Catalog logic of the SpiritVale overlay: text cleanup, JSON record
//! reading, drop and location indexes, and catalog entry building.

pub mod chars;
pub mod markup;
pub mod json;
pub mod fields;
pub mod index;
pub mod sources;
pub mod catalog;
pub mod window;
pub mod sync;
pub mod laws;
