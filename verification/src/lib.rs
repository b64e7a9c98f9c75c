//! Typed registries for a game's binary columnar tables.
//!
//! Tables are addressed by hashed labels; rows decode into per-category
//! domain records held in id-sorted, duplicate-free registries, with a
//! localization lookup attached per language.

pub mod item;
pub mod load;
pub mod label;
pub mod lang;
pub mod table;
