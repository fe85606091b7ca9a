//! `#[derive(ObjectStoreConfig)]`: configuration keys for a struct of options.
//!
//! The derive writes an enum of the keys of a struct, the way from a key to its text and back, the
//! methods that set and read a field by its key, and a setter for each field.

pub mod code;
pub mod config;
pub mod decisions;
pub mod derive;
pub mod effect;
pub mod errors;
pub mod expand;
pub mod fields;
pub mod generate;
pub mod infer;
pub mod items;
pub mod keys;
pub mod laws;
pub mod meaning;
pub mod models;
pub mod names;
pub mod shape;
pub mod store;
pub mod syntax;
pub mod tokens;

pub use crate::derive::{derive_object_store_config, try_derive_object_store_config};
