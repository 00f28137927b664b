//! Conversion between native values and BSON-style document values.
//!
//! `document` holds the document value and its ordered container;
//! `formattable` the conversion protocol and the scalar adapters; `sequence`
//! and `mapping` the list, map and container adapters; `json` a generic JSON
//! value and its mapping to documents; `number` the integer to binary64
//! conversion that JSON numbers need; `laws` the round-trip and error laws.

pub mod document;
pub mod formattable;
pub mod json;
pub mod keys;
pub mod laws;
pub mod mapping;
pub mod number;
pub mod sequence;
