//! Profiles tabular CSV data and derives schema and count metadata from it.
//!
//! The stages: the profile cache ([`cache`], [`profiling`], [`profile`]), the enum miner
//! ([`miner`]), the pattern synthesizer ([`pattern`]), the schema assembler ([`rules`],
//! [`schema`], [`document`]) and the record counter ([`count`], [`counter`]).

pub mod cache;
pub mod count;
pub mod counter;
pub mod document;
pub mod field;
pub mod maps;
pub mod miner;
pub mod order;
pub mod pattern;
pub mod profile;
pub mod profiling;
pub mod properties;
pub mod pseudo;
pub mod rules;
pub mod schema;
pub mod select;
pub mod text;
