//! A verified core for an experiment-tracking server.
//!
//! The crate implements the two subsystems that carry the real logic of the
//! server: the filter / order-by query language (lexing and parsing into a
//! typed tree), and the search engine that lowers a parsed filter plus an
//! ordering list into a single parameterised SQL statement.  Everything here
//! is pure: the surrounding process (HTTP handling, database round-trips)
//! hands in plain values and receives plain values back.

pub mod api;
pub mod config;
pub mod entities;
pub mod error;
pub mod laws;
pub mod parser;
pub mod query;
pub mod store;
pub mod text;
