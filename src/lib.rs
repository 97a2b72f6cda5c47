//! An in-memory ticket store: users, teams and tickets, each kept in a keyed
//! table, with whole-store snapshots for persistence and the request-level
//! operations that build, merge and enrich ticket records.

pub mod api;
pub mod laws;
pub mod model;
pub mod repository;
pub mod table;
pub mod text;
