//! A verified core for a small todo CRUD service.
//!
//! The library holds the data model, the data-access semantics over an
//! in-memory image of the `todos` table, and the handler layer's mapping
//! from data-access outcomes to HTTP status codes. I/O (the HTTP listener,
//! the SQL driver) lives outside the library and hands it plain values.

pub mod db;
mod gen;
pub mod handlers;
pub mod models;
