//! Inventory of a database server: which databases it holds, their
//! collections, and each collection's document count and index names.
//!
//! The library decides what the report holds and in which order; the
//! network calls are made by its caller, which hands their results in.
pub mod catalog;
pub mod laws;
pub mod merge;
pub mod order;
