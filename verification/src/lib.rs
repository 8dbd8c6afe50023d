//! Storage-backed core of a distributed job queue: a job table with an atomic
//! claim protocol, lifecycle operations, a worker registry, and the two
//! recovery sweeps, all specified against a mathematical view of the tables.

mod ambient;
pub mod claim;
pub mod job;
pub mod laws;
pub mod lifecycle;
pub mod registry;
pub mod store;
