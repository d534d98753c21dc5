//! Read-only query and aggregation core for a catalog of toolchain releases.
//!
//! The catalog is a snapshot of a relational store: release rows, component
//! join rows (component x optional target) and artefact rows. The core
//! resolves symbolic channel names to concrete versions, groups join rows
//! into components with nested target lists, decodes artefacts, and
//! assembles the client-facing release aggregates. Every query is a fresh,
//! independent read; nothing is written back.

pub mod aggregate;
pub mod filtering;
pub mod laws;
pub mod models;
pub mod order;
pub mod queries;
pub mod store;
