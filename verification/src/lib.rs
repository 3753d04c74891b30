//! A verified core for a small family of cooperating services: a
//! session/token authority (registration, confirmation, login, validation,
//! rotation, role management) over an in-memory credential store, the
//! authorization gateway its dependents use, a role-gated product catalog,
//! and a reliable queue-consumption harness with exponential backoff.
//! Transport, persistence engines and clocks stay behind narrow ports; the
//! decisions are proved here.

pub mod codec;
pub mod confirms;
pub mod errors;
pub mod gateway;
pub mod harness;
pub mod importer;
pub mod models;
pub mod service;
pub mod server;
pub mod shop;
pub mod store;
pub mod text;
