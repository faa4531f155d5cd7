//! Deployment synthesis for preview applications on an orchestrated
//! container backend.
//!
//! The crate turns a declarative service description into the graph of
//! cluster objects that realizes it: a namespace per application, a
//! workload, a network endpoint, generated secrets and volumes for
//! mounted files, storage claims for declared volumes, and the routing
//! route and middleware objects that make each service reachable by
//! name. Every synthesis function is pure and carries a contract that
//! pins its payload; the properties the system relies on — deterministic
//! naming, idempotent identifier normalization, one volume per parent
//! directory, middleware-name resolution — are stated and proved beside
//! the code.

pub mod app_name;
pub mod clock;
pub mod codec;
pub mod deployment;
pub mod image;
pub mod json;
pub mod models;
pub mod paths;
pub mod payloads;
pub mod traefik;
