//! The verified core of an API firewall: request inspection, policy decisions,
//! route inventory, rate limiting, temporary mitigations and the encodings they use.

pub mod access;
pub mod behavior;
pub mod bundles;
pub mod config;
pub mod contracts;
pub mod control_plane;
pub mod dedupe;
pub mod detection;
pub mod enrollment;
pub mod exports;
pub mod headers;
pub mod identity;
pub mod inventory;
pub mod journal;
pub mod json;
pub mod laws;
pub mod mitigation;
pub mod net;
pub mod outside;
pub mod pairs;
pub mod policy;
pub mod proxy;
pub mod rate_limit;
pub mod recommendations;
pub mod records;
pub mod requests;
pub mod routes;
pub mod storage;
pub mod store;
pub mod table;
pub mod telemetry_delivery;
pub mod text;
pub mod types;
pub mod validation;
