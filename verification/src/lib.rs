//! Background ingestion for a space-data monitor: a retrying fetcher, per-source
//! request builders, an idempotent store, a per-source scheduler and a token-bucket
//! admission gate, each with a machine-checked contract.

pub mod clients;
pub mod config;
pub mod error;
pub mod handlers;
pub mod json;
pub mod middleware;
pub mod repo;
pub mod services;
pub mod text;
pub mod time;
