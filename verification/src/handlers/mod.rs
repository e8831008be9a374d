//! What the read side asks of ingestion.

pub mod space_handlers;
