//! Metadata store of an encrypted file vault: catalog of ingested files,
//! their tags and annotations, vault settings and an audit trail.
pub mod records;
pub mod text;
pub mod order;
mod clock;
pub mod database;
pub mod schema;
pub mod commands;
pub mod json;
pub mod encryption;
pub mod laws;
