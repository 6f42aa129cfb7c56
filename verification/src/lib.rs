//! Language-engine registry and dispatch for a multi-tenant language service.
//!
//! The crate keeps, for each kind of engine, the mapping from language code to
//! the worker that serves it, follows a data directory as files come and go,
//! and routes requests to the worker of the language they name.
pub mod data_files;
pub mod error;
pub mod graphql;
pub mod languages;
pub mod preferences;
pub mod registry;
pub mod server;
pub mod watcher;
pub mod worker;
