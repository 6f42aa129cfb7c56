//! The state that the request handlers and the watcher share.
pub mod state;
