//! What the GraphQL endpoint serves.
pub mod handlers;
pub mod schema;
