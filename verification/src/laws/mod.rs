//! What the parts of the library promise, stated over what goes in and what comes out.
pub mod cache;
pub mod edges;
pub mod forms;
pub mod indexing;
pub mod matching;
pub mod queries;
pub mod rows;
pub mod server;
pub mod setup;
pub mod start;
pub mod subscriptions;
pub mod writes;
