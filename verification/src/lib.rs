//! Indexing, query and delivery rules of the Torii indexer.
pub mod abi;
pub mod broker;
pub mod cache;
pub mod difference;
pub mod digits;
pub mod engine;
pub mod felt;
pub mod ids;
pub mod launch;
pub mod laws;
pub mod ledger;
pub mod memory;
pub mod naming;
pub mod options;
pub mod processors;
pub mod runner;
pub mod schema;
pub mod server;
pub mod sql;
pub mod subscriptions;
pub mod text;
pub mod time;
pub mod tokens;
pub mod version;
