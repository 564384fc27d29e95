//! The storage: what is asked of the database, and what its rows mean.
pub mod balance;
pub mod builder;
pub mod errors;
pub mod models;
pub mod queries;
pub mod rows;
pub mod search;
pub mod writes;
