//! Subscriptions: which updates reach which subscriber.
pub mod managers;
pub mod matching;
pub mod registry;
