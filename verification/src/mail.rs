//! Mail: the configuration of accounts, and the header fields of a message.
pub mod config;
pub mod header;
pub mod store;
