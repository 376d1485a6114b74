//! A transparent HTTP relay: the turning of requests and responses at the
//! heart of a forward proxy whose destination travels in the query string.

pub mod body;
pub mod error;
pub mod header;
pub mod relay;
pub mod target;
pub mod wire;
