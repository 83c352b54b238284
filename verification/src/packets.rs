//! Serialisers, one per layer, and the builders that fill the headers.

pub mod builder;
pub mod ethernet;
pub mod ip;
pub mod l4;
