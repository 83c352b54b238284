//! Scanners for the textual forms of addresses and bytes.

pub mod my_parser;
pub mod round_trip;
