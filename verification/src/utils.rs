//! Leaf utilities: checksum, integer encoding, buffer copies, text formatting.

pub mod checksum;
pub mod convert_bytes;
pub mod convert_string;
pub mod format_mac;
pub mod formating_types;
pub mod payload_size;
pub mod push_bytes;
