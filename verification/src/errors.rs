//! Error values shared by every layer of the library.

pub mod err;
pub mod errors;
