//! The error type under its short path.

pub use crate::errors::errors::ParseError;
pub use crate::errors::errors::Result;
