//! Signature scanning: find every offset in a byte buffer where a byte
//! pattern with wildcards matches.
use vstd::prelude::*;

pub mod error;
pub mod laws;
pub mod pattern;
pub mod scan;

pub use error::Error;
pub use pattern::{Pattern, PatternByte};
pub use scan::{scan, scan_pattern};
