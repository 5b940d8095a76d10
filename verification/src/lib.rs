//! A small text-reformatting library.
//!
//! Given a raw string of hexadecimal digit pairs (possibly containing
//! spaces and `0x` prefixes), it produces either a brace-delimited,
//! comma-separated list of uppercase `0xHH` byte tokens, or a string of
//! 8-digit binary groups, one per byte of the input's UTF-8 encoding.

pub mod norm;
pub mod reformat;
pub mod text;

pub use text::is_space;
pub use text::str_eq;
pub use text::to_upper;
