//! Vector commitments for fixed-width integer values at integer keys.
//!
//! Values are turned into a flat sequence of bits, each paired with a bit
//! index that is unique to its key and bit position; an accumulator engine
//! then commits to, opens, verifies and updates those bit assignments.

pub mod encoding;
pub mod protocol;
