//! Encoding of a UTF-8 message into three fixed-width numeric field literals.
//!
//! A message's bytes are truncated to 93, split into three chunks of at most
//! 31 bytes, and each chunk is read as a little-endian unsigned integer and
//! written as a decimal literal with the suffix `field`.

pub mod field_literal;
pub mod message;
