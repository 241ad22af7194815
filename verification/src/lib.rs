//! Password generation under per-class character counts and length bounds.
//!
//! The library draws every random decision from an [`random::Entropy`] value:
//! bytes that the caller has read from the operating system's randomness
//! source. Given those bytes, each operation is a function of its arguments,
//! and its contract says which one.

pub mod config;
pub mod generator;
pub mod random;
pub mod text;
pub mod wizard;
