//! Token embeddings and sinusoidal positional encodings over dense matrices.
//!
//! The numeric element type is a parameter of every type here: the library
//! moves, copies and combines elements, while drawing random entries and
//! evaluating sines and cosines is done by functions that the caller hands in.

pub mod matrix;
pub mod error;
pub mod embeddings;
pub mod positional_encoding;
