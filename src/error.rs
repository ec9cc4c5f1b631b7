use vstd::prelude::*;

verus! {

/// Why a lookup of token ids failed.
#[derive(Debug, Clone, Copy, PartialEq, Eq, Structural)]
pub enum EmbeddingError {
    /// `token` is not below the table's `vocab_size`.
    TokenOutOfBounds { token: usize, vocab_size: usize },
}

/// Why a positional slice or an addition of positions failed.
#[derive(Debug, Clone, Copy, PartialEq, Eq, Structural)]
pub enum PositionalEncodingError {
    /// `seq_len` columns were asked for, but only `max_len` were precomputed.
    SequenceTooLong { seq_len: usize, max_len: usize },
    /// The target has `actual` rows where the encoder has `expected`.
    DimensionMismatch { expected: usize, actual: usize },
}

} // verus!
