use vstd::prelude::*;

use crate::error::EmbeddingError;
use crate::matrix::Matrix;

verus! {

/// A table of `vocab_size` embedding vectors of `embedding_dim` entries each.
///
/// The table is an `(embedding_dim × vocab_size)` matrix: column `t` is the
/// vector of token id `t`. Its shape never changes after construction.
pub struct Embeddings<T> {
    matrix: Matrix<T>,
    vocab_size: usize,
    embedding_dim: usize,
}

/// Whether some token id in `tokens` is not below `vocab_size`.
pub open spec fn has_unknown_token(tokens: Seq<usize>, vocab_size: nat) -> bool {
    exists|i: int| 0 <= i < tokens.len() && tokens[i] >= vocab_size
}

/// The position of the first token id in `tokens` that is not below `vocab_size`.
pub open spec fn first_unknown_token(tokens: Seq<usize>, vocab_size: nat) -> int
    recommends
        has_unknown_token(tokens, vocab_size),
{
    choose|i: int|
        0 <= i < tokens.len() && tokens[i] >= vocab_size && forall|j: int|
            0 <= j < i ==> tokens[j] < vocab_size
}

impl<T> Embeddings<T> {
    /// The number of token ids the table holds vectors for.
    pub closed spec fn vocab(&self) -> nat {
        self.vocab_size as nat
    }

    /// The length of each embedding vector.
    pub closed spec fn dim(&self) -> nat {
        self.embedding_dim as nat
    }

    /// The underlying `(dim × vocab)` matrix.
    pub closed spec fn table(&self) -> Matrix<T> {
        self.matrix
    }

    /// The matrix has `dim()` rows and `vocab()` columns.
    pub open spec fn wf(&self) -> bool {
        &&& self.table().wf()
        &&& self.table().n_rows() == self.dim()
        &&& self.table().n_cols() == self.vocab()
    }

    /// The table's matrix, without copying it.
    pub fn get_matrix(&self) -> (m: &Matrix<T>)
        ensures
            *m == self.table(),
    {
        &self.matrix
    }

    /// The number of token ids the table holds vectors for.
    pub fn vocab_size(&self) -> (v: usize)
        ensures
            v == self.vocab(),
    {
        self.vocab_size
    }

    /// The length of each embedding vector.
    pub fn embedding_dim(&self) -> (d: usize)
        ensures
            d == self.dim(),
    {
        self.embedding_dim
    }
}

impl<T: Copy> Embeddings<T> {
    /// A table of shape `(embedding_dim × vocab_size)` whose entries are drawn
    /// one by one from `sample`, e.g. uniformly from `[-1.0, 1.0]`.
    ///
    /// Zero for either size is allowed and gives an empty matrix.
    pub fn new<F: Fn() -> T>(vocab_size: usize, embedding_dim: usize, sample: F) -> (e: Self)
        requires
            sample.requires(()),
        ensures
            e.wf(),
            e.vocab() == vocab_size,
            e.dim() == embedding_dim,
            forall|r: int, c: int|
                0 <= r < embedding_dim && 0 <= c < vocab_size ==> sample.ensures(
                    (),
                    #[trigger] e.table().at(r, c),
                ),
    {
        let mut matrix: Matrix<T> = Matrix::with_rows(embedding_dim);
        let mut c: usize = 0;
        while c < vocab_size
            invariant
                c <= vocab_size,
                sample.requires(()),
                matrix.wf(),
                matrix.n_rows() == embedding_dim,
                matrix.n_cols() == c,
                forall|r: int, k: int|
                    0 <= r < embedding_dim && 0 <= k < c ==> sample.ensures(
                        (),
                        #[trigger] matrix.at(r, k),
                    ),
            decreases vocab_size - c,
        {
            let mut col: Vec<T> = Vec::new();
            let mut r: usize = 0;
            while r < embedding_dim
                invariant
                    r <= embedding_dim,
                    sample.requires(()),
                    col@.len() == r,
                    forall|k: int| 0 <= k < r ==> sample.ensures((), #[trigger] col@[k]),
                decreases embedding_dim - r,
            {
                let v = sample();
                col.push(v);
                r += 1;
            }
            let ghost before = matrix;
            matrix.push_column(col);
            assert forall|r: int, k: int|
                0 <= r < embedding_dim && 0 <= k < c + 1 implies sample.ensures(
                (),
                #[trigger] matrix.at(r, k),
            ) by {
                if k < c {
                    assert(matrix.at(r, k) == before.at(r, k));
                } else {
                    assert(matrix.at(r, k) == col@[r]);
                }
            }
            c += 1;
        }
        Embeddings { matrix, vocab_size, embedding_dim }
    }

    /// The embedding vectors of `tokens`, in order, as the columns of a
    /// `(dim × tokens.len())` matrix.
    ///
    /// Fails with `TokenOutOfBounds` for the first token id that is not below
    /// `vocab_size`; an empty `tokens` gives a matrix with no columns.
    pub fn tokens_to_embeddings(&self, tokens: &[usize]) -> (res: Result<
        Matrix<T>,
        EmbeddingError,
    >)
        requires
            self.wf(),
        ensures
            res is Ok <==> !has_unknown_token(tokens@, self.vocab()),
            res matches Ok(m) ==> {
                &&& m.wf()
                &&& m.n_rows() == self.dim()
                &&& m.n_cols() == tokens@.len()
                &&& forall|i: int|
                    0 <= i < tokens@.len() ==> #[trigger] m@[i] == self.table()@[tokens@[i] as int]
            },
            res matches Err(e) ==> e == (EmbeddingError::TokenOutOfBounds {
                token: tokens@[first_unknown_token(tokens@, self.vocab())],
                vocab_size: self.vocab() as usize,
            }),
    {
        let mut out: Matrix<T> = Matrix::with_rows(self.embedding_dim);
        let mut i: usize = 0;
        while i < tokens.len()
            invariant
                self.wf(),
                i <= tokens@.len(),
                out.wf(),
                out.n_rows() == self.dim(),
                out.n_cols() == i,
                forall|j: int| 0 <= j < i ==> tokens@[j] < self.vocab(),
                forall|j: int| 0 <= j < i ==> #[trigger] out@[j] == self.table()@[tokens@[j] as int],
            decreases tokens@.len() - i,
        {
            let token = tokens[i];
            if token >= self.vocab_size {
                let ghost k = first_unknown_token(tokens@, self.vocab());
                assert(has_unknown_token(tokens@, self.vocab()));
                assert(0 <= i && tokens@[i as int] >= self.vocab() && forall|j: int|
                    0 <= j < i ==> tokens@[j] < self.vocab());
                assert(k == i) by {
                    if k < i {
                    } else if k > i {
                    }
                }
                return Err(EmbeddingError::TokenOutOfBounds { token, vocab_size: self.vocab_size });
            }
            let col = self.matrix.column(token);
            out.push_column(col);
            i += 1;
        }
        Ok(out)
    }
}

} // verus!
