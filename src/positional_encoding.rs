use vstd::prelude::*;
use vstd::std_specs::ops::AddSpec;

use crate::error::PositionalEncodingError;
use crate::matrix::Matrix;

verus! {

/// Which of the two waves of a frequency an entry takes.
#[derive(Debug, Clone, Copy, PartialEq, Eq, Structural)]
pub enum Wave {
    Sin,
    Cos,
}

/// What one entry of a sinusoidal encoding is a function of: the entry is
/// `wave(position / 10000^(exponent / dim))`.
#[derive(Debug, Clone, Copy, PartialEq, Eq, Structural)]
pub struct Phase {
    pub wave: Wave,
    pub position: usize,
    /// `2i` for the dimension pair `i` that the row belongs to.
    pub exponent: usize,
    pub dim: usize,
}

/// The phase of row `r` at position `p` in an encoding of `dim` rows: rows
/// `2i` and `2i + 1` share the frequency of pair `i`, the even one taking the
/// sine and the odd one the cosine; an unpaired last row takes the sine.
pub open spec fn phase_at(r: nat, p: nat, dim: nat) -> Phase {
    Phase {
        wave: if r % 2 == 0 {
            Wave::Sin
        } else {
            Wave::Cos
        },
        position: p as usize,
        exponent: (r - r % 2) as usize,
        dim: dim as usize,
    }
}

/// A precomputed `(embedding_dim × max_len)` sinusoidal encoding: column `p`
/// is the vector added to the embedding at position `p`.
pub struct PositionalEncoding<T> {
    encoding: Matrix<T>,
    max_len: usize,
    embedding_dim: usize,
}

impl<T> PositionalEncoding<T> {
    /// The number of precomputed positions.
    pub closed spec fn max_positions(&self) -> nat {
        self.max_len as nat
    }

    /// The length of each positional vector.
    pub closed spec fn dim(&self) -> nat {
        self.embedding_dim as nat
    }

    /// The precomputed `(dim × max_positions)` matrix.
    pub closed spec fn table(&self) -> Matrix<T> {
        self.encoding
    }

    /// The matrix has `dim()` rows and `max_positions()` columns.
    pub open spec fn wf(&self) -> bool {
        &&& self.table().wf()
        &&& self.table().n_rows() == self.dim()
        &&& self.table().n_cols() == self.max_positions()
    }

    /// Every entry of the table is what `wave` gives for that entry's phase.
    pub open spec fn computed_by<F: Fn(Phase) -> T>(&self, wave: F) -> bool {
        &&& self.wf()
        &&& forall|r: int, p: int|
            0 <= r < self.dim() && 0 <= p < self.max_positions() ==> wave.ensures(
                (phase_at(r as nat, p as nat, self.dim()),),
                #[trigger] self.table().at(r, p),
            )
    }

    /// The precomputed matrix, without copying it.
    pub fn matrix(&self) -> (m: &Matrix<T>)
        ensures
            *m == self.table(),
    {
        &self.encoding
    }

    /// The number of precomputed positions.
    pub fn max_len(&self) -> (n: usize)
        ensures
            n == self.max_positions(),
    {
        self.max_len
    }

    /// The length of each positional vector.
    pub fn embedding_dim(&self) -> (d: usize)
        ensures
            d == self.dim(),
    {
        self.embedding_dim
    }
}

impl<T: Copy> PositionalEncoding<T> {
    /// Precomputes the encoding of positions `0 .. max_len`, evaluating each
    /// entry's phase with `wave` (the sine or cosine of the phase's angle).
    ///
    /// Zero for either size is allowed and gives an empty matrix.
    pub fn new<F: Fn(Phase) -> T>(max_len: usize, embedding_dim: usize, wave: F) -> (pe: Self)
        requires
            forall|ph: Phase| wave.requires((ph,)),
        ensures
            pe.computed_by(wave),
            pe.max_positions() == max_len,
            pe.dim() == embedding_dim,
    {
        let mut encoding: Matrix<T> = Matrix::with_rows(embedding_dim);
        let mut p: usize = 0;
        while p < max_len
            invariant
                p <= max_len,
                forall|ph: Phase| wave.requires((ph,)),
                encoding.wf(),
                encoding.n_rows() == embedding_dim,
                encoding.n_cols() == p,
                forall|r: int, k: int|
                    0 <= r < embedding_dim && 0 <= k < p ==> wave.ensures(
                        (phase_at(r as nat, k as nat, embedding_dim as nat),),
                        #[trigger] encoding.at(r, k),
                    ),
            decreases max_len - p,
        {
            let mut col: Vec<T> = Vec::new();
            let mut r: usize = 0;
            while r < embedding_dim
                invariant
                    r <= embedding_dim,
                    p < max_len,
                    forall|ph: Phase| wave.requires((ph,)),
                    col@.len() == r,
                    forall|k: int|
                        0 <= k < r ==> wave.ensures(
                            (phase_at(k as nat, p as nat, embedding_dim as nat),),
                            #[trigger] col@[k],
                        ),
                decreases embedding_dim - r,
            {
                let odd = r % 2;
                let phase = Phase {
                    wave: if odd == 0 {
                        Wave::Sin
                    } else {
                        Wave::Cos
                    },
                    position: p,
                    exponent: r - odd,
                    dim: embedding_dim,
                };
                assert(phase == phase_at(r as nat, p as nat, embedding_dim as nat));
                let v = wave(phase);
                col.push(v);
                r += 1;
            }
            let ghost before = encoding;
            encoding.push_column(col);
            assert forall|r: int, k: int|
                0 <= r < embedding_dim && 0 <= k < p + 1 implies wave.ensures(
                (phase_at(r as nat, k as nat, embedding_dim as nat),),
                #[trigger] encoding.at(r, k),
            ) by {
                if k < p {
                    assert(encoding.at(r, k) == before.at(r, k));
                } else {
                    assert(encoding.at(r, k) == col@[r]);
                }
            }
            p += 1;
        }
        PositionalEncoding { encoding, max_len, embedding_dim }
    }

    /// The first `seq_len` columns of the precomputed matrix, i.e. the
    /// encodings of positions `0 .. seq_len`.
    ///
    /// Fails with `SequenceTooLong` when `seq_len > max_len`.
    pub fn for_sequence(&self, seq_len: usize) -> (res: Result<Matrix<T>, PositionalEncodingError>)
        requires
            self.wf(),
        ensures
            res is Err <==> seq_len > self.max_positions(),
            res matches Ok(m) ==> {
                &&& m.wf()
                &&& m.n_rows() == self.dim()
                &&& m@ == self.table()@.subrange(0, seq_len as int)
            },
            res matches Err(e) ==> e == (PositionalEncodingError::SequenceTooLong {
                seq_len,
                max_len: self.max_positions() as usize,
            }),
    {
        if seq_len > self.max_len {
            return Err(PositionalEncodingError::SequenceTooLong { seq_len, max_len: self.max_len });
        }
        let mut out: Matrix<T> = Matrix::with_rows(self.embedding_dim);
        let mut p: usize = 0;
        while p < seq_len
            invariant
                self.wf(),
                p <= seq_len <= self.max_positions(),
                out.wf(),
                out.n_rows() == self.dim(),
                out@ == self.table()@.subrange(0, p as int),
            decreases seq_len - p,
        {
            let col = self.encoding.column(p);
            out.push_column(col);
            p += 1;
            assert(out@ =~= self.table()@.subrange(0, p as int));
        }
        Ok(out)
    }
}

impl<T: Copy + std::ops::Add<Output = T>> PositionalEncoding<T> {
    /// Adds the encoding of positions `0 .. n` into the `n` columns of
    /// `embeddings`, entry by entry, leaving its shape as it was.
    ///
    /// Fails with `SequenceTooLong` when `embeddings` has more columns than
    /// `max_len`, and otherwise with `DimensionMismatch` when its row count
    /// differs from `embedding_dim`; in both cases `embeddings` is untouched.
    pub fn add_to_embeddings(&self, embeddings: &mut Matrix<T>) -> (res: Result<
        (),
        PositionalEncodingError,
    >)
        requires
            self.wf(),
            old(embeddings).wf(),
            old(embeddings).n_rows() == self.dim() && old(embeddings).n_cols()
                <= self.max_positions() ==> forall|r: int, c: int|
                0 <= r < old(embeddings).n_rows() && 0 <= c < old(embeddings).n_cols() ==> (
                #[trigger] old(embeddings).at(r, c)).add_req(self.table().at(r, c)),
        ensures
            res is Ok <==> old(embeddings).n_cols() <= self.max_positions() && old(
                embeddings,
            ).n_rows() == self.dim(),
            old(embeddings).n_cols() > self.max_positions() ==> res == Err::<
                (),
                PositionalEncodingError,
            >(
                PositionalEncodingError::SequenceTooLong {
                    seq_len: old(embeddings).n_cols() as usize,
                    max_len: self.max_positions() as usize,
                },
            ),
            old(embeddings).n_cols() <= self.max_positions() && old(embeddings).n_rows()
                != self.dim() ==> res == Err::<(), PositionalEncodingError>(
                PositionalEncodingError::DimensionMismatch {
                    expected: self.dim() as usize,
                    actual: old(embeddings).n_rows() as usize,
                },
            ),
            res is Err ==> *final(embeddings) == *old(embeddings),
            res is Ok ==> {
                &&& final(embeddings).wf()
                &&& final(embeddings).n_rows() == old(embeddings).n_rows()
                &&& final(embeddings).n_cols() == old(embeddings).n_cols()
                &&& forall|r: int, c: int|
                    0 <= r < old(embeddings).n_rows() && 0 <= c < old(embeddings).n_cols()
                        && T::obeys_add_spec() ==> #[trigger] final(embeddings).at(r, c) == old(
                        embeddings,
                    ).at(r, c).add_spec(self.table().at(r, c))
            },
    {
        let n = embeddings.ncols();
        if n > self.max_len {
            return Err(PositionalEncodingError::SequenceTooLong { seq_len: n, max_len: self.max_len });
        }
        let rows = embeddings.nrows();
        if rows != self.embedding_dim {
            return Err(
                PositionalEncodingError::DimensionMismatch {
                    expected: self.embedding_dim,
                    actual: rows,
                },
            );
        }
        let ghost start = *embeddings;
        let mut c: usize = 0;
        while c < n
            invariant
                self.wf(),
                n == start.n_cols(),
                n <= self.max_positions(),
                rows == start.n_rows(),
                rows == self.dim(),
                c <= n,
                start == *old(embeddings),
                forall|r: int, k: int|
                    0 <= r < start.n_rows() && 0 <= k < start.n_cols() && r < self.dim() && k
                        < self.max_positions() ==> (#[trigger] start.at(r, k)).add_req(
                        self.table().at(r, k),
                    ),
                embeddings.wf(),
                embeddings.n_rows() == rows,
                embeddings.n_cols() == n,
                forall|r: int, k: int|
                    0 <= r < rows && c <= k < n ==> #[trigger] embeddings.at(r, k) == start.at(
                        r,
                        k,
                    ),
                forall|r: int, k: int|
                    0 <= r < rows && 0 <= k < c && T::obeys_add_spec() ==> #[trigger] embeddings.at(
                        r,
                        k,
                    ) == start.at(r, k).add_spec(self.table().at(r, k)),
            decreases n - c,
        {
            let mut r: usize = 0;
            while r < rows
                invariant
                    self.wf(),
                    n == start.n_cols(),
                    n <= self.max_positions(),
                    rows == start.n_rows(),
                    rows == self.dim(),
                    c < n,
                    r <= rows,
                    forall|r: int, k: int|
                        0 <= r < start.n_rows() && 0 <= k < start.n_cols() && r < self.dim() && k
                            < self.max_positions() ==> (#[trigger] start.at(r, k)).add_req(
                            self.table().at(r, k),
                        ),
                    embeddings.wf(),
                    embeddings.n_rows() == rows,
                    embeddings.n_cols() == n,
                    forall|q: int, k: int|
                        0 <= q < rows && c < k < n ==> #[trigger] embeddings.at(q, k) == start.at(
                            q,
                            k,
                        ),
                    forall|q: int|
                        r <= q < rows ==> #[trigger] embeddings.at(q, c as int) == start.at(
                            q,
                            c as int,
                        ),
                    forall|q: int, k: int|
                        0 <= q < rows && 0 <= k < c && T::obeys_add_spec() ==> #[trigger] embeddings.at(
                            q,
                            k,
                        ) == start.at(q, k).add_spec(self.table().at(q, k)),
                    forall|q: int|
                        0 <= q < r && T::obeys_add_spec() ==> #[trigger] embeddings.at(
                            q,
                            c as int,
                        ) == start.at(q, c as int).add_spec(self.table().at(q, c as int)),
                decreases rows - r,
            {
                let a = embeddings.get(r, c);
                let b = self.encoding.get(r, c);
                assert(a == start.at(r as int, c as int));
                let s = a + b;
                let ghost before = *embeddings;
                embeddings.set(r, c, s);
                assert forall|q: int, k: int|
                    0 <= q < rows && 0 <= k < n && (q != r || k != c) implies #[trigger] embeddings.at(
                    q,
                    k,
                ) == before.at(q, k) by {
                    if k != c {
                        assert(embeddings@[k] == before@[k]);
                    } else {
                        assert(embeddings@[k] == before@[k].update(r as int, s));
                    }
                }
                r += 1;
            }
            c += 1;
        }
        Ok(())
    }
}

/// Construction is deterministic: two encoders of the same `max_len` and
/// `embedding_dim`, both computed by a wave function that gives a single
/// result for each phase, hold identical tables.
pub proof fn lemma_encoding_deterministic<T, F: Fn(Phase) -> T>(
    a: &PositionalEncoding<T>,
    b: &PositionalEncoding<T>,
    wave: F,
)
    requires
        a.computed_by(wave),
        b.computed_by(wave),
        a.max_positions() == b.max_positions(),
        a.dim() == b.dim(),
        forall|ph: Phase, x: T, y: T|
            wave.ensures((ph,), x) && wave.ensures((ph,), y) ==> x == y,
    ensures
        a.table()@ == b.table()@,
{
    assert forall|c: int| 0 <= c < a.table()@.len() implies a.table()@[c] == b.table()@[c] by {
        assert forall|r: int| 0 <= r < a.table()@[c].len() implies a.table()@[c][r]
            == b.table()@[c][r] by {
            assert(a.table().at(r, c) == b.table().at(r, c));
        }
        assert(a.table()@[c] =~= b.table()@[c]);
    }
    assert(a.table()@ =~= b.table()@);
}

/// Rows `2i` and `2i + 1` of an encoding hold, at every position, the sine
/// and the cosine of one and the same angle, `p / 10000^(2i / dim)`.
pub proof fn lemma_paired_rows<T, F: Fn(Phase) -> T>(
    pe: &PositionalEncoding<T>,
    wave: F,
    i: nat,
    p: nat,
)
    requires
        pe.computed_by(wave),
        2 * i + 1 < pe.dim(),
        p < pe.max_positions(),
    ensures
        wave.ensures(
            (Phase { wave: Wave::Sin, position: p as usize, exponent: (2 * i) as usize, dim: pe.dim() as usize },),
            pe.table().at(2 * i as int, p as int),
        ),
        wave.ensures(
            (Phase { wave: Wave::Cos, position: p as usize, exponent: (2 * i) as usize, dim: pe.dim() as usize },),
            pe.table().at(2 * i as int + 1, p as int),
        ),
{
    assert(phase_at(2 * i, p, pe.dim()).exponent == 2 * i);
    assert(phase_at((2 * i + 1) as nat, p, pe.dim()).exponent == 2 * i);
}

} // verus!
