use embeddings::error::PositionalEncodingError;
use embeddings::matrix::Matrix;
use embeddings::positional_encoding::{Phase, PositionalEncoding, Wave};

fn sinusoid(ph: Phase) -> f32 {
    let angle = ph.position as f32 / 10000f32.powf(ph.exponent as f32 / ph.dim as f32);
    match ph.wave {
        Wave::Sin => angle.sin(),
        Wave::Cos => angle.cos(),
    }
}

fn zeros(rows: usize, cols: usize) -> Matrix<f32> {
    let mut m = Matrix::with_rows(rows);
    for _ in 0..cols {
        m.push_column(vec![0.0; rows]);
    }
    m
}

fn bits(m: &Matrix<f32>) -> Vec<Vec<u32>> {
    (0..m.ncols()).map(|c| m.column(c).iter().map(|x| x.to_bits()).collect()).collect()
}

#[test]
fn encoding_shape_and_known_values() {
    let pe = PositionalEncoding::new(100, 8, sinusoid);
    assert_eq!(pe.matrix().shape(), (8, 100));
    assert_eq!(pe.max_len(), 100);
    assert_eq!(pe.embedding_dim(), 8);
    // Position 0: sines are 0, cosines are 1.
    for r in 0..8 {
        let expected = if r % 2 == 0 { 0.0 } else { 1.0 };
        assert_eq!(pe.matrix().get(r, 0), expected);
    }
    // Position 1, pair 0: angle 1.
    assert!((pe.matrix().get(0, 1) - 1.0f32.sin()).abs() < 1e-6);
    assert!((pe.matrix().get(1, 1) - 1.0f32.cos()).abs() < 1e-6);
    // Position 3, pair 1 of dim 8: angle 3 / 10000^(2/8) = 0.3.
    assert!((pe.matrix().get(2, 3) - 0.3f32.sin()).abs() < 1e-5);
    assert!((pe.matrix().get(3, 3) - 0.3f32.cos()).abs() < 1e-5);
}

#[test]
fn encoding_is_deterministic() {
    let a = PositionalEncoding::new(100, 8, sinusoid);
    let b = PositionalEncoding::new(100, 8, sinusoid);
    assert_eq!(bits(a.matrix()), bits(b.matrix()));
}

#[test]
fn paired_rows_share_an_angle() {
    let pe = PositionalEncoding::new(50, 6, sinusoid);
    for p in 0..50 {
        for i in 0..3 {
            let s = pe.matrix().get(2 * i, p);
            let c = pe.matrix().get(2 * i + 1, p);
            assert!((s * s + c * c - 1.0).abs() < 1e-5);
        }
    }
}

#[test]
fn odd_dimension_ends_with_a_sine_row() {
    let seen = std::cell::RefCell::new(Vec::new());
    let pe = PositionalEncoding::new(2, 5, |ph: Phase| {
        seen.borrow_mut().push(ph);
        0u8
    });
    assert_eq!(pe.matrix().shape(), (5, 2));
    let phases = seen.into_inner();
    let last = phases[4];
    assert_eq!(last, Phase { wave: Wave::Sin, position: 0, exponent: 4, dim: 5 });
    assert_eq!(phases[3], Phase { wave: Wave::Cos, position: 0, exponent: 2, dim: 5 });
    assert_eq!(phases[7], Phase { wave: Wave::Sin, position: 1, exponent: 2, dim: 5 });
    assert_eq!(phases[8], Phase { wave: Wave::Cos, position: 1, exponent: 2, dim: 5 });
}

#[test]
fn slice_is_prefix_of_table() {
    let pe = PositionalEncoding::new(10, 4, sinusoid);
    let slice = pe.for_sequence(6).unwrap();
    assert_eq!(slice.shape(), (4, 6));
    for c in 0..6 {
        assert_eq!(slice.column(c), pe.matrix().column(c));
    }
    let whole = pe.for_sequence(10).unwrap();
    assert_eq!(bits(&whole), bits(pe.matrix()));
    let empty = pe.for_sequence(0).unwrap();
    assert_eq!(empty.shape(), (4, 0));
}

#[test]
fn slice_longer_than_max_len_fails() {
    let pe = PositionalEncoding::new(10, 4, sinusoid);
    let err = pe.for_sequence(11).unwrap_err();
    assert_eq!(err, PositionalEncodingError::SequenceTooLong { seq_len: 11, max_len: 10 });
}

#[test]
fn adding_into_zeros_gives_the_slice() {
    let pe = PositionalEncoding::new(100, 3, sinusoid);
    let mut emb = zeros(3, 4);
    pe.add_to_embeddings(&mut emb).unwrap();
    assert_eq!(bits(&emb), bits(&pe.for_sequence(4).unwrap()));
}

#[test]
fn adding_sums_entry_by_entry() {
    let pe = PositionalEncoding::new(3, 2, |ph: Phase| {
        (ph.position * 10 + ph.exponent) as i64 + if ph.wave == Wave::Cos { 1 } else { 0 }
    });
    let mut emb = Matrix::with_rows(2);
    emb.push_column(vec![100i64, 200]);
    emb.push_column(vec![300i64, 400]);
    pe.add_to_embeddings(&mut emb).unwrap();
    assert_eq!(emb.column(0), vec![100, 201]);
    assert_eq!(emb.column(1), vec![310, 411]);
}

#[test]
fn adding_with_wrong_rows_leaves_buffer_unchanged() {
    let pe = PositionalEncoding::new(10, 3, sinusoid);
    let mut emb = Matrix::with_rows(2);
    emb.push_column(vec![1.5f32, -2.0]);
    emb.push_column(vec![0.25f32, 4.0]);
    let before = bits(&emb);
    let err = pe.add_to_embeddings(&mut emb).unwrap_err();
    assert_eq!(err, PositionalEncodingError::DimensionMismatch { expected: 3, actual: 2 });
    assert_eq!(bits(&emb), before);
}

#[test]
fn adding_too_many_columns_fails_first() {
    let pe = PositionalEncoding::new(2, 3, sinusoid);
    let mut emb = zeros(5, 3);
    let before = bits(&emb);
    let err = pe.add_to_embeddings(&mut emb).unwrap_err();
    assert_eq!(err, PositionalEncodingError::SequenceTooLong { seq_len: 3, max_len: 2 });
    assert_eq!(bits(&emb), before);
}
