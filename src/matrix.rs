use vstd::prelude::*;

verus! {

/// A dense matrix with `rows` rows, stored as a sequence of columns.
///
/// A matrix with zero columns still keeps its row count, so an
/// `(d × 0)` matrix is distinguishable from a `(0 × 0)` one.
///
/// The element type is a parameter, and contracts speak of every entry, so
/// the library keeps its own matrix rather than an array type of an outside
/// crate, whose contents a contract could not name for a generic element.
#[derive(Clone, Debug)]
pub struct Matrix<T> {
    rows: usize,
    columns: Vec<Vec<T>>,
}

impl<T> View for Matrix<T> {
    /// The columns, in order, each as a sequence of `n_rows()` entries.
    type V = Seq<Seq<T>>;

    closed spec fn view(&self) -> Seq<Seq<T>> {
        self.columns@.map_values(|c: Vec<T>| c@)
    }
}

impl<T> Matrix<T> {
    /// The number of rows.
    pub closed spec fn n_rows(&self) -> nat {
        self.rows as nat
    }

    /// The number of columns.
    pub open spec fn n_cols(&self) -> nat {
        self@.len()
    }

    /// The entry in row `r` and column `c`.
    pub open spec fn at(&self, r: int, c: int) -> T {
        self@[c][r]
    }

    /// Every column holds exactly `n_rows()` entries.
    pub open spec fn wf(&self) -> bool {
        forall|c: int| 0 <= c < self@.len() ==> (#[trigger] self@[c]).len() == self.n_rows()
    }

    /// A matrix of `rows` rows and no columns.
    pub fn with_rows(rows: usize) -> (m: Self)
        ensures
            m.wf(),
            m.n_rows() == rows,
            m@ == Seq::<Seq<T>>::empty(),
    {
        let m = Matrix { rows, columns: Vec::new() };
        assert(m@ =~= Seq::<Seq<T>>::empty());
        m
    }

    /// Appends `column` as the new last column.
    pub fn push_column(&mut self, column: Vec<T>)
        requires
            old(self).wf(),
            column@.len() == old(self).n_rows(),
        ensures
            final(self).wf(),
            final(self).n_rows() == old(self).n_rows(),
            final(self)@ == old(self)@.push(column@),
    {
        self.columns.push(column);
        assert(self@ =~= old(self)@.push(column@));
    }

    /// The number of rows.
    pub fn nrows(&self) -> (r: usize)
        ensures
            r == self.n_rows(),
    {
        self.rows
    }

    /// The number of columns.
    pub fn ncols(&self) -> (c: usize)
        ensures
            c == self.n_cols(),
    {
        self.columns.len()
    }

    /// The shape as `(rows, columns)`.
    pub fn shape(&self) -> (s: (usize, usize))
        ensures
            s.0 == self.n_rows(),
            s.1 == self.n_cols(),
    {
        (self.rows, self.columns.len())
    }
}

impl<T: Copy> Matrix<T> {
    /// The entry in row `r` and column `c`.
    pub fn get(&self, r: usize, c: usize) -> (v: T)
        requires
            self.wf(),
            r < self.n_rows(),
            c < self.n_cols(),
        ensures
            v == self.at(r as int, c as int),
    {
        assert(self@[c as int] == self.columns@[c as int]@);
        self.columns[c][r]
    }

    /// A copy of column `c`.
    pub fn column(&self, c: usize) -> (col: Vec<T>)
        requires
            self.wf(),
            c < self.n_cols(),
        ensures
            col@ == self@[c as int],
    {
        assert(self@[c as int] == self.columns@[c as int]@);
        let src = &self.columns[c];
        let mut col: Vec<T> = Vec::new();
        let mut r: usize = 0;
        while r < src.len()
            invariant
                src@ == self@[c as int],
                r <= src@.len(),
                col@ == src@.subrange(0, r as int),
            decreases src@.len() - r,
        {
            col.push(src[r]);
            r += 1;
            assert(col@ =~= src@.subrange(0, r as int));
        }
        assert(col@ =~= src@);
        col
    }

    /// Replaces the entry in row `r` and column `c` by `v`.
    pub fn set(&mut self, r: usize, c: usize, v: T)
        requires
            old(self).wf(),
            r < old(self).n_rows(),
            c < old(self).n_cols(),
        ensures
            final(self).wf(),
            final(self).n_rows() == old(self).n_rows(),
            final(self)@ == old(self)@.update(c as int, old(self)@[c as int].update(r as int, v)),
    {
        assert(old(self)@[c as int] == old(self).columns@[c as int]@);
        let mut col: Vec<T> = Vec::new();
        std::mem::swap(&mut col, &mut self.columns[c]);
        col.set(r, v);
        std::mem::swap(&mut col, &mut self.columns[c]);
        assert(self@ =~= old(self)@.update(c as int, old(self)@[c as int].update(r as int, v)));
    }
}

} // verus!
