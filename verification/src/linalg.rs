use vstd::prelude::*;
use rand::rngs::SmallRng;
use crate::fixed::SCALE;
use crate::random::uniform;

verus! {

/// A matrix of fixed-point numbers, held as its columns: a sample of points
/// has one column per point and one row per feature.
#[derive(Debug)]
pub struct Matrix {
    rows: usize,
    columns: Vec<Vec<i32>>,
}

/// The columns of a matrix, each as a sequence.
pub open spec fn columns_of(v: Seq<Vec<i32>>) -> Seq<Seq<i32>> {
    Seq::new(v.len(), |c: int| v[c]@)
}

/// Every column of `columns` has `rows` entries.
pub open spec fn rectangular(rows: nat, columns: Seq<Seq<i32>>) -> bool {
    forall|c: int| 0 <= c < columns.len() ==> (#[trigger] columns[c]).len() == rows
}

impl View for Matrix {
    type V = Seq<Seq<i32>>;

    /// The columns, left to right; `self@[c][r]` is the entry in row `r`
    /// of column `c`. The number of rows, which a matrix without columns
    /// has too, is not part of the view: it is `rows()`.
    closed spec fn view(&self) -> Seq<Seq<i32>> {
        columns_of(self.columns@)
    }
}

impl Matrix {
    /// The number of rows.
    pub closed spec fn rows(&self) -> nat {
        self.rows as nat
    }

    /// The number of columns.
    pub open spec fn cols(&self) -> nat {
        self@.len()
    }

    /// The entry in row `r` of column `c`.
    pub open spec fn at(&self, r: int, c: int) -> i32 {
        self@[c][r]
    }

    /// Every column has as many entries as the matrix has rows.
    pub open spec fn well_formed(&self) -> bool {
        rectangular(self.rows(), self@)
    }

    #[verifier::type_invariant]
    pub open spec fn inv(&self) -> bool {
        self.well_formed()
    }

    /// Every entry of the matrix is `v`.
    pub open spec fn all_entries(&self, v: i32) -> bool {
        forall|r: int, c: int|
            0 <= r < self.rows() && 0 <= c < self.cols() ==> #[trigger] self.at(r, c) == v
    }

    /// `cols` columns of `rows` entries, each of them `v`.
    fn filled_columns(rows: usize, cols: usize, v: i32) -> (columns: Vec<Vec<i32>>)
        ensures
            columns@.len() == cols,
            forall|k: int| 0 <= k < cols ==> (#[trigger] columns@[k])@.len() == rows,
            forall|k: int, r: int|
                0 <= k < cols && 0 <= r < rows ==> (#[trigger] columns@[k]@[r]) == v,
    {
        let mut columns: Vec<Vec<i32>> = Vec::new();
        let mut c: usize = 0;
        while c < cols
            invariant
                c <= cols,
                columns@.len() == c,
                forall|k: int| 0 <= k < c ==> (#[trigger] columns@[k])@.len() == rows,
                forall|k: int, r: int|
                    0 <= k < c && 0 <= r < rows ==> (#[trigger] columns@[k]@[r]) == v,
            decreases cols - c,
        {
            let mut column: Vec<i32> = Vec::new();
            let mut r: usize = 0;
            while r < rows
                invariant
                    r <= rows,
                    column@.len() == r,
                    forall|k: int| 0 <= k < r ==> #[trigger] column@[k] == v,
                decreases rows - r,
            {
                column.push(v);
                r = r + 1;
            }
            columns.push(column);
            c = c + 1;
        }
        columns
    }

    /// A matrix of `rows` by `cols` entries, each of them `v`.
    pub fn filled(rows: usize, cols: usize, v: i32) -> (m: Matrix)
        ensures
            m.well_formed(),
            m.rows() == rows,
            m.cols() == cols,
            m.all_entries(v),
    {
        let columns = Matrix::filled_columns(rows, cols, v);
        Matrix { rows, columns }
    }

    /// The matrix of `rows` by `cols` zeros.
    pub fn zeros(rows: usize, cols: usize) -> (m: Matrix)
        ensures
            m.well_formed(),
            m.rows() == rows,
            m.cols() == cols,
            m.all_entries(0),
    {
        Matrix::filled(rows, cols, 0)
    }

    /// The matrix of `rows` by `cols` ones, each the fixed-point 1.0.
    pub fn ones(rows: usize, cols: usize) -> (m: Matrix)
        ensures
            m.well_formed(),
            m.rows() == rows,
            m.cols() == cols,
            m.all_entries(SCALE),
    {
        Matrix::filled(rows, cols, SCALE)
    }

    /// A matrix of `rows` by `cols` entries, each drawn from `-1.0` up to,
    /// not including, `1.0`. The draws are made row by row.
    pub fn random(rows: usize, cols: usize, rng: &mut SmallRng) -> (m: Matrix)
        ensures
            m.well_formed(),
            m.rows() == rows,
            m.cols() == cols,
            forall|r: int, c: int|
                0 <= r < rows && 0 <= c < cols ==> -SCALE <= #[trigger] m.at(r, c) < SCALE,
    {
        let mut columns: Vec<Vec<i32>> = Matrix::filled_columns(rows, cols, 0);
        let mut r: usize = 0;
        while r < rows
            invariant
                r <= rows,
                columns@.len() == cols,
                forall|k: int| 0 <= k < cols ==> (#[trigger] columns@[k])@.len() == rows,
                forall|k: int, i: int|
                    0 <= k < cols && 0 <= i < rows ==> -SCALE <= (#[trigger] columns@[k]@[i])
                        < SCALE,
            decreases rows - r,
        {
            let mut c: usize = 0;
            while c < cols
                invariant
                    r < rows,
                    c <= cols,
                    columns@.len() == cols,
                    forall|k: int| 0 <= k < cols ==> (#[trigger] columns@[k])@.len() == rows,
                    forall|k: int, i: int|
                        0 <= k < cols && 0 <= i < rows ==> -SCALE <= (
                        #[trigger] columns@[k]@[i]) < SCALE,
                decreases cols - c,
            {
                let v: i32 = uniform(rng, -SCALE, SCALE);
                columns[c][r] = v;
                c = c + 1;
            }
            r = r + 1;
        }
        Matrix { rows, columns }
    }

    /// The matrix with the given columns, if each of them has `rows`
    /// entries.
    pub fn from_columns(rows: usize, columns: Vec<Vec<i32>>) -> (m: Option<Matrix>)
        ensures
            m is Some <==> rectangular(rows as nat, columns_of(columns@)),
            m matches Some(a) ==> a.well_formed() && a.rows() == rows && a@ == columns_of(
                columns@,
            ),
    {
        let mut c: usize = 0;
        while c < columns.len()
            invariant
                c <= columns@.len(),
                forall|k: int| 0 <= k < c ==> (#[trigger] columns@[k])@.len() == rows,
            decreases columns@.len() - c,
        {
            if columns[c].len() != rows {
                assert(columns_of(columns@)[c as int].len() != rows);
                return None;
            }
            c = c + 1;
        }
        assert(rectangular(rows as nat, columns_of(columns@)));
        Some(Matrix { rows, columns })
    }

    /// The number of rows.
    pub fn nrows(&self) -> (n: usize)
        ensures
            n == self.rows(),
    {
        self.rows
    }

    /// The number of columns.
    pub fn ncols(&self) -> (n: usize)
        ensures
            n == self.cols(),
    {
        self.columns.len()
    }

    /// Column `c`, where the matrix has one.
    pub fn column(&self, c: usize) -> (col: Option<&Vec<i32>>)
        ensures
            self.well_formed(),
            col is Some <==> c < self.cols(),
            col matches Some(v) ==> v@ == self@[c as int] && v@.len() == self.rows(),
    {
        proof {
            use_type_invariant(self);
        }
        if c < self.columns.len() {
            Some(&self.columns[c])
        } else {
            None
        }
    }

    /// The entry in row `r` of column `c`, where the matrix has one.
    pub fn get(&self, r: usize, c: usize) -> (v: Option<i32>)
        ensures
            v is Some <==> r < self.rows() && c < self.cols(),
            v matches Some(x) ==> x == self.at(r as int, c as int),
    {
        proof {
            use_type_invariant(self);
        }
        if c < self.columns.len() && r < self.rows {
            assert(self@[c as int].len() == self.rows());
            Some(self.columns[c][r])
        } else {
            None
        }
    }
}

} // verus!
