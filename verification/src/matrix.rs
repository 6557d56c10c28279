//! A dense row-major matrix over any copyable element type.
//!
//! Entry `(i, j)` of an `rows x cols` matrix is stored at position
//! `i * cols + j` of one vector. Everything here moves entries around
//! (building, transposing, selecting, copying blocks); no arithmetic is done
//! on the entries themselves.
use vstd::prelude::*;

verus! {

/// Position `i * cols + j` lies inside a `rows x cols` layout.
pub proof fn lemma_index_in_range(i: int, j: int, rows: int, cols: int)
    requires
        0 <= i < rows,
        0 <= j < cols,
    ensures
        0 <= i * cols + j < rows * cols,
{
    assert(i * cols + j < rows * cols) by (nonlinear_arith)
        requires
            0 <= i < rows,
            0 <= j < cols,
    ;
    assert(0 <= i * cols) by (nonlinear_arith)
        requires
            0 <= i,
            0 <= cols,
    ;
}

/// Distinct entries of a layout have distinct positions.
pub proof fn lemma_index_injective(i1: int, j1: int, i2: int, j2: int, cols: int)
    requires
        0 <= j1 < cols,
        0 <= j2 < cols,
        0 <= i1,
        0 <= i2,
        i1 * cols + j1 == i2 * cols + j2,
    ensures
        i1 == i2,
        j1 == j2,
{
    if i1 < i2 {
        assert(i1 * cols + cols <= i2 * cols) by (nonlinear_arith)
            requires
                i1 < i2,
                0 <= cols,
        ;
    } else if i2 < i1 {
        assert(i2 * cols + cols <= i1 * cols) by (nonlinear_arith)
            requires
                i2 < i1,
                0 <= cols,
        ;
    }
}

/// The row of `(i + 1) * cols` starts right after row `i`.
proof fn lemma_next_row(i: int, cols: int)
    ensures
        (i + 1) * cols == i * cols + cols,
{
    assert((i + 1) * cols == i * cols + cols) by (nonlinear_arith);
}

/// A dense row-major matrix.
#[derive(Debug)]
pub struct Mat<T> {
    rows: usize,
    cols: usize,
    data: Vec<T>,
}

impl<T> Mat<T> {
    /// The stored vector holds exactly `rows * cols` entries.
    #[verifier::type_invariant]
    spec fn wf(&self) -> bool {
        self.data@.len() == self.rows * self.cols
    }
}

impl<T: Copy> Clone for Mat<T> {
    /// A copy with the same shape and entries.
    fn clone(&self) -> (r: Self)
        ensures
            r.same(self),
    {
        proof {
            use_type_invariant(self);
        }
        let mut data: Vec<T> = Vec::new();
        let mut k: usize = 0;
        while k < self.data.len()
            invariant
                k <= self.data@.len(),
                data@ == self.data@.subrange(0, k as int),
            decreases self.data@.len() - k,
        {
            data.push(self.data[k]);
            k = k + 1;
        }
        proof {
            assert(data@ == self.data@);
        }
        Mat { rows: self.rows, cols: self.cols, data }
    }
}

impl<T: Copy> Mat<T> {
    /// Number of rows.
    pub closed spec fn nrows(&self) -> nat {
        self.rows as nat
    }

    /// Number of columns.
    pub closed spec fn ncols(&self) -> nat {
        self.cols as nat
    }

    /// Entry `(i, j)`.
    pub closed spec fn at(&self, i: int, j: int) -> T {
        self.data@[i * self.cols + j]
    }

    /// Same shape and the same entries.
    pub open spec fn same(&self, other: &Mat<T>) -> bool {
        &&& self.nrows() == other.nrows()
        &&& self.ncols() == other.ncols()
        &&& forall|i: int, j: int|
            0 <= i < self.nrows() && 0 <= j < self.ncols() ==> #[trigger] self.at(i, j)
                == other.at(i, j)
    }

    /// `t` is the transpose of `self`.
    pub open spec fn is_transpose_of(&self, t: &Mat<T>) -> bool {
        &&& t.nrows() == self.ncols()
        &&& t.ncols() == self.nrows()
        &&& forall|i: int, j: int|
            0 <= i < t.nrows() && 0 <= j < t.ncols() ==> #[trigger] t.at(i, j) == self.at(j, i)
    }

    /// Transposing twice gives back the matrix.
    pub proof fn lemma_transpose_involution(a: &Mat<T>, t: &Mat<T>, tt: &Mat<T>)
        requires
            a.is_transpose_of(t),
            t.is_transpose_of(tt),
        ensures
            tt.same(a),
    {
        assert forall|i: int, j: int|
            0 <= i < tt.nrows() && 0 <= j < tt.ncols() implies #[trigger] tt.at(i, j) == a.at(
            i,
            j,
        ) by {
            assert(tt.at(i, j) == t.at(j, i));
        }
    }

    /// Number of rows.
    pub fn rows(&self) -> (r: usize)
        ensures
            r == self.nrows(),
    {
        self.rows
    }

    /// Number of columns.
    pub fn cols(&self) -> (r: usize)
        ensures
            r == self.ncols(),
    {
        self.cols
    }

    /// Builds the `rows x cols` matrix whose entry `(i, j)` is `f(i, j)`.
    pub fn from_fn<F: Fn(usize, usize) -> T>(rows: usize, cols: usize, f: F) -> (m: Mat<T>)
        requires
            rows * cols <= usize::MAX,
            forall|i: usize, j: usize| i < rows && j < cols ==> #[trigger] f.requires((i, j)),
        ensures
            m.nrows() == rows,
            m.ncols() == cols,
            forall|i: int, j: int|
                0 <= i < rows && 0 <= j < cols ==> f.ensures(
                    (i as usize, j as usize),
                    #[trigger] m.at(i, j),
                ),
    {
        let mut data: Vec<T> = Vec::new();
        let mut i: usize = 0;
        while i < rows
            invariant
                i <= rows,
                rows * cols <= usize::MAX,
                forall|a: usize, b: usize| a < rows && b < cols ==> #[trigger] f.requires((a, b)),
                data@.len() == i * cols,
                forall|a: int, b: int|
                    0 <= a < i && 0 <= b < cols ==> f.ensures(
                        (a as usize, b as usize),
                        #[trigger] data@[a * cols + b],
                    ),
            decreases rows - i,
        {
            proof {
                lemma_next_row(i as int, cols as int);
                assert((i + 1) * cols <= rows * cols) by (nonlinear_arith)
                    requires
                        i < rows,
            ;
            }
            let mut j: usize = 0;
            while j < cols
                invariant
                    i < rows,
                    j <= cols,
                    (i + 1) * cols <= rows * cols,
                    rows * cols <= usize::MAX,
                    (i + 1) * cols == i * cols + cols,
                    forall|a: usize, b: usize|
                        a < rows && b < cols ==> #[trigger] f.requires((a, b)),
                    data@.len() == i * cols + j,
                    forall|a: int, b: int|
                        0 <= a < i && 0 <= b < cols ==> f.ensures(
                            (a as usize, b as usize),
                            #[trigger] data@[a * cols + b],
                        ),
                    forall|b: int|
                        0 <= b < j ==> f.ensures((i, b as usize), #[trigger] data@[i * cols + b]),
                decreases cols - j,
            {
                let v = f(i, j);
                let ghost old_data = data@;
                data.push(v);
                proof {
                    assert forall|a: int, b: int|
                        0 <= a < i && 0 <= b < cols implies f.ensures(
                        (a as usize, b as usize),
                        #[trigger] data@[a * cols + b],
                    ) by {
                        lemma_index_in_range(a, b, i as int, cols as int);
                        assert(data@[a * cols + b] == old_data[a * cols + b]);
                    }
                    assert forall|b: int| 0 <= b < j + 1 implies f.ensures(
                        (i, b as usize),
                        #[trigger] data@[i * cols + b],
                    ) by {
                        if b < j {
                            assert(data@[i * cols + b] == old_data[i * cols + b]);
                        }
                    }
                }
                j = j + 1;
            }
            i = i + 1;
        }
        let m = Mat { rows, cols, data };
        assert forall|i: int, j: int| 0 <= i < rows && 0 <= j < cols implies f.ensures(
            (i as usize, j as usize),
            #[trigger] m.at(i, j),
        ) by {
            assert(m.at(i, j) == data@[i * cols + j]);
        }
        m
    }

    /// The `rows x cols` matrix with every entry equal to `zero`.
    pub fn zeros(rows: usize, cols: usize, zero: T) -> (m: Mat<T>)
        requires
            rows * cols <= usize::MAX,
        ensures
            m.nrows() == rows,
            m.ncols() == cols,
            forall|i: int, j: int| 0 <= i < rows && 0 <= j < cols ==> #[trigger] m.at(i, j) == zero,
    {
        let n: usize = rows * cols;
        let mut data: Vec<T> = Vec::new();
        while data.len() < n
            invariant
                data@.len() <= n,
                forall|k: int| 0 <= k < data@.len() ==> data@[k] == zero,
            decreases n - data@.len(),
        {
            data.push(zero);
        }
        let m = Mat { rows, cols, data };
        assert forall|i: int, j: int| 0 <= i < rows && 0 <= j < cols implies #[trigger] m.at(i, j)
            == zero by {
            lemma_index_in_range(i, j, rows as int, cols as int);
        }
        m
    }

    /// Entry `(i, j)`.
    pub fn get(&self, i: usize, j: usize) -> (v: T)
        requires
            i < self.nrows(),
            j < self.ncols(),
        ensures
            v == self.at(i as int, j as int),
    {
        let n = self.data.len();
        proof {
            use_type_invariant(&*self);
            lemma_index_in_range(i as int, j as int, self.rows as int, self.cols as int);
        }
        self.data[i * self.cols + j]
    }

    /// Replaces entry `(i, j)` by `v`; all other entries stay.
    pub fn set(&mut self, i: usize, j: usize, v: T)
        requires
            i < old(self).nrows(),
            j < old(self).ncols(),
        ensures
            final(self).nrows() == old(self).nrows(),
            final(self).ncols() == old(self).ncols(),
            final(self).at(i as int, j as int) == v,
            forall|a: int, b: int|
                0 <= a < old(self).nrows() && 0 <= b < old(self).ncols() && (a != i || b != j)
                    ==> #[trigger] final(self).at(a, b) == old(self).at(a, b),
    {
        let n = self.data.len();
        proof {
            use_type_invariant(&*self);
            lemma_index_in_range(i as int, j as int, self.rows as int, self.cols as int);
        }
        let k = i * self.cols + j;
        let mut taken = Mat { rows: 0, cols: 0, data: Vec::new() };
        std::mem::swap(self, &mut taken);
        let Mat { rows, cols, mut data } = taken;
        data.set(k, v);
        *self = Mat { rows, cols, data };
        proof {
            assert forall|a: int, b: int|
                0 <= a < old(self).nrows() && 0 <= b < old(self).ncols() && (a != i || b != j)
                    implies #[trigger] self.at(a, b) == old(self).at(a, b) by {
                lemma_index_in_range(a, b, self.rows as int, self.cols as int);
                if a * self.cols + b == k {
                    lemma_index_injective(a, b, i as int, j as int, self.cols as int);
                }
            }
        }
    }

    /// The `n x n` matrix with `one` on the diagonal and `zero` elsewhere.
    pub fn identity(n: usize, zero: T, one: T) -> (m: Mat<T>)
        requires
            n * n <= usize::MAX,
        ensures
            m.nrows() == n,
            m.ncols() == n,
            forall|i: int, j: int|
                0 <= i < n && 0 <= j < n ==> #[trigger] m.at(i, j) == if i == j {
                    one
                } else {
                    zero
                },
    {
        let f = |i: usize, j: usize| -> (r: T)
            ensures
                r == if i == j {
                    one
                } else {
                    zero
                },
            {
                if i == j {
                    one
                } else {
                    zero
                }
            };
        Self::from_fn(n, n, f)
    }

    /// The square matrix with `d` on the diagonal and `zero` elsewhere.
    pub fn diag(d: &[T], zero: T) -> (m: Mat<T>)
        requires
            d@.len() * d@.len() <= usize::MAX,
        ensures
            m.nrows() == d@.len(),
            m.ncols() == d@.len(),
            forall|i: int, j: int|
                0 <= i < d@.len() && 0 <= j < d@.len() ==> #[trigger] m.at(i, j) == if i == j {
                    d@[i]
                } else {
                    zero
                },
    {
        let n = d.len();
        let f = |i: usize, j: usize| -> (r: T)
            requires
                i < n,
                j < n,
            ensures
                r == if i == j {
                    d@[i as int]
                } else {
                    zero
                },
            {
                if i == j {
                    d[i]
                } else {
                    zero
                }
            };
        Self::from_fn(n, n, f)
    }

    /// The transpose: entry `(i, j)` of the result is entry `(j, i)` of `self`.
    pub fn transpose(&self) -> (t: Mat<T>)
        requires
        ensures
            self.is_transpose_of(&t),
    {
        proof {
            use_type_invariant(self);
        }
        let rows = self.rows;
        let cols = self.cols;
        let n = self.data.len();
        assert(cols * rows <= usize::MAX) by (nonlinear_arith)
            requires
                n == rows * cols,
                n <= usize::MAX,
        ;
        let f = |i: usize, j: usize| -> (r: T)
            requires
                i < cols,
                j < rows,
            ensures
                r == self.at(j as int, i as int),
            { self.get(j, i) };
        Self::from_fn(cols, rows, f)
    }

    /// Column `j` as a vector.
    pub fn col(&self, j: usize) -> (c: Vec<T>)
        requires
            j < self.ncols(),
        ensures
            c@.len() == self.nrows(),
            forall|i: int| 0 <= i < self.nrows() ==> #[trigger] c@[i] == self.at(i, j as int),
    {
        self.col_segment(j, 0)
    }

    /// Entries `from..rows` of column `j`.
    pub fn col_segment(&self, j: usize, from: usize) -> (c: Vec<T>)
        requires
            j < self.ncols(),
            from <= self.nrows(),
        ensures
            c@.len() == self.nrows() - from,
            forall|t: int| 0 <= t < c@.len() ==> #[trigger] c@[t] == self.at(from + t, j as int),
    {
        let mut c: Vec<T> = Vec::new();
        let mut i = from;
        while i < self.rows
            invariant
                j < self.ncols(),
                from <= i <= self.nrows(),
                c@.len() == i - from,
                forall|t: int| 0 <= t < c@.len() ==> #[trigger] c@[t] == self.at(from + t, j as int),
            decreases self.nrows() - i,
        {
            c.push(self.get(i, j));
            i = i + 1;
        }
        c
    }

    /// Writes `values` into entries `from..rows` of column `j`; all other
    /// entries stay.
    pub fn set_col_segment(&mut self, j: usize, from: usize, values: &[T])
        requires
            j < old(self).ncols(),
            from + values@.len() == old(self).nrows(),
        ensures
            final(self).nrows() == old(self).nrows(),
            final(self).ncols() == old(self).ncols(),
            forall|i: int, b: int|
                0 <= i < old(self).nrows() && 0 <= b < old(self).ncols() ==> #[trigger] final(self).at(i, b) == if b == j && i >= from {
                    values@[i - from]
                } else {
                    old(self).at(i, b)
                },
    {
        let ghost orig = *self;
        let mut t: usize = 0;
        while t < values.len()
            invariant
                self.nrows() == orig.nrows(),
                self.ncols() == orig.ncols(),
                j < orig.ncols(),
                from + values@.len() == orig.nrows(),
                t <= values@.len(),
                forall|i: int, b: int|
                    0 <= i < orig.nrows() && 0 <= b < orig.ncols() ==> #[trigger] self.at(i, b)
                        == if b == j && from <= i < from + t {
                        values@[i - from]
                    } else {
                        orig.at(i, b)
                    },
            decreases values@.len() - t,
        {
            self.set(from + t, j, values[t]);
            t = t + 1;
        }
    }

    /// Exchanges rows `a` and `b`.
    pub fn swap_rows(&mut self, a: usize, b: usize)
        requires
            a < old(self).nrows(),
            b < old(self).nrows(),
        ensures
            final(self).nrows() == old(self).nrows(),
            final(self).ncols() == old(self).ncols(),
            forall|i: int, j: int|
                0 <= i < old(self).nrows() && 0 <= j < old(self).ncols() ==> #[trigger] final(self).at(i, j) == old(self).at(
                    if i == a {
                        b as int
                    } else if i == b {
                        a as int
                    } else {
                        i
                    },
                    j,
                ),
    {
        let ghost orig = *self;
        let mut j: usize = 0;
        while j < self.cols
            invariant
                self.nrows() == orig.nrows(),
                self.ncols() == orig.ncols(),
                a < orig.nrows(),
                b < orig.nrows(),
                j <= orig.ncols(),
                forall|i: int, c: int|
                    0 <= i < orig.nrows() && 0 <= c < orig.ncols() ==> #[trigger] self.at(i, c)
                        == if c < j {
                        orig.at(
                            if i == a {
                                b as int
                            } else if i == b {
                                a as int
                            } else {
                                i
                            },
                            c,
                        )
                    } else {
                        orig.at(i, c)
                    },
            decreases orig.ncols() - j,
        {
            let x = self.get(a, j);
            let y = self.get(b, j);
            self.set(a, j, y);
            self.set(b, j, x);
            j = j + 1;
        }
    }

    /// The matrix made of the columns `idx[0], idx[1], ...` of `self`, in that
    /// order.
    pub fn select_cols(&self, idx: &[usize]) -> (m: Mat<T>)
        requires
            forall|c: int| 0 <= c < idx@.len() ==> #[trigger] idx@[c] < self.ncols(),
            self.nrows() * idx@.len() <= usize::MAX,
        ensures
            m.nrows() == self.nrows(),
            m.ncols() == idx@.len(),
            forall|i: int, c: int|
                0 <= i < m.nrows() && 0 <= c < m.ncols() ==> #[trigger] m.at(i, c) == self.at(
                    i,
                    idx@[c] as int,
                ),
    {
        let rows = self.rows;
        let k = idx.len();
        let f = |i: usize, c: usize| -> (r: T)
            requires
                i < rows,
                c < k,
            ensures
                r == self.at(i as int, idx@[c as int] as int),
            { self.get(i, idx[c]) };
        Self::from_fn(rows, k, f)
    }

    /// The square matrix of the first `cols` rows of `self` with the entries
    /// below the diagonal replaced by `zero`.
    pub fn upper_triangle(&self, zero: T) -> (r: Mat<T>)
        requires
            self.ncols() <= self.nrows(),
        ensures
            r.nrows() == self.ncols(),
            r.ncols() == self.ncols(),
            forall|i: int, j: int|
                0 <= i < r.nrows() && 0 <= j < r.ncols() ==> #[trigger] r.at(i, j) == if i <= j {
                    self.at(i, j)
                } else {
                    zero
                },
    {
        proof {
            use_type_invariant(self);
        }
        let m = self.cols;
        let n = self.data.len();
        assert(m * m <= usize::MAX) by (nonlinear_arith)
            requires
                n == self.rows * m,
                m <= self.rows,
                n <= usize::MAX,
        ;
        let f = |i: usize, j: usize| -> (r: T)
            requires
                i < m,
                j < m,
            ensures
                r == if i <= j {
                    self.at(i as int, j as int)
                } else {
                    zero
                },
            {
                if i <= j {
                    self.get(i, j)
                } else {
                    zero
                }
            };
        Self::from_fn(m, m, f)
    }

    /// Copies `block` into `self` with its top-left entry at `(row0, col0)`;
    /// entries outside that region stay.
    pub fn write_block(&mut self, row0: usize, col0: usize, block: &Mat<T>)
        requires
            row0 + block.nrows() <= old(self).nrows(),
            col0 + block.ncols() <= old(self).ncols(),
        ensures
            final(self).nrows() == old(self).nrows(),
            final(self).ncols() == old(self).ncols(),
            forall|i: int, j: int|
                0 <= i < old(self).nrows() && 0 <= j < old(self).ncols() ==> #[trigger] final(self).at(i, j)
                    == if row0 <= i < row0 + block.nrows() && col0 <= j < col0 + block.ncols() {
                    block.at(i - row0, j - col0)
                } else {
                    old(self).at(i, j)
                },
    {
        let ghost orig = *self;
        let br = block.rows;
        let bc = block.cols;
        let mut a: usize = 0;
        while a < br
            invariant
                br == block.nrows(),
                bc == block.ncols(),
                self.nrows() == orig.nrows(),
                self.ncols() == orig.ncols(),
                row0 + br <= orig.nrows(),
                col0 + bc <= orig.ncols(),
                a <= br,
                forall|i: int, j: int|
                    0 <= i < orig.nrows() && 0 <= j < orig.ncols() ==> #[trigger] self.at(i, j)
                        == if row0 <= i < row0 + a && col0 <= j < col0 + bc {
                        block.at(i - row0, j - col0)
                    } else {
                        orig.at(i, j)
                    },
            decreases br - a,
        {
            let mut b: usize = 0;
            while b < bc
                invariant
                    br == block.nrows(),
                    bc == block.ncols(),
                    self.nrows() == orig.nrows(),
                    self.ncols() == orig.ncols(),
                    row0 + br <= orig.nrows(),
                    col0 + bc <= orig.ncols(),
                    a < br,
                    b <= bc,
                    forall|i: int, j: int|
                        0 <= i < orig.nrows() && 0 <= j < orig.ncols() ==> #[trigger] self.at(i, j)
                            == if (row0 <= i < row0 + a && col0 <= j < col0 + bc) || (i == row0 + a
                            && col0 <= j < col0 + b) {
                            block.at(i - row0, j - col0)
                        } else {
                            orig.at(i, j)
                        },
                decreases bc - b,
            {
                let v = block.get(a, b);
                self.set(row0 + a, col0 + b, v);
                b = b + 1;
            }
            a = a + 1;
        }
    }
}

} // verus!
