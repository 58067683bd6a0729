use vstd::prelude::*;

verus! {

/// A dense matrix of signs: one row per unknown, one column per registered
/// function, every entry -1, 0 or +1 in practice. It is kept in an
/// `ndarray` array; the proofs know what it holds only through `sign_rows`
/// and `sign_cols` and the contracts of the five functions below that reach
/// into the array.
#[derive(Debug)]
#[verifier::external_body]
pub struct SignMatrix {
    inner: ndarray::Array2<i8>,
}

/// The entries of a sign matrix, row by row.
pub uninterp spec fn sign_rows(h: SignMatrix) -> Seq<Seq<i8>>;

/// The number of columns that a sign matrix was made with.
pub uninterp spec fn sign_cols(h: SignMatrix) -> nat;

impl View for SignMatrix {
    type V = Seq<Seq<i8>>;

    open spec fn view(&self) -> Seq<Seq<i8>> {
        sign_rows(*self)
    }
}

/// A matrix of `rows` rows and `cols` columns that holds 0 everywhere.
pub open spec fn zeros(rows: nat, cols: nat) -> Seq<Seq<i8>> {
    Seq::new(rows, |i: int| Seq::new(cols, |j: int| 0i8))
}

/// The number of entries that an array of this shape is sized by: the
/// product of its axis lengths, an empty axis counted as 1.
pub open spec fn shape_size(rows: nat, cols: nat) -> nat {
    (if rows == 0 {
        1
    } else {
        rows
    }) * (if cols == 0 {
        1
    } else {
        cols
    })
}

/// A shape whose axes stay within two bounds is sized by no more than the
/// product of the bounds.
pub proof fn lemma_shape_size_bound(rows: nat, cols: nat, max_rows: nat, max_cols: nat)
    requires
        rows <= max_rows,
        cols <= max_cols,
        1 <= max_rows,
        1 <= max_cols,
    ensures
        shape_size(rows, cols) <= max_rows * max_cols,
{
    let r: nat = if rows == 0 {
        1
    } else {
        rows
    };
    let c: nat = if cols == 0 {
        1
    } else {
        cols
    };
    assert(r * c <= max_rows * max_cols) by (nonlinear_arith)
        requires
            r <= max_rows,
            c <= max_cols,
    ;
}

/// A shape with at most 32768 rows and as many columns can always be made.
pub proof fn lemma_shape_size_small(rows: nat, cols: nat)
    requires
        rows <= 0x8000,
        cols <= 0x8000,
    ensures
        shape_size(rows, cols) <= isize::MAX,
{
    lemma_shape_size_bound(rows, cols, 0x8000, 0x8000);
    assert(0x8000 * 0x8000 == 0x4000_0000) by (nonlinear_arith);
}

/// `ndarray::Array2::zeros` on a pair of axis lengths: an array of that
/// shape whose entries are all 0. It panics where the product of the
/// non-empty axis lengths exceeds `isize::MAX`, which the precondition
/// leaves out.
#[verifier::external_body]
fn array_zeros(rows: usize, cols: usize) -> (h: SignMatrix)
    requires
        shape_size(rows as nat, cols as nat) <= isize::MAX,
    ensures
        sign_rows(h) == zeros(rows as nat, cols as nat),
        sign_cols(h) == cols,
{
    SignMatrix { inner: ndarray::Array2::zeros((rows, cols)) }
}

/// `ArrayBase::nrows`: the length of the first axis.
#[verifier::external_body]
fn array_nrows(h: &SignMatrix) -> (n: usize)
    ensures
        n == sign_rows(*h).len(),
{
    h.inner.nrows()
}

/// `ArrayBase::ncols`: the length of the second axis, which is the number
/// of columns that the array was made with and the length of every row.
#[verifier::external_body]
fn array_ncols(h: &SignMatrix) -> (n: usize)
    ensures
        n == sign_cols(*h),
        forall|i: int| 0 <= i < sign_rows(*h).len() ==> (#[trigger] sign_rows(*h)[i]).len() == n,
{
    h.inner.ncols()
}

/// Indexing an array by a pair: the entry at that row and column. It
/// panics out of bounds, which the precondition leaves out.
#[verifier::external_body]
fn array_get(h: &SignMatrix, i: usize, k: usize) -> (v: i8)
    requires
        i < sign_rows(*h).len(),
        k < sign_rows(*h)[i as int].len(),
    ensures
        v == sign_rows(*h)[i as int][k as int],
{
    h.inner[(i, k)]
}

/// Assigning through an index pair: the entry at that row and column takes
/// the value, every other entry and the shape stay. It panics out of
/// bounds, which the precondition leaves out.
#[verifier::external_body]
fn array_set(h: &mut SignMatrix, i: usize, k: usize, v: i8)
    requires
        i < sign_rows(*old(h)).len(),
        k < sign_rows(*old(h))[i as int].len(),
    ensures
        sign_rows(*final(h)) == sign_rows(*old(h)).update(
            i as int,
            sign_rows(*old(h))[i as int].update(k as int, v),
        ),
        sign_cols(*final(h)) == sign_cols(*old(h)),
{
    h.inner[(i, k)] = v;
}

impl SignMatrix {
    /// The number of columns that the matrix was made with.
    pub open spec fn cols(&self) -> nat {
        sign_cols(*self)
    }

    /// A matrix of the given shape that holds 0 everywhere.
    pub fn new(rows: usize, cols: usize) -> (h: SignMatrix)
        requires
            shape_size(rows as nat, cols as nat) <= isize::MAX,
        ensures
            h@ == zeros(rows as nat, cols as nat),
            h.cols() == cols,
    {
        array_zeros(rows, cols)
    }

    /// The number of rows.
    pub fn nrows(&self) -> (n: usize)
        ensures
            n == self@.len(),
    {
        array_nrows(self)
    }

    /// The number of columns, which every row has.
    pub fn ncols(&self) -> (n: usize)
        ensures
            n == self.cols(),
            forall|i: int| 0 <= i < self@.len() ==> (#[trigger] self@[i]).len() == n,
    {
        array_ncols(self)
    }

    /// The entry at row `i` and column `k`, or nothing where the matrix
    /// has no such entry.
    pub fn get(&self, i: usize, k: usize) -> (r: Option<i8>)
        ensures
            r == if i < self@.len() && k < self@[i as int].len() {
                Some(self@[i as int][k as int])
            } else {
                None
            },
    {
        if i < array_nrows(self) && k < array_ncols(self) {
            Some(array_get(self, i, k))
        } else {
            None
        }
    }

    /// Writes `v` at row `i` and column `k`.
    pub fn set(&mut self, i: usize, k: usize, v: i8)
        requires
            i < old(self)@.len(),
            k < old(self)@[i as int].len(),
        ensures
            final(self)@ == old(self)@.update(i as int, old(self)@[i as int].update(k as int, v)),
            final(self).cols() == old(self).cols(),
    {
        array_set(self, i, k, v)
    }

    /// The entries, row by row.
    pub fn to_rows(&self) -> (rows: Vec<Vec<i8>>)
        ensures
            rows@.len() == self@.len(),
            forall|i: int| 0 <= i < rows@.len() ==> (#[trigger] rows@[i])@ == self@[i],
    {
        let n = array_nrows(self);
        let m = array_ncols(self);
        let mut rows: Vec<Vec<i8>> = Vec::new();
        let mut i: usize = 0;
        while i < n
            invariant
                i <= n,
                n == self@.len(),
                forall|r: int| 0 <= r < self@.len() ==> (#[trigger] self@[r]).len() == m,
                rows@.len() == i,
                forall|r: int| 0 <= r < i ==> (#[trigger] rows@[r])@ == self@[r],
            decreases n - i,
        {
            let mut row: Vec<i8> = Vec::new();
            let mut k: usize = 0;
            while k < m
                invariant
                    i < n,
                    n == self@.len(),
                    self@[i as int].len() == m,
                    k <= m,
                    row@.len() == k,
                    forall|c: int| 0 <= c < k ==> row@[c] == self@[i as int][c],
                decreases m - k,
            {
                row.push(array_get(self, i, k));
                k += 1;
            }
            assert(row@ =~= self@[i as int]);
            rows.push(row);
            i += 1;
        }
        rows
    }
}

} // verus!
