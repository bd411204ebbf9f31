//! Matrices of particle pairs: the `(usize, usize)` index matrix that drives the
//! pairwise force computation, and the matrix of references to every pair of
//! elements of two lists.
use vstd::prelude::*;
use itertools::Itertools;
use ndarray::{Array, Array2, ShapeBuilder};

verus! {

/// The `nop` by `nop` matrix of particle index pairs, held as an `ndarray` matrix.
/// Verus does not take a declaration of `ndarray::ArrayBase` (its `RawData` bound is a
/// trait that Verus does not know), so the matrix stands in a field that Verus does not
/// see; `pair_matrix_rows` names what it holds.
#[verifier::external_body]
pub struct CombMatrix {
    pub array: Array2<(usize, usize)>,
}

#[verifier::external_type_specification]
#[verifier::external_body]
pub struct ExShapeError(ndarray::ShapeError);

/// What a two-dimensional `ndarray` matrix of index pairs holds, row by row:
/// `pair_matrix_rows(m)[i][j]` is the element that `m[[i, j]]` reads.
pub uninterp spec fn pair_matrix_rows(m: CombMatrix) -> Seq<Seq<(usize, usize)>>;

/// `m` is a `size` by `size` matrix whose entry in row `i`, column `j` is `entry(i, j)`.
pub open spec fn is_square_pair_matrix(
    m: CombMatrix,
    size: nat,
    entry: spec_fn(int, int) -> (usize, usize),
) -> bool {
    &&& pair_matrix_rows(m).len() == size
    &&& forall|i: int| 0 <= i < size ==> #[trigger] pair_matrix_rows(m)[i].len() == size
    &&& forall|i: int, j: int|
        0 <= i < size && 0 <= j < size ==> #[trigger] pair_matrix_rows(m)[i][j] == entry(i, j)
}

/// The entry of the pair matrix in row `i`, column `j`: the pair `(j, i)`.
pub open spec fn comb_entry(i: int, j: int) -> (usize, usize) {
    (j as usize, i as usize)
}

/// Calls `Itertools::cartesian_product` on the ranges `0..outer` and `0..inner` and
/// collects the pairs. The contract states what the itertools documentation and source
/// give: the pairs `(a, b)` with `a` in the outer range and `b` in the inner range, the
/// inner index running fastest, so that the `k`-th pair is `(k / inner, k % inner)`.
#[verifier::external_body]
fn index_pairs(outer: usize, inner: usize) -> (pairs: Vec<(usize, usize)>)
    requires
        outer * inner <= usize::MAX,
    ensures
        pairs.len() == outer * inner,
        forall|k: int|
            0 <= k < pairs.len() ==> #[trigger] pairs[k] == ((k / inner as int) as usize, (k
                % inner as int) as usize),
{
    (0..outer).cartesian_product(0..inner).collect()
}

/// Calls `ndarray::Array::from_shape_vec` with the column-major square shape
/// `(size, size).f()` and wraps the matrix in a `CombMatrix`. As the ndarray source shows for a contiguous shape, the call
/// succeeds exactly when `entries` holds `size * size` elements (a `Vec` of 16-byte
/// elements is always small enough for the overflow checks to pass), and then the
/// element in row `i`, column `j` is `entries[i + j * size]`.
#[verifier::external_body]
fn pair_matrix_from_columns(size: usize, entries: Vec<(usize, usize)>) -> (r: Result<
    CombMatrix,
    ndarray::ShapeError,
>)
    ensures
        r is Ok <==> entries.len() == size * size,
        r matches Ok(m) ==> {
            &&& pair_matrix_rows(m).len() == size
            &&& forall|i: int| 0 <= i < size ==> #[trigger] pair_matrix_rows(m)[i].len() == size
            &&& forall|i: int, j: int|
                0 <= i < size && 0 <= j < size ==> #[trigger] pair_matrix_rows(m)[i][j]
                    == entries@[i + j * size]
        },
{
    Array::from_shape_vec((size, size).f(), entries).map(|array| CombMatrix { array })
}

proof fn lemma_column_major_position(size: int, i: int, j: int)
    requires
        0 <= i < size,
        0 <= j < size,
    ensures
        0 <= i + j * size < size * size,
        (i + j * size) / size == j,
        (i + j * size) % size == i,
{
    assert(0 <= i + j * size < size * size) by (nonlinear_arith)
        requires
            0 <= i < size,
            0 <= j < size,
    ;
    vstd::arithmetic::div_mod::lemma_fundamental_div_mod_converse(i + j * size, size, j, i);
}

/// Builds the `nop` by `nop` matrix of particle index pairs: the cartesian product of
/// `0..nop` with itself, laid out column by column, so that row `i`, column `j` holds
/// the pair `(j, i)`.
pub fn initialisation_comb_matrix(nop: usize) -> (m: CombMatrix)
    requires
        nop * nop <= usize::MAX,
    ensures
        is_square_pair_matrix(m, nop as nat, |i: int, j: int| comb_entry(i, j)),
        forall|i: int, j: int|
            0 <= i < nop && 0 <= j < nop ==> #[trigger] pair_matrix_rows(m)[i][j] == (
            j as usize,
            i as usize,
        ),
{
    let pairs = index_pairs(nop, nop);
    let ghost entries = pairs@;
    let r = pair_matrix_from_columns(nop, pairs);
    let m = r.unwrap();
    assert forall|i: int, j: int| 0 <= i < nop && 0 <= j < nop implies #[trigger] pair_matrix_rows(
        m,
    )[i][j] == comb_entry(i, j) by {
        lemma_column_major_position(nop as int, i, j);
    }
    m
}

/// Every entry of the pair matrix, above the diagonal as well as on and below it, holds
/// its own column index first and its row index second: row `i`, column `j` is `(j, i)`.
pub proof fn lemma_comb_matrix_entry_is_column_then_row(m: CombMatrix, size: nat)
    requires
        is_square_pair_matrix(m, size, |a: int, b: int| comb_entry(a, b)),
        size <= usize::MAX,
    ensures
        forall|i: int, j: int|
            0 <= i < size && 0 <= j < size ==> (#[trigger] pair_matrix_rows(m)[i][j]).0 == j
                && pair_matrix_rows(m)[i][j].1 == i,
{
    assert forall|i: int, j: int| 0 <= i < size && 0 <= j < size implies (
    #[trigger] pair_matrix_rows(m)[i][j]).0 == j && pair_matrix_rows(m)[i][j].1 == i by {
        assert(pair_matrix_rows(m)[i][j] == comb_entry(i, j));
    }
}

/// In the pair matrix, the pair in row `i`, column `j` has its first index below its
/// second exactly when `j < i`: of the two entries for particles `i != j` exactly one
/// holds an ascending pair, and no diagonal entry does, so a force computed only for
/// ascending pairs is computed once for each pair of distinct particles.
pub proof fn lemma_comb_matrix_orders_each_pair_once(m: CombMatrix, size: nat, i: int, j: int)
    requires
        is_square_pair_matrix(m, size, |a: int, b: int| comb_entry(a, b)),
        0 <= i < size,
        0 <= j < size,
        size <= usize::MAX,
    ensures
        pair_matrix_rows(m)[i][j].0 < pair_matrix_rows(m)[i][j].1 <==> j < i,
        i != j ==> (pair_matrix_rows(m)[i][j].0 < pair_matrix_rows(m)[i][j].1) != (
        pair_matrix_rows(m)[j][i].0 < pair_matrix_rows(m)[j][i].1),
{
    assert(pair_matrix_rows(m)[i][j] == comb_entry(i, j));
    assert(pair_matrix_rows(m)[j][i] == comb_entry(j, i));
}

/// Pairs every element of `vector1` with every element of `vector2`: row `i` holds
/// `(&vector1[i], &vector2[j])` for each `j`.
pub fn combination_matrix<'a, T>(vector1: &'a Vec<T>, vector2: &'a Vec<T>) -> (comb_matrix: Vec<
    Vec<(&'a T, &'a T)>,
>)
    ensures
        comb_matrix.len() == vector1.len(),
        forall|i: int| 0 <= i < vector1.len() ==> #[trigger] comb_matrix[i].len() == vector2.len(),
        forall|i: int, j: int|
            0 <= i < vector1.len() && 0 <= j < vector2.len() ==> #[trigger] comb_matrix[i][j] == (
            &vector1[i],
            &vector2[j],
        ),
{
    let mut comb_matrix: Vec<Vec<(&'a T, &'a T)>> = Vec::new();
    for i in 0..vector1.len()
        invariant
            comb_matrix.len() == i,
            forall|a: int| 0 <= a < i ==> #[trigger] comb_matrix[a].len() == vector2.len(),
            forall|a: int, b: int|
                0 <= a < i && 0 <= b < vector2.len() ==> #[trigger] comb_matrix[a][b] == (
                &vector1[a],
                &vector2[b],
            ),
    {
        let element_i: &'a T = &vector1[i];
        let mut row: Vec<(&'a T, &'a T)> = Vec::new();
        for j in 0..vector2.len()
            invariant
                row.len() == j,
                element_i == &vector1[i as int],
                forall|b: int| 0 <= b < j ==> #[trigger] row[b] == (element_i, &vector2[b]),
        {
            row.push((element_i, &vector2[j]));
        }
        comb_matrix.push(row);
    }
    comb_matrix
}

} // verus!
