//! Reconstruction of a full column of a symmetric or antisymmetric square matrix of
//! which only the entries on and below the diagonal are computed.
use vstd::prelude::*;
use crate::pairs::{comb_entry, is_square_pair_matrix, pair_matrix_rows, CombMatrix};

verus! {

/// Where one entry of a reconstructed column is read from: the matrix entry in row
/// `row`, column `col`, multiplied by the parity when `mirrored` holds.
#[derive(Clone, Copy, Debug, PartialEq, Eq, Structural)]
pub struct EntrySource {
    pub row: usize,
    pub col: usize,
    pub mirrored: bool,
}

/// The source of entry `row_index` of column `column_index`: above the diagonal the
/// entry is read as it stands from the row of the column (`matrix[column, row_index]`),
/// on and below it from the transposed position (`matrix[row_index, column]`), mirrored.
pub open spec fn column_source(row_index: usize, column_index: usize) -> EntrySource {
    if row_index < column_index {
        EntrySource { row: column_index, col: row_index, mirrored: false }
    } else {
        EntrySource { row: row_index, col: column_index, mirrored: true }
    }
}

/// For each entry `i` of column `column_index` of a `size` by `size` matrix, where it is
/// read from: `matrix[column_index, i]` for `i < column_index`, and
/// `parity * matrix[i, column_index]` otherwise.
pub fn symmetric_column_sources(size: usize, column_index: usize) -> (sources: Vec<EntrySource>)
    requires
        size == 0 || column_index < size,
    ensures
        sources.len() == size,
        forall|i: int| 0 <= i < size ==> #[trigger] sources[i] == column_source(i as usize, column_index),
{
    let mut sources: Vec<EntrySource> = Vec::new();
    for i in 0..size
        invariant
            sources.len() == i,
            forall|k: int| 0 <= k < i ==> #[trigger] sources[k] == column_source(k as usize, column_index),
    {
        if i < column_index {
            sources.push(EntrySource { row: column_index, col: i, mirrored: false });
        } else {
            sources.push(EntrySource { row: i, col: column_index, mirrored: true });
        }
    }
    sources
}

/// Whether the force between the two particles of an index pair is computed: only for
/// pairs whose first index is below the second, so that each unordered pair is computed
/// once and a particle never with itself.
pub fn is_ordered_pair(pair: (usize, usize)) -> (ordered: bool)
    ensures
        ordered <==> pair.0 < pair.1,
{
    pair.0 < pair.1
}

/// Every entry of a reconstructed column is read on or below the diagonal, from the
/// position that holds the row and column of the entry in some order, and it is mirrored
/// exactly when it lies on or below the diagonal of the column.
pub proof fn lemma_sources_lie_on_or_below_diagonal(size: usize, row_index: usize, column_index: usize)
    requires
        row_index < size,
        column_index < size,
    ensures
        column_source(row_index, column_index).col <= column_source(row_index, column_index).row
            < size,
        column_source(row_index, column_index).mirrored <==> column_index <= row_index,
        ({
            let s = column_source(row_index, column_index);
            (s.row == row_index && s.col == column_index) || (s.row == column_index && s.col
                == row_index)
        }),
{
}

/// Entry `i` of column `c` and entry `c` of column `i` (for `i != c`) are read from the
/// same matrix position, one of them mirrored and the other not: with parity `-1` the
/// reconstructed columns form an antisymmetric matrix, with parity `1` a symmetric one.
pub proof fn lemma_transposed_entries_share_a_source(row_index: usize, column_index: usize)
    requires
        row_index != column_index,
    ensures
        column_source(row_index, column_index).row == column_source(column_index, row_index).row,
        column_source(row_index, column_index).col == column_source(column_index, row_index).col,
        column_source(row_index, column_index).mirrored != column_source(
            column_index,
            row_index,
        ).mirrored,
{
}

/// Read through the pair matrix, the source of entry `i` of column `c` holds the pair of
/// `i` and `c` in ascending order; so it is an ordered pair (one whose force is
/// computed) exactly when `i != c`, and the diagonal entry reads a pair that is not.
pub proof fn lemma_sources_read_ascending_pairs(
    m: CombMatrix,
    size: usize,
    row_index: usize,
    column_index: usize,
)
    requires
        is_square_pair_matrix(m, size as nat, |i: int, j: int| comb_entry(i, j)),
        row_index < size,
        column_index < size,
    ensures
        ({
            let s = column_source(row_index, column_index);
            let pair = pair_matrix_rows(m)[s.row as int][s.col as int];
            &&& pair.0 == if row_index < column_index { row_index } else { column_index }
            &&& pair.1 == if row_index < column_index { column_index } else { row_index }
            &&& (pair.0 < pair.1 <==> row_index != column_index)
        }),
{
    let s = column_source(row_index, column_index);
    assert(pair_matrix_rows(m)[s.row as int][s.col as int] == comb_entry(s.row as int, s.col as int));
}

} // verus!
