use nbody::pairs::initialisation_comb_matrix;
use nbody::symmetry::{is_ordered_pair, symmetric_column_sources, EntrySource};

fn src(row: usize, col: usize, mirrored: bool) -> EntrySource {
    EntrySource { row, col, mirrored }
}

#[test]
fn column_sources_of_column_one() {
    let s = symmetric_column_sources(4, 1);
    assert_eq!(
        s,
        vec![src(1, 0, false), src(1, 1, true), src(2, 1, true), src(3, 1, true)]
    );
}

#[test]
fn column_sources_of_first_and_last_column() {
    assert_eq!(
        symmetric_column_sources(3, 0),
        vec![src(0, 0, true), src(1, 0, true), src(2, 0, true)]
    );
    assert_eq!(
        symmetric_column_sources(3, 2),
        vec![src(2, 0, false), src(2, 1, false), src(2, 2, true)]
    );
}

#[test]
fn column_sources_of_empty_matrix() {
    assert!(symmetric_column_sources(0, 0).is_empty());
    assert!(symmetric_column_sources(0, 7).is_empty());
}

#[test]
fn ordered_pairs() {
    assert!(is_ordered_pair((0, 1)));
    assert!(!is_ordered_pair((1, 1)));
    assert!(!is_ordered_pair((2, 1)));
}

#[test]
fn sources_read_ascending_pairs_from_comb_matrix() {
    let n = 5;
    let m = initialisation_comb_matrix(n);
    for c in 0..n {
        for (i, s) in symmetric_column_sources(n, c).iter().enumerate() {
            assert!(s.col <= s.row);
            let pair = m.array[[s.row, s.col]];
            assert_eq!(pair, (i.min(c), i.max(c)));
            assert_eq!(is_ordered_pair(pair), i != c);
        }
    }
}

#[test]
fn reconstructed_antisymmetric_matrix() {
    // Lower triangle of the antisymmetric matrix a[i][j] = i - j, stored at [row][col] with col <= row.
    let n = 4;
    let stored = |r: usize, c: usize| -> i64 { c as i64 - r as i64 };
    let parity = -1i64;
    let mut full = vec![vec![0i64; n]; n];
    for c in 0..n {
        for (i, s) in symmetric_column_sources(n, c).iter().enumerate() {
            let v = stored(s.row, s.col);
            full[c][i] = if s.mirrored { parity * v } else { v };
        }
    }
    for c in 0..n {
        for i in 0..n {
            assert_eq!(full[c][i], -full[i][c]);
            assert_eq!(full[c][i], i as i64 - c as i64);
        }
    }
}
