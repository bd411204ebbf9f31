use nbody::pairs::{combination_matrix, initialisation_comb_matrix};

#[test]
fn comb_matrix_holds_transposed_index_pairs() {
    let m = initialisation_comb_matrix(3);
    assert_eq!(m.array.shape(), &[3, 3]);
    for i in 0..3 {
        for j in 0..3 {
            assert_eq!(m.array[[i, j]], (j, i));
        }
    }
}

#[test]
fn comb_matrix_row_one() {
    let m = initialisation_comb_matrix(4);
    let row: Vec<(usize, usize)> = (0..4).map(|j| m.array[[1, j]]).collect();
    assert_eq!(row, vec![(0, 1), (1, 1), (2, 1), (3, 1)]);
}

#[test]
fn comb_matrix_of_no_particles_is_empty() {
    let m = initialisation_comb_matrix(0);
    assert_eq!(m.array.shape(), &[0, 0]);
    assert_eq!(m.array.len(), 0);
}

#[test]
fn comb_matrix_single_particle() {
    let m = initialisation_comb_matrix(1);
    assert_eq!(m.array[[0, 0]], (0, 0));
}

#[test]
fn combination_matrix_pairs_every_element() {
    let a = vec![1u32, 2, 3];
    let b = vec![10u32, 20];
    let m = combination_matrix(&a, &b);
    assert_eq!(m.len(), 3);
    for (i, row) in m.iter().enumerate() {
        assert_eq!(row.len(), 2);
        for (j, pair) in row.iter().enumerate() {
            assert_eq!(*pair.0, a[i]);
            assert_eq!(*pair.1, b[j]);
            assert!(std::ptr::eq(pair.0, &a[i]));
        }
    }
}

#[test]
fn combination_matrix_of_a_list_with_itself() {
    let a = vec!["x".to_string(), "y".to_string()];
    let m = combination_matrix(&a, &a);
    assert_eq!(*m[0][1].0, "x");
    assert_eq!(*m[0][1].1, "y");
    assert_eq!(*m[1][0].0, "y");
    assert_eq!(*m[1][0].1, "x");
}

#[test]
fn combination_matrix_with_empty_lists() {
    let a: Vec<u8> = vec![];
    let b = vec![1u8];
    assert!(combination_matrix(&a, &b).is_empty());
    let m = combination_matrix(&b, &a);
    assert_eq!(m.len(), 1);
    assert!(m[0].is_empty());
}

#[test]
fn comb_matrix_has_one_ascending_pair_per_particle_pair() {
    let n = 6;
    let m = initialisation_comb_matrix(n);
    for i in 0..n {
        for j in 0..n {
            let ascending = |p: (usize, usize)| p.0 < p.1;
            assert_eq!(ascending(m.array[[i, j]]), j < i);
            if i != j {
                assert_ne!(ascending(m.array[[i, j]]), ascending(m.array[[j, i]]));
            }
        }
    }
}
