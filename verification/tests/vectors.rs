use nbody::vectors::{add_vectors, sub_vectors};

#[test]
fn add_integer_vectors() {
    assert_eq!(add_vectors(&vec![1i64, -2], &vec![10, 20]), vec![11, 18]);
}

#[test]
fn add_uses_the_length_of_the_first_vector() {
    assert_eq!(add_vectors(&vec![1i64], &vec![10, 20, 30]), vec![11]);
    assert_eq!(add_vectors::<i64>(&vec![], &vec![5]), Vec::<i64>::new());
}

#[test]
fn add_float_vectors() {
    let s = add_vectors(&vec![1.5f32, -2.0], &vec![0.25, 0.5]);
    assert_eq!(s, vec![1.75f32, -1.5]);
}

#[test]
fn position_follows_velocity() {
    let position = vec![3.0f32, 4.0];
    let velocity = vec![-0.5f32, 1.0];
    assert_eq!(add_vectors(&position, &velocity), vec![2.5f32, 5.0]);
}

#[test]
fn sub_integer_vectors() {
    assert_eq!(sub_vectors(&vec![5i32, 0, 7], &vec![2, 3, 7, 100]), vec![3, -3, 0]);
}

#[test]
fn sub_float_vectors() {
    assert_eq!(sub_vectors(&vec![1.0f32, 2.0], &vec![0.5, 4.0]), vec![0.5f32, -2.0]);
}
