use nbody::naming::particle_name;

#[test]
fn first_particle_names() {
    assert_eq!(particle_name(0), "particle0");
    assert_eq!(particle_name(7), "particle7");
    assert_eq!(particle_name(42), "particle42");
    assert_eq!(particle_name(4999), "particle4999");
}

#[test]
fn names_are_distinct() {
    let names: Vec<String> = (0..200).map(particle_name).collect();
    for a in 0..names.len() {
        for b in 0..names.len() {
            assert_eq!(names[a] == names[b], a == b);
        }
    }
}

#[test]
fn name_of_large_index() {
    assert_eq!(particle_name(usize::MAX), format!("particle{}", usize::MAX));
    assert_eq!(particle_name(100), "particle100");
}
