use nbody::naming::particle_name;
use nbody::partners::{interaction_partners, PartnerScan};

fn names(n: usize) -> Vec<String> {
    (0..n).map(particle_name).collect()
}

#[test]
fn skip_scan_passes_over_self_and_close_particles() {
    let names = names(5);
    let stationary = vec![false; 5];
    let too_close = vec![false, true, false, false, false];
    let p = interaction_partners(&names, &stationary, &too_close, 2, PartnerScan::SkipExcluded);
    assert_eq!(p, Some(vec![0, 3, 4]));
}

#[test]
fn stop_scan_ends_at_first_close_particle() {
    let names = names(5);
    let stationary = vec![false; 5];
    let too_close = vec![false, true, false, false, false];
    let p = interaction_partners(&names, &stationary, &too_close, 3, PartnerScan::StopAtFirstExcluded);
    assert_eq!(p, Some(vec![0]));
}

#[test]
fn stop_scan_ends_at_the_particle_itself() {
    let names = names(5);
    let stationary = vec![false; 5];
    let too_close = vec![false; 5];
    assert_eq!(
        interaction_partners(&names, &stationary, &too_close, 3, PartnerScan::StopAtFirstExcluded),
        Some(vec![0, 1, 2])
    );
    assert_eq!(
        interaction_partners(&names, &stationary, &too_close, 0, PartnerScan::StopAtFirstExcluded),
        Some(vec![])
    );
    assert_eq!(
        interaction_partners(&names, &stationary, &too_close, 3, PartnerScan::SkipExcluded),
        Some(vec![0, 1, 2, 4])
    );
}

#[test]
fn stationary_particle_is_not_updated() {
    let names = names(3);
    let stationary = vec![false, true, false];
    let too_close = vec![false; 3];
    for scan in [PartnerScan::SkipExcluded, PartnerScan::StopAtFirstExcluded] {
        assert_eq!(interaction_partners(&names, &stationary, &too_close, 1, scan), None);
        assert!(interaction_partners(&names, &stationary, &too_close, 0, scan).is_some());
    }
}

#[test]
fn same_name_counts_as_self() {
    let names = vec!["a".to_string(), "b".to_string(), "a".to_string()];
    let stationary = vec![false; 3];
    let too_close = vec![false; 3];
    assert_eq!(
        interaction_partners(&names, &stationary, &too_close, 0, PartnerScan::SkipExcluded),
        Some(vec![1])
    );
    assert_eq!(
        interaction_partners(&names, &stationary, &too_close, 2, PartnerScan::StopAtFirstExcluded),
        Some(vec![])
    );
}

#[test]
fn stop_scan_is_a_prefix_of_skip_scan() {
    let names = names(6);
    let stationary = vec![false; 6];
    let too_close = vec![false, false, true, false, true, false];
    for index in 0..6 {
        let skip = interaction_partners(&names, &stationary, &too_close, index, PartnerScan::SkipExcluded).unwrap();
        let stop = interaction_partners(&names, &stationary, &too_close, index, PartnerScan::StopAtFirstExcluded).unwrap();
        assert!(stop.len() <= skip.len());
        assert_eq!(&skip[..stop.len()], &stop[..]);
        assert!(!skip.contains(&index));
        assert!(stop.iter().all(|&j| j < index));
    }
}
