use maxstable::pairs::{resolve_pairs, site_index, site_pairs};

#[test]
fn no_pairs_for_fewer_than_two_sites() {
    assert!(site_pairs(0).is_empty());
    assert!(site_pairs(1).is_empty());
}

#[test]
fn four_sites_in_lexicographic_order() {
    assert_eq!(
        site_pairs(4),
        vec![(0, 1), (0, 2), (0, 3), (1, 2), (1, 3), (2, 3)]
    );
}

#[test]
fn pair_count_is_n_choose_two() {
    for d in 0..40usize {
        let pairs = site_pairs(d);
        assert_eq!(pairs.len(), d * d.saturating_sub(1) / 2);
    }
}

#[test]
fn every_pair_once_and_increasing() {
    let d = 9;
    let pairs = site_pairs(d);
    for w in pairs.windows(2) {
        assert!(w[0] < w[1]);
    }
    for i in 0..d {
        for j in 0..d {
            let n = pairs.iter().filter(|p| **p == (i, j)).count();
            assert_eq!(n, if i < j { 1 } else { 0 });
        }
    }
}

#[test]
fn site_index_bounds() {
    assert_eq!(site_index(0, 3), Some(0));
    assert_eq!(site_index(2, 3), Some(2));
    assert_eq!(site_index(3, 3), None);
    assert_eq!(site_index(-1, 3), None);
    assert_eq!(site_index(i64::MIN, 3), None);
    assert_eq!(site_index(0, 0), None);
}

#[test]
fn resolves_valid_pairs_in_order() {
    let raw = vec![(0i64, 1i64), (2, 0), (1, 1)];
    assert_eq!(resolve_pairs(&raw, 3), Some(vec![(0, 1), (2, 0), (1, 1)]));
    assert_eq!(resolve_pairs(&vec![], 0), Some(vec![]));
}

#[test]
fn refuses_pairs_naming_no_site() {
    assert_eq!(resolve_pairs(&vec![(0, 1), (1, 3)], 3), None);
    assert_eq!(resolve_pairs(&vec![(-1, 1)], 3), None);
    assert_eq!(resolve_pairs(&vec![(0, 1)], 1), None);
}
