use maxstable::budget::ArrivalBudget;

#[test]
fn admits_exactly_max_points_arrivals() {
    let mut b = ArrivalBudget::new(5, 2);
    let mut admitted = 0;
    while b.admit_arrival() {
        admitted += 1;
        assert!(admitted <= 5);
    }
    assert_eq!(admitted, 5);
    assert_eq!(b.used_points(), 5);
    assert!(!b.has_room());
    assert!(!b.admit_arrival());
    assert_eq!(b.used_points(), 5);
}

#[test]
fn empty_budget_admits_nothing() {
    let mut b = ArrivalBudget::new(0, 3);
    assert!(!b.has_room());
    assert!(!b.admit_arrival());
    assert_eq!(b.admit_batch(4), None);
}

#[test]
fn stopping_needs_more_arrivals_than_sites() {
    let mut b = ArrivalBudget::new(10, 3);
    for _ in 0..3 {
        assert!(b.admit_arrival());
        assert!(!b.may_stop(true));
    }
    assert!(b.admit_arrival());
    assert!(b.may_stop(true));
    assert!(!b.may_stop(false));
}

#[test]
fn batches_are_cut_to_what_is_left() {
    let mut b = ArrivalBudget::new(10, 2);
    assert_eq!(b.admit_batch(4), Some(4));
    assert_eq!(b.admit_batch(4), Some(4));
    assert_eq!(b.admit_batch(4), Some(2));
    assert_eq!(b.admit_batch(4), None);
    assert_eq!(b.used_points(), 10);
}

#[test]
fn batch_count_is_ceiling() {
    for max in 0..30usize {
        for size in 1..8usize {
            let mut b = ArrivalBudget::new(max, 1);
            let mut n = 0;
            let mut total = 0;
            while let Some(len) = b.admit_batch(size) {
                assert!(len <= size && len > 0);
                n += 1;
                total += len;
            }
            assert_eq!(total, max);
            assert_eq!(n, (max + size - 1) / size);
        }
    }
}

#[test]
fn zero_sized_batch_leaves_budget_unchanged() {
    let mut b = ArrivalBudget::new(3, 1);
    assert_eq!(b.admit_batch(0), Some(0));
    assert_eq!(b.used_points(), 0);
    assert!(b.has_room());
}
