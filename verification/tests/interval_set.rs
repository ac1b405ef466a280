use algorithms::collections::interval_set::{Endpoint, Interval, IntervalSet, IntervalSetError};

fn texts(set: &IntervalSet<i32>) -> Vec<String> {
    set.as_slice().iter().map(|interval| interval.to_string()).collect()
}

fn set_of(intervals: Vec<Interval<i32>>) -> IntervalSet<i32> {
    let mut set = IntervalSet::empty();
    for interval in intervals.iter() {
        set = set.union_interval(interval);
    }
    set
}

fn same_points(a: &IntervalSet<i32>, b: &IntervalSet<i32>) -> bool {
    (-20..=20).all(|x| a.contains(&x) == b.contains(&x))
}

#[test]
fn set_constructors_hold_one_interval() {
    assert_eq!(texts(&IntervalSet::open(0, 1).unwrap()), vec!["(0, 1)"]);
    assert_eq!(texts(&IntervalSet::closed(0, 0).unwrap()), vec!["[0]"]);
    assert_eq!(texts(&IntervalSet::open_closed(0, 1).unwrap()), vec!["(0, 1]"]);
    assert_eq!(texts(&IntervalSet::closed_open(0, 1).unwrap()), vec!["[0, 1)"]);
    assert_eq!(texts(&IntervalSet::unbounded_open(3)), vec!["(-∞, 3)"]);
    assert_eq!(texts(&IntervalSet::unbounded_closed(3)), vec!["(-∞, 3]"]);
    assert_eq!(texts(&IntervalSet::open_unbounded(3)), vec!["(3, +∞)"]);
    assert_eq!(texts(&IntervalSet::closed_unbounded(3)), vec!["[3, +∞)"]);
    assert_eq!(texts(&IntervalSet::from(Interval::universe())), vec!["(-∞, +∞)"]);
    assert!(IntervalSet::<i32>::empty().is_empty());
    assert_eq!(IntervalSet::<i32>::empty().len(), 0);
}

#[test]
fn set_constructors_reject_invalid_bounds() {
    assert!(matches!(IntervalSet::open(1, 1), Err(IntervalSetError::InvalidInterval)));
    assert!(matches!(IntervalSet::closed(2, 1), Err(IntervalSetError::InvalidInterval)));
    assert!(matches!(IntervalSet::open_closed(1, 1), Err(IntervalSetError::InvalidInterval)));
    assert!(matches!(IntervalSet::closed_open(1, 1), Err(IntervalSetError::InvalidInterval)));
}

#[test]
fn union_interval_keeps_separated_intervals_in_order() {
    let set = set_of(vec![
        Interval::closed(10, 12).unwrap(),
        Interval::closed(0, 2).unwrap(),
        Interval::closed(5, 7).unwrap(),
    ]);
    assert_eq!(texts(&set), vec!["[0, 2]", "[5, 7]", "[10, 12]"]);
}

#[test]
fn union_interval_merges_the_run_it_reaches() {
    let set = set_of(vec![
        Interval::closed(0, 2).unwrap(),
        Interval::closed(5, 7).unwrap(),
        Interval::closed(10, 12).unwrap(),
        Interval::closed(15, 17).unwrap(),
    ]);
    let set = set.union_interval(&Interval::open(6, 11).unwrap());
    assert_eq!(texts(&set), vec!["[0, 2]", "[5, 12]", "[15, 17]"]);
}

#[test]
fn union_interval_merges_touching_but_not_separated_ends() {
    // (0, 1) and [1, 2] touch at 1, which one of them holds.
    let set = IntervalSet::open(0, 1).unwrap().union_interval(&Interval::closed(1, 2).unwrap());
    assert_eq!(texts(&set), vec!["(0, 2]"]);
    // (0, 1) and (1, 2) both leave 1 out.
    let set = IntervalSet::open(0, 1).unwrap().union_interval(&Interval::open(1, 2).unwrap());
    assert_eq!(texts(&set), vec!["(0, 1)", "(1, 2)"]);
    // The single point 1 closes the hole.
    let set = set.union_interval(&Interval::closed(1, 1).unwrap());
    assert_eq!(texts(&set), vec!["(0, 2)"]);
}

#[test]
fn union_of_two_sets() {
    let a = set_of(vec![Interval::closed(0, 2).unwrap(), Interval::closed(10, 12).unwrap()]);
    let b = set_of(vec![Interval::open(1, 5).unwrap(), Interval::closed_open(12, 14).unwrap()]);
    assert_eq!(texts(&a.union(&b)), vec!["[0, 5)", "[10, 14)"]);
    assert_eq!(texts(&b.union(&a)), vec!["[0, 5)", "[10, 14)"]);
    assert_eq!(texts(&(a | b)), vec!["[0, 5)", "[10, 14)"]);
}

#[test]
fn union_with_the_universe_is_the_universe() {
    let a = set_of(vec![Interval::closed(0, 2).unwrap(), Interval::open_unbounded(10)]);
    let universe = IntervalSet::from(Interval::universe());
    assert_eq!(texts(&a.union(&universe)), vec!["(-∞, +∞)"]);
    assert_eq!(texts(&universe.union(&a)), vec!["(-∞, +∞)"]);
}

#[test]
fn union_with_the_empty_set_changes_nothing() {
    let a = set_of(vec![Interval::closed(0, 2).unwrap(), Interval::open_unbounded(10)]);
    let empty = IntervalSet::empty();
    assert_eq!(texts(&a.union(&empty)), vec!["[0, 2]", "(10, +∞)"]);
    assert_eq!(texts(&empty.union(&a)), vec!["[0, 2]", "(10, +∞)"]);
}

#[test]
fn intersection_of_two_sets() {
    let a = set_of(vec![
        Interval::closed(0, 5).unwrap(),
        Interval::open(7, 10).unwrap(),
        Interval::closed_unbounded(20),
    ]);
    let b = set_of(vec![
        Interval::open(1, 2).unwrap(),
        Interval::closed(4, 8).unwrap(),
        Interval::closed(10, 25).unwrap(),
    ]);
    let expected = vec!["(1, 2)", "[4, 5]", "(7, 8]", "[20, 25]"];
    assert_eq!(texts(&a.intersection(&b)), expected);
    assert_eq!(texts(&b.intersection(&a)), expected);
    assert_eq!(texts(&(a & b)), expected);
}

#[test]
fn intersection_takes_the_less_inclusive_end_on_a_tie() {
    let a = IntervalSet::closed(0, 5).unwrap();
    let b = IntervalSet::open(0, 5).unwrap();
    assert_eq!(texts(&a.intersection(&b)), vec!["(0, 5)"]);
    let c = IntervalSet::open_closed(0, 5).unwrap();
    assert_eq!(texts(&a.intersection(&c)), vec!["(0, 5]"]);
}

#[test]
fn intersection_of_touching_intervals() {
    // [0, 1] and [1, 2] share the point 1.
    let a = IntervalSet::closed(0, 1).unwrap();
    let b = IntervalSet::closed(1, 2).unwrap();
    assert_eq!(texts(&a.intersection(&b)), vec!["[1]"]);
    // [0, 1) and [1, 2] are not separated, but share no point.
    let a = IntervalSet::closed_open(0, 1).unwrap();
    assert!(a.intersection(&b).is_empty());
}

#[test]
fn intersection_with_the_empty_set_is_empty() {
    let a = set_of(vec![Interval::closed(0, 2).unwrap(), Interval::open_unbounded(10)]);
    let empty = IntervalSet::empty();
    assert!(a.intersection(&empty).is_empty());
    assert!(empty.intersection(&a).is_empty());
}

#[test]
fn intersection_with_the_universe_changes_nothing() {
    let a = set_of(vec![Interval::closed(0, 2).unwrap(), Interval::open_unbounded(10)]);
    let universe = IntervalSet::from(Interval::universe());
    assert_eq!(texts(&a.intersection(&universe)), vec!["[0, 2]", "(10, +∞)"]);
    assert_eq!(texts(&universe.intersection(&a)), vec!["[0, 2]", "(10, +∞)"]);
}

#[test]
fn complement_flips_the_ends_of_the_gaps() {
    let a = set_of(vec![
        Interval::closed(0, 2).unwrap(),
        Interval::open(5, 7).unwrap(),
        Interval::closed_open(10, 12).unwrap(),
    ]);
    assert_eq!(
        texts(&a.complement()),
        vec!["(-∞, 0)", "(2, 5]", "[7, 10)", "[12, +∞)"]
    );
    assert_eq!(texts(&a.complement().complement()), texts(&a));
}

#[test]
fn complement_of_unbounded_sets() {
    let a = set_of(vec![Interval::unbounded_open(0), Interval::closed_unbounded(3)]);
    assert_eq!(texts(&a.complement()), vec!["[0, 3)"]);
    let b = IntervalSet::unbounded_closed(0);
    assert_eq!(texts(&b.complement()), vec!["(0, +∞)"]);
}

#[test]
fn complement_of_the_empty_set_and_of_the_universe() {
    let empty = IntervalSet::<i32>::empty();
    assert_eq!(texts(&empty.complement()), vec!["(-∞, +∞)"]);
    let universe = IntervalSet::<i32>::from(Interval::universe());
    assert!(universe.complement().is_empty());
}

#[test]
fn complement_of_two_open_intervals_that_meet_holds_the_point() {
    let a = set_of(vec![Interval::open(0, 1).unwrap(), Interval::open(1, 2).unwrap()]);
    assert_eq!(texts(&a.complement()), vec!["(-∞, 0]", "[1]", "[2, +∞)"]);
}

#[test]
fn contains_follows_the_intervals() {
    let a = set_of(vec![Interval::open(0, 3).unwrap(), Interval::closed(5, 7).unwrap()]);
    let inside: Vec<i32> = (-2..=9).filter(|x| a.contains(x)).collect();
    assert_eq!(inside, vec![1, 2, 5, 6, 7]);
    let i = Interval::closed_open(1, 3).unwrap();
    assert!(!i.contains(&0));
    assert!(i.contains(&1));
    assert!(i.contains(&2));
    assert!(!i.contains(&3));
    assert!(Interval::universe().contains(&i32::MIN));
}

#[test]
fn union_and_intersection_commute_and_associate_on_points() {
    let a = set_of(vec![Interval::closed(0, 4).unwrap(), Interval::open(8, 12).unwrap()]);
    let b = set_of(vec![Interval::open(3, 9).unwrap(), Interval::closed_unbounded(15)]);
    let c = set_of(vec![Interval::unbounded_open(1), Interval::closed(10, 16).unwrap()]);
    assert!(same_points(&a.union(&b), &b.union(&a)));
    assert!(same_points(&a.intersection(&b), &b.intersection(&a)));
    assert!(same_points(&a.union(&b).union(&c), &a.union(&b.union(&c))));
    assert!(same_points(
        &a.intersection(&b).intersection(&c),
        &a.intersection(&b.intersection(&c))
    ));
    for x in -20..=20 {
        assert_eq!(a.union(&b).contains(&x), a.contains(&x) || b.contains(&x));
        assert_eq!(a.intersection(&b).contains(&x), a.contains(&x) && b.contains(&x));
        assert_eq!(a.complement().contains(&x), !a.contains(&x));
    }
}

#[test]
fn results_hold_no_two_intervals_that_could_merge() {
    let a = set_of(vec![Interval::closed(0, 4).unwrap(), Interval::open(8, 12).unwrap()]);
    let b = set_of(vec![Interval::open(3, 9).unwrap(), Interval::closed_unbounded(15)]);
    for set in [a.union(&b), a.intersection(&b), a.complement(), b.complement()] {
        let intervals = set.as_slice();
        for i in 0..intervals.len() {
            for j in 0..intervals.len() {
                if i != j {
                    assert!(intervals[i].is_separated_from(&intervals[j]));
                }
            }
        }
    }
}

#[test]
fn cloned_set_has_the_same_intervals() {
    let a = set_of(vec![Interval::closed(0, 4).unwrap(), Interval::open(8, 12).unwrap()]);
    assert_eq!(a.clone().as_slice(), a.as_slice());
    let e = Endpoint::Open(3);
    assert_eq!(e.clone(), e);
    assert_eq!(e.flip(), Endpoint::Closed(3));
    assert_eq!(Endpoint::Closed(3).flip(), Endpoint::Open(3));
    assert_eq!(Endpoint::<i32>::Unbounded.flip(), Endpoint::Unbounded);
}
