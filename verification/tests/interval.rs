use algorithms::collections::interval_set::{Endpoint, Interval, IntervalSetError};

#[test]
fn test_new() {
    let interval = Interval::<i32>::new(Endpoint::Open(0), Endpoint::Open(1));
    assert!(interval.is_ok());

    let interval = Interval::<i32>::new(Endpoint::Open(0), Endpoint::Open(0));
    assert!(interval.is_err());

    let interval = Interval::<i32>::new(Endpoint::Closed(0), Endpoint::Closed(0));
    assert!(interval.is_ok());

    let interval = Interval::<i32>::new(Endpoint::Open(0), Endpoint::Unbounded);
    assert!(interval.is_ok());
}

#[test]
fn test_display() {
    let interval = Interval::<i32>::new(Endpoint::Open(0), Endpoint::Open(1));
    assert!(interval.is_ok());
    let interval = interval.unwrap();
    println!("{}", interval.to_string());
    assert_eq!(interval.to_string(), "(0, 1)");

    let interval = Interval::<i32>::new(Endpoint::Closed(0), Endpoint::Closed(0));
    assert!(interval.is_ok());
    let interval = interval.unwrap();
    println!("{}", interval.to_string());
    assert_eq!(interval.to_string(), "[0]");

    let interval = Interval::<i32>::new(Endpoint::Open(0), Endpoint::Unbounded);
    assert!(interval.is_ok());
    let interval = interval.unwrap();
    println!("{}", interval.to_string());
    assert_eq!(interval.to_string(), "(0, +∞)");

    let interval = Interval::<i32>::open(0, 1);
    assert!(interval.is_ok());
    let interval = interval.unwrap();
    println!("{}", interval.to_string());
    assert_eq!(interval.to_string(), "(0, 1)");

    let interval = Interval::<i32>::closed(0, 0);
    assert!(interval.is_ok());
    let interval = interval.unwrap();
    println!("{}", interval.to_string());
    assert_eq!(interval.to_string(), "[0]");

    let interval = Interval::<i32>::open_closed(0, 0);
    assert!(interval.is_err());

    let interval = Interval::<i32>::open_closed(0, 1);
    assert!(interval.is_ok());
    let interval = interval.unwrap();
    println!("{}", interval.to_string());
    assert_eq!(interval.to_string(), "(0, 1]");
}

#[test]
fn test_is_degenerate() {
    let interval = Interval::<i32>::new(Endpoint::Closed(0), Endpoint::Closed(0));
    assert!(interval.is_ok());
    let interval = interval.unwrap();
    assert!(interval.is_degenerate());
}

#[test]
fn test_is_separated_from() {
    let a = Interval::<i32>::open(0, 1).unwrap();
    let b = Interval::<i32>::open(1, 2).unwrap();
    assert!(a.is_separated_from(&b));

    let a = Interval::<i32>::open(0, 1).unwrap();
    let b = Interval::<i32>::closed_open(1, 2).unwrap();
    assert!(!a.is_separated_from(&b));

    let a = Interval::<i32>::closed(0, 1).unwrap();
    let b = Interval::<i32>::closed_open(1, 2).unwrap();
    assert!(!a.is_separated_from(&b));

    let a = Interval::<i32>::open(0, 2).unwrap();
    let b = Interval::<i32>::open(1, 3).unwrap();
    assert!(!a.is_separated_from(&b));

    let a = Interval::<i32>::open_unbounded(0);
    let b = Interval::<i32>::open(1, 2).unwrap();
    assert!(!a.is_separated_from(&b));

    let a = Interval::<i32>::universe();
    let b = Interval::<i32>::open_unbounded(1);
    assert!(!a.is_separated_from(&b));

    let a = Interval::<i32>::unbounded_open(0);
    let b = Interval::<i32>::open_unbounded(0);
    assert!(a.is_separated_from(&b));

    let a = Interval::<i32>::unbounded_open(0);
    let b = Interval::<i32>::closed_unbounded(0);
    assert!(!a.is_separated_from(&b));

    let a = Interval::<i32>::open(0, 2).unwrap();
    let b = Interval::<i32>::closed(1, 1).unwrap();
    assert!(!a.is_separated_from(&b));
}

#[test]
fn test_merge() {
    let a = Interval::<i32>::open(0, 1).unwrap();
    let b = Interval::<i32>::open(1, 2).unwrap();
    let c = a.merge(&b);
    assert!(c.is_err());

    let a = Interval::<i32>::open(0, 1).unwrap();
    let b = Interval::<i32>::closed(1, 2).unwrap();
    let c = a.merge(&b);
    assert!(c.is_ok());
    let c = c.unwrap();
    assert_eq!(c, Interval::<i32>::open_closed(0, 2).unwrap());
}

#[test]
fn merge_of_separated_intervals_names_the_error() {
    let a = Interval::<i32>::open(0, 1).unwrap();
    let b = Interval::<i32>::open(1, 2).unwrap();
    assert_eq!(a.merge(&b), Err(IntervalSetError::MergeSeparatedIntervals));
}

#[test]
fn construction_succeeds_exactly_on_ordered_bounds() {
    for a in -2..=2 {
        for b in -2..=2 {
            assert_eq!(Interval::<i32>::open(a, b).is_ok(), a < b);
            assert_eq!(Interval::<i32>::closed(a, b).is_ok(), a <= b);
            assert_eq!(Interval::<i32>::open_closed(a, b).is_ok(), a < b);
            assert_eq!(Interval::<i32>::closed_open(a, b).is_ok(), a < b);
        }
    }
}

#[test]
fn invalid_bounds_name_the_error() {
    assert_eq!(Interval::<i32>::open(5, 5), Err(IntervalSetError::InvalidInterval));
    assert_eq!(Interval::<i32>::closed(6, 5), Err(IntervalSetError::InvalidInterval));
    assert_eq!(
        Interval::<i32>::new(Endpoint::Closed(1), Endpoint::Open(1)),
        Err(IntervalSetError::InvalidInterval)
    );
}

#[test]
fn degenerate_is_closed_at_one_value() {
    assert!(Interval::<i32>::closed(5, 5).unwrap().is_degenerate());
    assert!(!Interval::<i32>::closed(5, 6).unwrap().is_degenerate());
    assert!(!Interval::<i32>::open(5, 6).unwrap().is_degenerate());
    assert!(!Interval::<i32>::universe().is_degenerate());
}

#[test]
fn accessors_and_structural_predicates() {
    let i = Interval::<i32>::open_closed(1, 4).unwrap();
    assert_eq!(i.left(), &Endpoint::Open(1));
    assert_eq!(i.right(), &Endpoint::Closed(4));
    assert_eq!(i.low(), Some(1));
    assert_eq!(i.high(), Some(4));
    assert!(i.is_bounded());
    assert!(!i.is_unbounded());
    assert!(!i.is_universe());

    let u = Interval::<i32>::unbounded_closed(4);
    assert_eq!(u.low(), None);
    assert_eq!(u.high(), Some(4));
    assert!(!u.is_bounded());
    assert!(u.is_unbounded());
    assert!(!u.is_universe());

    let all = Interval::<i32>::universe();
    assert_eq!(all.low(), None);
    assert_eq!(all.high(), None);
    assert!(all.is_universe());
    assert!(all.is_unbounded());
}

#[test]
fn separation_is_symmetric() {
    let intervals = sample();
    for a in intervals.iter() {
        for b in intervals.iter() {
            assert_eq!(a.is_separated_from(b), b.is_separated_from(a));
        }
    }
}

#[test]
fn merge_fails_exactly_on_separated_intervals() {
    let intervals = sample();
    for a in intervals.iter() {
        for b in intervals.iter() {
            match a.merge(b) {
                Ok(_) => assert!(!a.is_separated_from(b)),
                Err(e) => {
                    assert!(a.is_separated_from(b));
                    assert_eq!(e, IntervalSetError::MergeSeparatedIntervals);
                }
            }
        }
    }
}

#[test]
fn merge_holds_the_points_of_both() {
    let intervals = sample();
    for a in intervals.iter() {
        for b in intervals.iter() {
            if let Ok(m) = a.merge(b) {
                for x in -3..=6 {
                    assert_eq!(m.contains(&x), a.contains(&x) || b.contains(&x));
                }
            }
        }
    }
}

#[test]
fn merge_tie_breaks() {
    let a = Interval::<i32>::open(0, 3).unwrap();
    let b = Interval::<i32>::closed(0, 3).unwrap();
    assert_eq!(a.merge(&b), Ok(Interval::closed(0, 3).unwrap()));
    let c = Interval::<i32>::unbounded_open(2);
    assert_eq!(a.merge(&c), Ok(Interval::unbounded_open(3)));
    let d = Interval::<i32>::closed_unbounded(1);
    assert_eq!(a.merge(&d), Ok(Interval::open_unbounded(0)));
    assert_eq!(c.merge(&d), Ok(Interval::universe()));
}

#[test]
fn overlap_holds_the_points_of_both() {
    let intervals = sample();
    for a in intervals.iter() {
        for b in intervals.iter() {
            let common = a.overlap(b);
            for x in -3..=6 {
                let inside = match &common {
                    Some(c) => c.contains(&x),
                    None => false,
                };
                assert_eq!(inside, a.contains(&x) && b.contains(&x));
            }
        }
    }
    let a = Interval::<i32>::closed(0, 3).unwrap();
    let b = Interval::<i32>::open_unbounded(1);
    assert_eq!(a.overlap(&b), Some(Interval::open_closed(1, 3).unwrap()));
    let c = Interval::<i32>::closed_open(3, 5).unwrap();
    assert_eq!(a.overlap(&c), Some(Interval::closed(3, 3).unwrap()));
    let d = Interval::<i32>::open(3, 5).unwrap();
    assert_eq!(a.overlap(&d), None);
}

#[test]
fn notation_of_every_shape() {
    assert_eq!(Interval::<i32>::open(0, 1).unwrap().to_string(), "(0, 1)");
    assert_eq!(Interval::<i32>::open_closed(0, 1).unwrap().to_string(), "(0, 1]");
    assert_eq!(Interval::<i32>::closed_open(0, 1).unwrap().to_string(), "[0, 1)");
    assert_eq!(Interval::<i32>::closed(0, 1).unwrap().to_string(), "[0, 1]");
    assert_eq!(Interval::<i32>::closed(0, 0).unwrap().to_string(), "[0]");
    assert_eq!(Interval::<i32>::unbounded_open(7).to_string(), "(-∞, 7)");
    assert_eq!(Interval::<i32>::unbounded_closed(7).to_string(), "(-∞, 7]");
    assert_eq!(Interval::<i32>::open_unbounded(0).to_string(), "(0, +∞)");
    assert_eq!(Interval::<i32>::closed_unbounded(-7).to_string(), "[-7, +∞)");
    assert_eq!(Interval::<i32>::universe().to_string(), "(-∞, +∞)");
    assert_eq!(Interval::<i32>::open(0, 1).unwrap().render("a", "b"), "(a, b)");
    assert_eq!(Interval::<i32>::closed(1, 1).unwrap().render("a", "b"), "[a]");
}

fn sample() -> Vec<Interval<i32>> {
    vec![
        Interval::open(0, 1).unwrap(),
        Interval::open(1, 2).unwrap(),
        Interval::closed(1, 2).unwrap(),
        Interval::closed_open(1, 2).unwrap(),
        Interval::open_closed(0, 1).unwrap(),
        Interval::closed(1, 1).unwrap(),
        Interval::closed(3, 4).unwrap(),
        Interval::open(0, 4).unwrap(),
        Interval::unbounded_open(0),
        Interval::unbounded_closed(0),
        Interval::open_unbounded(0),
        Interval::closed_unbounded(0),
        Interval::open_unbounded(2),
        Interval::universe(),
    ]
}
