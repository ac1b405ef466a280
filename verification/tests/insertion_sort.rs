use algorithms::sorting::insertion_sort::insertion_sort;

#[derive(Debug)]
struct Person {
    name: String,
    age: u32,
}

impl PartialEq for Person {
    fn eq(&self, other: &Self) -> bool {
        self.name == other.name && self.age == other.age
    }
}

impl PartialOrd for Person {
    fn partial_cmp(&self, other: &Self) -> Option<std::cmp::Ordering> {
        self.age.partial_cmp(&other.age)
    }
}

#[test]
fn test_rotate() {
    let mut array = [1, 2, 3, 4, 5, 6, 7, 8, 9];
    array[2..9].rotate_right(1);
    println!("{:?}", array);
}

#[test]
fn rotating_right_by_one_brings_the_last_element_to_the_front() {
    let mut array = [1, 2, 3, 4, 5, 6, 7, 8, 9];
    array[2..9].rotate_right(1);
    assert_eq!(array, [1, 2, 9, 3, 4, 5, 6, 7, 8]);
    array.rotate_right(0);
    assert_eq!(array, [1, 2, 9, 3, 4, 5, 6, 7, 8]);
    array.rotate_right(9);
    assert_eq!(array, [1, 2, 9, 3, 4, 5, 6, 7, 8]);
    array.rotate_right(3);
    assert_eq!(array, [6, 7, 8, 1, 2, 9, 3, 4, 5]);
}

#[test]
fn sort_float_numbers() {
    let mut array = [0, -1, 2, 1, 1];
    insertion_sort(&mut array);
    println!("{:?}", array);
}

#[test]
fn sort_people() {
    let mut people = [
        Person {
            name: "Isaac".to_string(),
            age: 24,
        },
        Person {
            name: "Jane".to_string(),
            age: 18,
        },
        Person {
            name: "John".to_string(),
            age: 30,
        },
    ];

    insertion_sort(&mut people);
    println!("{:?}", people);
}

#[test]
fn sorts_integers_in_ascending_order() {
    let mut array = [0, -1, 2, 1, 1];
    insertion_sort(&mut array);
    assert_eq!(array, [-1, 0, 1, 1, 2]);

    let mut array = [5, 4, 3, 2, 1];
    insertion_sort(&mut array);
    assert_eq!(array, [1, 2, 3, 4, 5]);

    let mut array = [1, 2, 3];
    insertion_sort(&mut array);
    assert_eq!(array, [1, 2, 3]);
}

#[test]
fn sorts_empty_and_single_slices() {
    let mut empty: [i32; 0] = [];
    insertion_sort(&mut empty);
    assert_eq!(empty, []);

    let mut one = [7];
    insertion_sort(&mut one);
    assert_eq!(one, [7]);
}

#[test]
fn sorts_people_by_age_and_keeps_them_all() {
    let mut people = vec![
        Person { name: "Isaac".to_string(), age: 24 },
        Person { name: "Jane".to_string(), age: 18 },
        Person { name: "John".to_string(), age: 30 },
        Person { name: "Jill".to_string(), age: 18 },
    ];
    insertion_sort(&mut people);
    let names: Vec<&str> = people.iter().map(|p| p.name.as_str()).collect();
    // Equal ages stay in the order in which they came.
    assert_eq!(names, vec!["Jane", "Jill", "Isaac", "John"]);
}

#[test]
fn sorted_slice_is_a_permutation_of_the_input() {
    let input = [9, 3, 7, 3, 1, 8, 2, 9, 0, 5, 5, 4];
    let mut array = input;
    insertion_sort(&mut array);
    for w in array.windows(2) {
        assert!(w[0] <= w[1]);
    }
    let mut expected = input.to_vec();
    expected.sort();
    assert_eq!(array.to_vec(), expected);
}
