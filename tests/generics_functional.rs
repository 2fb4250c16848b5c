use rust_learning::functional::functional::{
    apply_operation, compose, create_adder, group_by, Cacher, Counter, Fibonacci,
};
use rust_learning::generics_traits::generics::{
    clone_largest, contains, largest, list_length, swap, Comparable, Container, List, MyOption, MyResult, Pair,
    Point, PointMixed,
};
use std::cmp::Ordering;

#[test]
fn test_largest() {
    let numbers = vec![34, 50, 25, 100, 65];
    assert_eq!(*largest(&numbers), 100);

    let chars = vec!['y', 'm', 'a', 'q'];
    assert_eq!(*largest(&chars), 'y');
}

#[test]
fn test_swap() {
    let mut x = 5;
    let mut y = 10;
    swap(&mut x, &mut y);
    assert_eq!(x, 10);
    assert_eq!(y, 5);
}

#[test]
fn test_point() {
    let p1 = Point::new(3, 4);
    let p2 = Point::new(0, 0);

    assert_eq!(p1.x, 3);
    assert_eq!(p1.y, 4);
}

#[test]
fn test_container() {
    let container = Container::new(42);
    assert_eq!(*container.get(), 42);

    let mapped = container.map(|x| x * 2);
    assert_eq!(*mapped.get(), 84);
}

#[test]
fn test_pair() {
    let pair = Pair::new(1, 2);
    assert_eq!(*pair.first(), 1);
    assert_eq!(*pair.second(), 2);

    assert_eq!(*pair.max(), 2);

    let (first, second) = pair.into_parts();
    assert_eq!(first, 1);
    assert_eq!(second, 2);
}

#[test]
fn test_contains() {
    let list = vec![1, 2, 3, 4, 5];
    assert!(contains(&list, &3));
    assert!(!contains(&list, &10));
}

#[test]
fn test_my_option() {
    let some_value = MyOption::Present(42);
    let none_value: MyOption<i32> = MyOption::Absent;

    match some_value {
        MyOption::Present(x) => assert_eq!(x, 42),
        MyOption::Absent => panic!("Expected Some"),
    }

    match none_value {
        MyOption::Present(_) => panic!("Expected None"),
        MyOption::Absent => {}
    }
}

#[test]
fn test_list_length() {
    let list = List::Cons(1, Box::new(List::Cons(2, Box::new(List::Nil))));
    assert_eq!(list_length(&list), 2);

    let empty: List<i32> = List::Nil;
    assert_eq!(list_length(&empty), 0);
}

#[test]
fn test_custom_iterator() {
    let counter = Counter::new();
    let result: Vec<_> = counter.collect();
    assert_eq!(result, vec![0, 1, 2, 3, 4]);
}

#[test]
fn functional_test_fibonacci() {
    let fibonacci = Fibonacci::new();
    let first_five: Vec<_> = fibonacci.take(5);
    assert_eq!(first_five, vec![0, 1, 1, 2, 3]);
}

#[test]
fn largest_keeps_the_first_maximum() {
    assert_eq!(*largest(&[3]), 3);
    assert_eq!(*largest(&[-5, -2, -9]), -2);
}

#[test]
fn mixed_points_and_comparisons() {
    let a = PointMixed { x: 5, y: 10.4 };
    let b = PointMixed { x: "hello", y: 'c' };
    let c = a.mixup(b);
    assert_eq!(c.x, 5);
    assert_eq!(c.y, 'c');
    assert_eq!(Comparable::new(1, 2).compare(), Ordering::Less);
    assert_eq!(Comparable::new('b', 'a').compare(), Ordering::Greater);
    assert_eq!(*Pair::new(7, 7).max(), 7);
    let r: MyResult<i32, String> = MyResult::Failure(String::from("no"));
    assert!(matches!(r, MyResult::Failure(_)));
}

#[test]
fn cacher_remembers_the_first_result() {
    let mut c = Cacher::new(|x| x * 10);
    assert_eq!(c.value(2), 20);
    assert_eq!(c.value(5), 20);
}

#[test]
fn apply_operation_maps_in_order() {
    assert_eq!(apply_operation(&[1, 2, 3], |x| x - 1), vec![0, 1, 2]);
    assert_eq!(apply_operation(&[], |x| x), Vec::<i32>::new());
}

#[test]
fn sequences_step_by_step() {
    let mut f = Fibonacci::new();
    assert_eq!(f.next(), Some(0));
    assert_eq!(f.next(), Some(1));
    assert_eq!(f.next(), Some(1));
    assert_eq!(f.take(4), vec![2, 3, 5, 8]);
    let mut c = Counter::new();
    for expected in 0..5 {
        assert_eq!(c.next(), Some(expected));
    }
    assert_eq!(c.next(), None);
    assert_eq!(c.collect(), Vec::<usize>::new());
}

#[test]
fn test_function_composition() {
    let add_two = |x| x + 2;
    let multiply_three = |x| x * 3;
    let composed = compose(add_two, multiply_three);
    assert_eq!(composed(5), 21);
}

#[test]
fn adder_adds_its_amount() {
    let add_five = create_adder(5);
    assert_eq!(add_five(10), 15);
    assert_eq!(add_five(-5), 0);
}

#[derive(Debug, Clone)]
struct Person {
    name: String,
    age: u32,
}

#[test]
fn test_group_by() {
    let people = vec![
        Person {
            name: "Alice".to_string(),
            age: 30,
        },
        Person {
            name: "Bob".to_string(),
            age: 25,
        },
        Person {
            name: "Charlie".to_string(),
            age: 30,
        },
    ];

    let grouped = group_by(people, |person| person.age);
    assert_eq!(grouped.get(&30).unwrap().len(), 2);
    assert_eq!(grouped.get(&25).unwrap().len(), 1);
}

#[test]
fn groups_keep_item_order() {
    let grouped = group_by(vec![1, 2, 3, 4, 5, 6], |x| x % 3);
    assert_eq!(grouped.len(), 3);
    assert_eq!(grouped.get(&0), Some(&vec![3, 6]));
    assert_eq!(grouped.get(&1), Some(&vec![1, 4]));
    let names: Vec<String> = group_by(
        vec![
            Person { name: "A".to_string(), age: 1 },
            Person { name: "B".to_string(), age: 1 },
        ],
        |p| p.age,
    )
    .remove(&1)
    .unwrap()
    .into_iter()
    .map(|p| p.name)
    .collect();
    assert_eq!(names, vec!["A", "B"]);
    assert!(group_by(Vec::<u8>::new(), |x| *x).is_empty());
}

#[test]
fn clone_largest_copies_the_maximum() {
    let words = vec![String::from("b"), String::from("d"), String::from("a")];
    assert_eq!(clone_largest(&words), "d");
    assert_eq!(clone_largest(&[4, 9, 9, 1]), 9);
}
