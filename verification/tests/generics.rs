use exercises::generics::{largest, largest_2, Point, Point_2, Point_3};

#[test]
fn largest_finds_the_largest_number() {
    assert_eq!(100, *largest(&[34, 50, 25, 100, 65]));
    assert_eq!(6000, *largest(&[102, 34, 6000, 89, 54, 2, 43, 8]));
    assert_eq!(7, *largest(&[7]));
    assert_eq!(-1, *largest(&[-5, -1, -3]));
    assert_eq!(i32::MAX, *largest(&[i32::MIN, i32::MAX, 0]));
    assert_eq!(4, *largest(&[4, 4, 4]));
}

#[test]
fn largest_2_finds_the_largest_of_any_ordered_type() {
    assert_eq!(100, *largest_2(&[34, 50, 25, 100, 65]));
    assert_eq!('y', *largest_2(&['y', 'm', 'a', 'q']));
    assert_eq!("pear", *largest_2(&["apple", "pear", "fig"]));
    assert_eq!(2.5, *largest_2(&[1.0, 2.5, -3.0]));
    assert_eq!(9u8, *largest_2(&[9u8]));
}

#[test]
fn largest_2_returns_the_first_of_equal_elements() {
    let list = [(1, 'a'), (3, 'b'), (3, 'c'), (2, 'd')];
    let keys: Vec<i32> = list.iter().map(|pair| pair.0).collect();
    let found = largest_2(&keys);
    assert!(std::ptr::eq(found, &keys[1]));
}

#[test]
fn points_give_their_coordinates() {
    let p = Point { x: 5, y: 10 };
    assert_eq!(5, *p.x());
    let float = Point { x: 1.0, y: 4.0 };
    assert_eq!(1.0, *float.x());
    let both = Point_2 { x: 5, y: 4.0 };
    assert_eq!(5, both.x);
    assert_eq!(4.0, both.y);
}

#[test]
fn mixup_takes_x_from_the_first_and_y_from_the_second() {
    let first = Point_3 { x: 5, y: 10.4 };
    let second = Point_3 { x: "Hello", y: 'c' };
    let mixed = first.mixup(second);
    assert_eq!(5, mixed.x);
    assert_eq!('c', mixed.y);
}
