use exercises::variables::{count_and_double, countdown, divisibility, five, plus_one};

#[test]
fn five_is_five() {
    assert_eq!(5, five());
}

#[test]
fn plus_one_adds_one() {
    assert_eq!(6, plus_one(5));
    assert_eq!(0, plus_one(-1));
    assert_eq!(i32::MAX, plus_one(i32::MAX - 1));
    assert_eq!(i32::MIN + 1, plus_one(i32::MIN));
}

#[test]
fn divisibility_names_the_first_divisor() {
    assert_eq!("number is divisible by 3", divisibility(6));
    assert_eq!("number is divisible by 4", divisibility(12));
    assert_eq!("number is divisible by 4", divisibility(0));
    assert_eq!("number is divisible by 2", divisibility(10));
    assert_eq!("number is not divisible by 4, 3, or 2", divisibility(7));
    assert_eq!("number is divisible by 3", divisibility(-9));
    assert_eq!("number is divisible by 4", divisibility(-8));
    assert_eq!("number is not divisible by 4, 3, or 2", divisibility(-1));
}

#[test]
fn counting_to_ten_gives_twenty() {
    assert_eq!(20, count_and_double(10));
    assert_eq!(2, count_and_double(1));
    assert_eq!(2000000, count_and_double(1000000));
}

#[test]
fn countdown_runs_down_to_one() {
    assert_eq!(vec![3, 2, 1], countdown(3));
    assert_eq!(vec![1], countdown(1));
    assert_eq!(Vec::<u32>::new(), countdown(0));
    assert_eq!(1000, countdown(1000).len());
}
