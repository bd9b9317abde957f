use laserbeam::decimal::{decimal, labelled};

#[test]
fn small_numbers_have_one_digit() {
    for n in 0..10usize {
        assert_eq!(decimal(n), format!("{}", n));
    }
    assert_eq!(decimal(0), "0");
    assert_eq!(decimal(9), "9");
}

#[test]
fn larger_numbers_are_written_without_leading_zeros() {
    assert_eq!(decimal(10), "10");
    assert_eq!(decimal(100), "100");
    assert_eq!(decimal(1234567890), "1234567890");
    assert_eq!(decimal(usize::MAX), format!("{}", usize::MAX));
}

#[test]
fn decimal_agrees_with_the_standard_library() {
    let mut n: usize = 1;
    while n < usize::MAX / 7 {
        assert_eq!(decimal(n), n.to_string());
        assert_eq!(decimal(n - 1), (n - 1).to_string());
        n *= 7;
    }
}

#[test]
fn a_label_is_name_hyphen_number() {
    assert_eq!(labelled(&"n1".to_string(), 1), "n1-1");
    assert_eq!(labelled(&"".to_string(), 0), "-0");
    assert_eq!(labelled(&"a-b".to_string(), 42), "a-b-42");
}

#[test]
fn different_numbers_give_different_labels() {
    let name = "n1".to_string();
    assert_ne!(labelled(&name, 1), labelled(&name, 2));
    assert_ne!(labelled(&name, 1), labelled(&name, 11));
    assert_ne!(labelled(&name, 10), labelled(&name, 100));
}
