use stoc::factorial;

#[test]
fn factorial_of_zero_is_one() {
    assert_eq!(factorial(0), 1);
}

#[test]
fn factorial_of_five() {
    assert_eq!(factorial(5), 120);
}

#[test]
fn factorial_of_twenty_is_the_largest() {
    assert_eq!(factorial(20), 2_432_902_008_176_640_000);
}
