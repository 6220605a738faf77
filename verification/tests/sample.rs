use stoc::{mean, Sample};

#[derive(Debug, Clone, Copy, PartialEq)]
struct Real(f64);

impl Sample for Real {
    fn combine(&self, other: &Self) -> Self {
        Real(self.0 + other.0)
    }

    fn average(&self, count: usize) -> Self {
        Real(self.0 / count as f64)
    }
}

#[test]
fn mean_of_one_value_is_that_value() {
    assert_eq!(mean(&vec![7u64]), 7);
}

#[test]
fn mean_of_whole_numbers_rounds_down() {
    assert_eq!(mean(&vec![1u64, 2, 3, 4]), 2);
}

#[test]
fn mean_of_reals() {
    let values = vec![Real(1.0), Real(2.0), Real(4.5)];
    assert_eq!(mean(&values), Real(2.5));
}

#[test]
fn whole_numbers_add_and_share() {
    assert_eq!(3u64.combine(&4), 7);
    assert_eq!(u64::MAX.combine(&0), u64::MAX);
    assert_eq!(7u64.average(2), 3);
    assert_eq!(7u64.average(7), 1);
    assert_eq!(7u64.average(8), 0);
}

#[test]
fn mean_adds_from_the_left() {
    // From the left the ones are lost one by one; added first they would
    // count.
    let values = vec![Real(1.0e16), Real(1.0), Real(1.0)];
    assert_eq!(mean(&values), Real(1.0e16 / 3.0));
    let values = vec![Real(1.0), Real(1.0), Real(1.0e16)];
    assert_eq!(mean(&values), Real((2.0 + 1.0e16) / 3.0));
}

#[test]
fn mean_of_largest_sum() {
    assert_eq!(mean(&vec![u64::MAX - 1, 1]), u64::MAX / 2);
}
