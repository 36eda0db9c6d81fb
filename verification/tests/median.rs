use little_math::sorting::sorted_keys;
use little_math::{median_f32, Median, StatsError};

fn median_patterns(values: &[f32]) -> Vec<u32> {
    values.iter().map(|v| v.to_bits()).collect()
}

#[test]
fn median_of_an_odd_number_is_the_middle() {
    let data = median_patterns(&[5.0, 1.0, 3.0]);
    assert_eq!(median_f32(&data), Ok(Median::Middle(3.0f32.to_bits())));
}

#[test]
fn median_of_an_even_number_is_between_the_central_two() {
    let data = median_patterns(&[4.0, 1.0, 3.0, 2.0]);
    assert_eq!(median_f32(&data), Ok(Median::Between(2.0f32.to_bits(), 3.0f32.to_bits())));
}

#[test]
fn median_of_one_sample_is_that_sample() {
    assert_eq!(median_f32(&median_patterns(&[-7.25])), Ok(Median::Middle((-7.25f32).to_bits())));
}

#[test]
fn median_of_two_samples_is_between_them() {
    let data = median_patterns(&[10.0, -10.0]);
    assert_eq!(median_f32(&data), Ok(Median::Between((-10.0f32).to_bits(), 10.0f32.to_bits())));
}

#[test]
fn median_sorts_negative_before_positive() {
    let data = median_patterns(&[0.5, -0.5, -2.0, 2.0, -1.0]);
    assert_eq!(median_f32(&data), Ok(Median::Middle((-0.5f32).to_bits())));
}

#[test]
fn median_with_repeated_samples() {
    let data = median_patterns(&[2.0, 2.0, 1.0, 2.0, 9.0, 1.0]);
    assert_eq!(median_f32(&data), Ok(Median::Between(2.0f32.to_bits(), 2.0f32.to_bits())));
}

#[test]
fn median_of_nothing_is_refused() {
    assert_eq!(median_f32(&vec![]), Err(StatsError::EmptyInput));
}

#[test]
fn median_refuses_a_nan() {
    let data = median_patterns(&[1.0, 2.0, f32::NAN]);
    assert_eq!(median_f32(&data), Err(StatsError::InvalidValue));
}

#[test]
fn median_leaves_the_input_alone() {
    let data = median_patterns(&[3.0, 1.0, 2.0]);
    let before = data.clone();
    let _ = median_f32(&data);
    assert_eq!(data, before);
}

#[test]
fn median_ignores_the_order_of_the_samples() {
    let orders: [[f32; 5]; 6] = [
        [1.0, 2.0, 3.0, 4.0, 5.0],
        [5.0, 4.0, 3.0, 2.0, 1.0],
        [3.0, 1.0, 5.0, 2.0, 4.0],
        [2.0, 5.0, 1.0, 4.0, 3.0],
        [4.0, 3.0, 2.0, 1.0, 5.0],
        [1.0, 5.0, 2.0, 4.0, 3.0],
    ];
    for order in orders.iter() {
        assert_eq!(median_f32(&median_patterns(order)), Ok(Median::Middle(3.0f32.to_bits())));
    }
    let even: [[f32; 4]; 4] =
        [[-1.0, 0.5, 0.5, 8.0], [8.0, 0.5, -1.0, 0.5], [0.5, 8.0, 0.5, -1.0], [0.5, -1.0, 8.0, 0.5]];
    for order in even.iter() {
        assert_eq!(
            median_f32(&median_patterns(order)),
            Ok(Median::Between(0.5f32.to_bits(), 0.5f32.to_bits()))
        );
    }
}

#[test]
fn median_reads_negative_zero_as_zero() {
    let data = median_patterns(&[-0.0, 1.0, -1.0]);
    assert_eq!(median_f32(&data), Ok(Median::Middle(0)));
}

#[test]
fn median_of_many_samples() {
    let mut values: Vec<f32> = Vec::new();
    for i in 0..1001u32 {
        values.push(((i * 37) % 1001) as f32 - 500.0);
    }
    assert_eq!(median_f32(&median_patterns(&values)), Ok(Median::Middle(0)));
    values.push(1000.0);
    assert_eq!(
        median_f32(&median_patterns(&values)),
        Ok(Median::Between(0, 1.0f32.to_bits()))
    );
}

#[test]
fn sorted_keys_are_ascending_and_complete() {
    let keys = vec![5, -3, 9, 0, -3, 7, i32::MAX, i32::MIN, 2];
    let sorted = sorted_keys(&keys);
    let mut expected = keys.clone();
    expected.sort();
    assert_eq!(sorted, expected);
    assert_eq!(sorted_keys(&vec![]), Vec::<i32>::new());
    assert_eq!(sorted_keys(&vec![4]), vec![4]);
    assert_eq!(sorted_keys(&vec![2, 1]), vec![1, 2]);
}
