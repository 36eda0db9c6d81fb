use little_math::{max_f32, max_usize, min_f32, min_usize, StatsError};

fn patterns_of(values: &[f32]) -> Vec<u32> {
    values.iter().map(|v| v.to_bits()).collect()
}

#[test]
fn max_usize_picks_largest() {
    assert_eq!(max_usize(&vec![3, 9, 2, 9, 1]), Ok(9));
}

#[test]
fn min_usize_picks_smallest() {
    assert_eq!(min_usize(&vec![3, 9, 2, 9, 1]), Ok(1));
}

#[test]
fn extrema_of_one_count_are_that_count() {
    assert_eq!(max_usize(&vec![7]), Ok(7));
    assert_eq!(min_usize(&vec![7]), Ok(7));
}

#[test]
fn extrema_of_counts_reach_the_limits() {
    let data = vec![usize::MAX, 0, 5];
    assert_eq!(max_usize(&data), Ok(usize::MAX));
    assert_eq!(min_usize(&data), Ok(0));
}

#[test]
fn extrema_of_no_counts_are_refused() {
    assert_eq!(max_usize(&vec![]), Err(StatsError::EmptyInput));
    assert_eq!(min_usize(&vec![]), Err(StatsError::EmptyInput));
}

#[test]
fn every_count_lies_between_min_and_max() {
    let data: Vec<usize> = vec![12, 4, 4, 99, 0, 51, 99];
    let lo = min_usize(&data).unwrap();
    let hi = max_usize(&data).unwrap();
    for x in &data {
        assert!(lo <= *x && *x <= hi);
    }
    assert!(data.contains(&lo));
    assert!(data.contains(&hi));
}

#[test]
fn max_f32_picks_largest() {
    let data = patterns_of(&[1.5, -3.0, 8.25, 0.0, 8.0]);
    assert_eq!(max_f32(&data), Ok(8.25f32.to_bits()));
}

#[test]
fn min_f32_picks_smallest() {
    let data = patterns_of(&[1.5, -3.0, 8.25, 0.0, -2.75]);
    assert_eq!(min_f32(&data), Ok((-3.0f32).to_bits()));
}

#[test]
fn extrema_of_negative_samples() {
    let data = patterns_of(&[-1.0, -7.5, -0.25]);
    assert_eq!(max_f32(&data), Ok((-0.25f32).to_bits()));
    assert_eq!(min_f32(&data), Ok((-7.5f32).to_bits()));
}

#[test]
fn extrema_reach_the_infinities() {
    let data = patterns_of(&[f32::INFINITY, 1.0, f32::NEG_INFINITY, f32::MAX, f32::MIN]);
    assert_eq!(max_f32(&data), Ok(f32::INFINITY.to_bits()));
    assert_eq!(min_f32(&data), Ok(f32::NEG_INFINITY.to_bits()));
}

#[test]
fn extrema_order_subnormal_samples() {
    let tiny = f32::from_bits(1);
    let data = patterns_of(&[tiny, 0.0, -tiny]);
    assert_eq!(max_f32(&data), Ok(1));
    assert_eq!(min_f32(&data), Ok(0x8000_0001));
}

#[test]
fn extrema_of_no_samples_are_refused() {
    assert_eq!(max_f32(&vec![]), Err(StatsError::EmptyInput));
    assert_eq!(min_f32(&vec![]), Err(StatsError::EmptyInput));
}

#[test]
fn extrema_refuse_a_nan() {
    let data = patterns_of(&[1.0, f32::NAN, 2.0]);
    assert_eq!(max_f32(&data), Err(StatsError::InvalidValue));
    assert_eq!(min_f32(&data), Err(StatsError::InvalidValue));
    let negative_nan = vec![0xffc0_0000u32];
    assert_eq!(max_f32(&negative_nan), Err(StatsError::InvalidValue));
    assert_eq!(min_f32(&negative_nan), Err(StatsError::InvalidValue));
}

#[test]
fn extrema_return_zero_with_a_clear_sign() {
    let data = patterns_of(&[-0.0]);
    assert_eq!(max_f32(&data), Ok(0));
    assert_eq!(min_f32(&data), Ok(0));
    let mixed = patterns_of(&[-0.0, 0.0, -1.0]);
    assert_eq!(max_f32(&mixed), Ok(0));
}

#[test]
fn every_sample_lies_between_min_and_max() {
    let values = [3.5f32, -2.0, 0.0, 17.25, -2.0, 1.0e-20, -1.0e30];
    let data = patterns_of(&values);
    let lo = f32::from_bits(min_f32(&data).unwrap());
    let hi = f32::from_bits(max_f32(&data).unwrap());
    assert_eq!(lo, -1.0e30);
    assert_eq!(hi, 17.25);
    for v in values.iter() {
        assert!(lo <= *v && *v <= hi);
    }
}

#[test]
fn extrema_leave_the_input_alone() {
    let data = patterns_of(&[2.0, 1.0, 3.0]);
    let before = data.clone();
    let _ = max_f32(&data);
    let _ = min_f32(&data);
    assert_eq!(data, before);
}
