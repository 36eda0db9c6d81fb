use little_math::geo::{coordinate, coordinates, Coordinate};
use little_math::StatsError;

fn components_of(values: &[f64]) -> Vec<u64> {
    values.iter().map(|v| v.to_bits()).collect()
}

#[test]
fn coordinate_reads_latitude_then_longitude() {
    let point = coordinate(&components_of(&[48.8534, 2.3488])).unwrap();
    assert_eq!(f64::from_bits(point.latitude), 48.8534);
    assert_eq!(f64::from_bits(point.longitude), 2.3488);
}

#[test]
fn coordinate_ignores_further_components() {
    let point = coordinate(&components_of(&[1.0, 2.0, 3.0])).unwrap();
    assert_eq!(point, Coordinate { latitude: 1.0f64.to_bits(), longitude: 2.0f64.to_bits() });
}

#[test]
fn coordinate_with_fewer_than_two_components_is_refused() {
    assert_eq!(coordinate(&vec![]), Err(StatsError::MalformedCoordinate));
    assert_eq!(coordinate(&components_of(&[48.8534])), Err(StatsError::MalformedCoordinate));
}

#[test]
fn coordinate_accepts_values_beyond_the_canonical_ranges() {
    let point = coordinate(&components_of(&[123.0, -500.0])).unwrap();
    assert_eq!(f64::from_bits(point.latitude), 123.0);
    assert_eq!(f64::from_bits(point.longitude), -500.0);
}

#[test]
fn coordinates_reads_both_points() {
    let paris = components_of(&[48.8534, 2.3488]);
    let london = components_of(&[51.5085, -0.1257]);
    let (a, b) = coordinates(&paris, &london).unwrap();
    assert_eq!(a, coordinate(&paris).unwrap());
    assert_eq!(b, coordinate(&london).unwrap());
}

#[test]
fn coordinates_refuses_either_malformed_point() {
    let good = components_of(&[48.8534, 2.3488]);
    let short = components_of(&[48.8534]);
    assert_eq!(coordinates(&short, &good), Err(StatsError::MalformedCoordinate));
    assert_eq!(coordinates(&good, &short), Err(StatsError::MalformedCoordinate));
    assert_eq!(coordinates(&short, &short), Err(StatsError::MalformedCoordinate));
    assert_eq!(coordinates(&vec![], &good), Err(StatsError::MalformedCoordinate));
}

#[test]
fn coordinates_keep_the_order_of_the_points() {
    let paris = components_of(&[48.8534, 2.3488]);
    let london = components_of(&[51.5085, -0.1257]);
    let (a, b) = coordinates(&paris, &london).unwrap();
    let (c, d) = coordinates(&london, &paris).unwrap();
    assert_eq!((a, b), (d, c));
    assert_eq!(coordinates(&paris, &paris), Ok((a, a)));
    assert_eq!(f64::from_bits(b.latitude), 51.5085);
    assert_eq!(f64::from_bits(b.longitude), -0.1257);
}
