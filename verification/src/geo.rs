use vstd::prelude::*;
use crate::error::StatsError;

verus! {

/// A point on the globe, in degrees, each component a binary64 pattern.
///
/// No range is imposed: what a latitude beyond the poles means is left to
/// the caller.
#[derive(Clone, Copy, Debug, PartialEq, Eq, Structural)]
pub struct Coordinate {
    pub latitude: u64,
    pub longitude: u64,
}

/// What `coordinate` answers for the components it is given.
pub open spec fn coordinate_spec(components: Seq<u64>) -> Result<Coordinate, StatsError> {
    if components.len() < 2 {
        Err(StatsError::MalformedCoordinate)
    } else {
        Ok(Coordinate { latitude: components[0], longitude: components[1] })
    }
}

/// What `coordinates` answers for the components of two points.
pub open spec fn coordinates_spec(first: Seq<u64>, second: Seq<u64>) -> Result<
    (Coordinate, Coordinate),
    StatsError,
> {
    match (coordinate_spec(first), coordinate_spec(second)) {
        (Ok(a), Ok(b)) => Ok((a, b)),
        _ => Err(StatsError::MalformedCoordinate),
    }
}

/// Reads a point from its components: the latitude, then the longitude.
/// Further components are ignored; fewer than two are refused.
pub fn coordinate(components: &Vec<u64>) -> (point: Result<Coordinate, StatsError>)
    ensures
        point == coordinate_spec(components@),
{
    if components.len() < 2 {
        Err(StatsError::MalformedCoordinate)
    } else {
        Ok(Coordinate { latitude: components[0], longitude: components[1] })
    }
}

/// Reads the two points between which a distance is asked.  The distance is
/// refused as a whole when either point is malformed.
pub fn coordinates(first: &Vec<u64>, second: &Vec<u64>) -> (points: Result<
    (Coordinate, Coordinate),
    StatsError,
>)
    ensures
        points == coordinates_spec(first@, second@),
{
    match (coordinate(first), coordinate(second)) {
        (Ok(a), Ok(b)) => Ok((a, b)),
        _ => Err(StatsError::MalformedCoordinate),
    }
}

} // verus!
