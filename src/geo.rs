//! The arrival geofence.
//!
//! Coordinates are fixed-point integers: one unit is a ten-millionth of a
//! degree, so `48.8239103` is `488239103`. Distance is Euclidean in the
//! (latitude, longitude) plane, with no geodesic correction.
use vstd::prelude::*;

verus! {

/// The geofence radius, `0.0003` degree, in coordinate units.
pub const ARRIVAL_RADIUS: i64 = 3000;

/// Square of the Euclidean distance between two points, in squared units.
pub open spec fn squared_distance(lat1: int, lon1: int, lat2: int, lon2: int) -> int {
    (lat1 - lat2) * (lat1 - lat2) + (lon1 - lon2) * (lon1 - lon2)
}

/// Whether the current point lies strictly inside the geofence of the
/// destination: distance < radius, compared on squares.
pub open spec fn arrived(cur_lat: int, cur_lon: int, dst_lat: int, dst_lon: int) -> bool {
    squared_distance(cur_lat, cur_lon, dst_lat, dst_lon) < ARRIVAL_RADIUS * ARRIVAL_RADIUS
}

proof fn lemma_far_axis(d: int, e: int)
    requires
        d >= ARRIVAL_RADIUS || d <= -ARRIVAL_RADIUS,
    ensures
        d * d + e * e >= ARRIVAL_RADIUS * ARRIVAL_RADIUS,
{
    assert(d * d >= 3000 * 3000) by (nonlinear_arith)
        requires
            d >= 3000 || d <= -3000,
    ;
    assert(e * e >= 0) by (nonlinear_arith);
}

/// Decides whether the current position has arrived at the destination.
/// Total: every input is accepted, and the answer is exactly `arrived`.
pub fn is_arrived(current_lat: i64, current_lon: i64, destination_lat: i64, destination_lon: i64) -> (r: bool)
    ensures
        r == arrived(current_lat as int, current_lon as int, destination_lat as int, destination_lon as int),
{
    let dlat: i128 = current_lat as i128 - destination_lat as i128;
    let dlon: i128 = current_lon as i128 - destination_lon as i128;
    let radius: i128 = ARRIVAL_RADIUS as i128;
    if dlat >= radius || dlat <= -radius {
        proof {
            lemma_far_axis(dlat as int, dlon as int);
        }
        return false;
    }
    if dlon >= radius || dlon <= -radius {
        proof {
            lemma_far_axis(dlon as int, dlat as int);
        }
        return false;
    }
    assert(0 <= dlat * dlat <= 3000 * 3000) by (nonlinear_arith)
        requires
            -3000 < dlat < 3000,
    ;
    assert(0 <= dlon * dlon <= 3000 * 3000) by (nonlinear_arith)
        requires
            -3000 < dlon < 3000,
    ;
    dlat * dlat + dlon * dlon < radius * radius
}

/// A point exactly at the radius from the destination has not arrived: the
/// comparison is strict.
pub proof fn lemma_boundary_not_arrived(cur_lat: int, cur_lon: int, dst_lat: int, dst_lon: int)
    requires
        squared_distance(cur_lat, cur_lon, dst_lat, dst_lon) == ARRIVAL_RADIUS * ARRIVAL_RADIUS,
    ensures
        !arrived(cur_lat, cur_lon, dst_lat, dst_lon),
{
}

/// The destination itself is always inside its own geofence.
pub proof fn lemma_destination_is_arrived(dst_lat: int, dst_lon: int)
    ensures
        arrived(dst_lat, dst_lon, dst_lat, dst_lon),
{
}

} // verus!
