//! Equality within tolerance for the diffed fields of an entity.
use vstd::prelude::*;
use crate::model::{Orientation, Position, Vector, Velocity};

verus! {

/// Tolerance on latitude and longitude, in nano-degrees.
pub const LL_EPSILON: i64 = 1_000;

/// Tolerance on altitude, in nanometres.
pub const ALT_EPSILON: i64 = 1_000_000;

/// Tolerance on planar distances, in nanometres.
pub const METERS_EPSILON: i64 = 1_000_000;

/// Tolerance on vector components, in billionths.
pub const VECTOR_EPSILON: i64 = 1_000;

/// Tolerance on angles, in nano-degrees.
pub const DEGREES_EPSILON: i64 = 10_000_000;

/// Tolerance on speeds, in nanometres per second.
pub const SPEED_EPSILON: i64 = 1_000_000;

/// `a` and `b` lie strictly closer than `eps` to each other.
pub open spec fn within(a: i64, b: i64, eps: i64) -> bool {
    -(eps as int) < a - b < eps
}

fn close(a: i64, b: i64, eps: i64) -> (r: bool)
    requires
        eps > 0,
    ensures
        r == within(a, b, eps),
{
    let d: i128 = a as i128 - b as i128;
    -(eps as i128) < d && d < eps as i128
}

pub open spec fn spec_vector_equalish(a: Vector, b: Vector) -> bool {
    within(a.x, b.x, VECTOR_EPSILON) && within(a.y, b.y, VECTOR_EPSILON) && within(
        a.z,
        b.z,
        VECTOR_EPSILON,
    )
}

/// Two optional vectors agree when either is absent or both are within
/// tolerance.
pub open spec fn spec_opt_vector_equalish(a: Option<Vector>, b: Option<Vector>) -> bool {
    match (a, b) {
        (Some(a), Some(b)) => spec_vector_equalish(a, b),
        _ => true,
    }
}

pub open spec fn spec_position_equalish(l: Position, r: Position) -> bool {
    within(l.lat, r.lat, LL_EPSILON) && within(l.lon, r.lon, LL_EPSILON) && within(
        l.alt,
        r.alt,
        ALT_EPSILON,
    ) && within(l.u, r.u, METERS_EPSILON) && within(l.v, r.v, METERS_EPSILON)
}

pub open spec fn spec_orientation_equalish(l: Orientation, r: Orientation) -> bool {
    spec_opt_vector_equalish(l.forward, r.forward) && spec_opt_vector_equalish(l.right, r.right)
        && spec_opt_vector_equalish(l.up, r.up) && within(l.heading, r.heading, DEGREES_EPSILON)
        && within(l.yaw, r.yaw, DEGREES_EPSILON) && within(l.pitch, r.pitch, DEGREES_EPSILON)
        && within(l.roll, r.roll, DEGREES_EPSILON)
}

pub open spec fn spec_velocity_equalish(l: Velocity, r: Velocity) -> bool {
    spec_opt_vector_equalish(l.velocity, r.velocity) && within(
        l.heading,
        r.heading,
        DEGREES_EPSILON,
    ) && within(l.speed, r.speed, SPEED_EPSILON)
}

/// Check whether two distances in nanometres are equal within tolerance.
pub fn meters_equalish(a: i64, b: i64) -> (r: bool)
    ensures
        r == within(a, b, METERS_EPSILON),
{
    close(a, b, METERS_EPSILON)
}

/// Check whether two angles in nano-degrees are equal within tolerance.
pub fn degrees_equalish(a: i64, b: i64) -> (r: bool)
    ensures
        r == within(a, b, DEGREES_EPSILON),
{
    close(a, b, DEGREES_EPSILON)
}

/// Check whether two speeds are equal within tolerance.
pub fn speed_equalish(a: i64, b: i64) -> (r: bool)
    ensures
        r == within(a, b, SPEED_EPSILON),
{
    close(a, b, SPEED_EPSILON)
}

/// Check whether two vectors are equal within tolerance, component by
/// component.
pub fn vector_equalish(a: &Vector, b: &Vector) -> (r: bool)
    ensures
        r == spec_vector_equalish(*a, *b),
{
    close(a.x, b.x, VECTOR_EPSILON) && close(a.y, b.y, VECTOR_EPSILON) && close(
        a.z,
        b.z,
        VECTOR_EPSILON,
    )
}

fn opt_vector_equalish(a: &Option<Vector>, b: &Option<Vector>) -> (r: bool)
    ensures
        r == spec_opt_vector_equalish(*a, *b),
{
    match (a, b) {
        (Some(a), Some(b)) => vector_equalish(a, b),
        _ => true,
    }
}

/// Check whether two positions are equal within tolerance: latitude,
/// longitude, altitude and both planar coordinates.
pub fn position_equalish(l: &Position, r: &Position) -> (res: bool)
    ensures
        res == spec_position_equalish(*l, *r),
{
    close(l.lat, r.lat, LL_EPSILON) && close(l.lon, r.lon, LL_EPSILON) && close(
        l.alt,
        r.alt,
        ALT_EPSILON,
    ) && meters_equalish(l.u, r.u) && meters_equalish(l.v, r.v)
}

/// Check whether two orientations are equal within tolerance. A basis
/// vector absent on either side does not count against equality.
pub fn orientation_equalish(l: &Orientation, r: &Orientation) -> (res: bool)
    ensures
        res == spec_orientation_equalish(*l, *r),
{
    if !opt_vector_equalish(&l.forward, &r.forward) {
        return false;
    }
    if !opt_vector_equalish(&l.right, &r.right) {
        return false;
    }
    if !opt_vector_equalish(&l.up, &r.up) {
        return false;
    }
    degrees_equalish(l.heading, r.heading) && degrees_equalish(l.yaw, r.yaw) && degrees_equalish(
        l.pitch,
        r.pitch,
    ) && degrees_equalish(l.roll, r.roll)
}

/// Check whether two velocities are equal within tolerance.
pub fn velocity_equalish(l: &Velocity, r: &Velocity) -> (res: bool)
    ensures
        res == spec_velocity_equalish(*l, *r),
{
    opt_vector_equalish(&l.velocity, &r.velocity) && degrees_equalish(l.heading, r.heading)
        && speed_equalish(l.speed, r.speed)
}

} // verus!
