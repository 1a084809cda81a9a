//! The rule by which a sphere picks its intersection.
//!
//! A ray meets a sphere where a quadratic in the ray parameter vanishes.
//! Solving it is arithmetic that rounds; which of its roots counts as the
//! hit is decided here.

use crate::hittable::{contains, inside, narrowed};
use crate::vector::{Scalar, ZERO_BITS};
use std::ops::Range;
use vstd::prelude::*;

verus! {

/// The ray parameter of the hit, given the discriminant of the quadratic
/// and its two roots: none where the discriminant is negative, else the
/// near root where it lies strictly inside `interval`, else the far root
/// where that does, else none.
pub open spec fn chosen_root(
    discriminant: Scalar,
    near: Scalar,
    far: Scalar,
    interval: Range<Scalar>,
) -> Option<Scalar> {
    if discriminant.lt_spec(Scalar { bits: ZERO_BITS }) {
        None
    } else if inside(interval, near) {
        Some(near)
    } else if inside(interval, far) {
        Some(far)
    } else {
        None
    }
}

/// Picks the root of a hit: the nearest root that lies inside the search
/// interval, and none where the quadratic has no roots or neither lies
/// inside.
pub fn select_root(discriminant: Scalar, near: Scalar, far: Scalar, interval: &Range<Scalar>) -> (root:
    Option<Scalar>)
    ensures
        root == chosen_root(discriminant, near, far, *interval),
        root matches Some(t) ==> inside(*interval, t) && (t == near || t == far),
{
    if discriminant.lt(Scalar::from_bits(ZERO_BITS)) {
        return None;
    }
    if contains(interval, near) {
        Some(near)
    } else if contains(interval, far) {
        Some(far)
    } else {
        None
    }
}

/// Of the roots of a quadratic that has any, the one chosen is the nearest
/// that lies inside the interval, and none is chosen only where both lie
/// outside.
pub proof fn lemma_nearest_root_is_chosen(
    discriminant: Scalar,
    near: Scalar,
    far: Scalar,
    interval: Range<Scalar>,
)
    requires
        !discriminant.lt_spec(Scalar { bits: ZERO_BITS }),
        near.le_spec(far),
    ensures
        chosen_root(discriminant, near, far, interval) is None <==> !inside(interval, near)
            && !inside(interval, far),
        chosen_root(discriminant, near, far, interval) matches Some(t) ==> {
            &&& t == near || t == far
            &&& inside(interval, t)
            &&& inside(interval, near) ==> !near.lt_spec(t)
            &&& inside(interval, far) ==> !far.lt_spec(t)
        },
{
}

/// Without real roots nothing is hit, whatever the interval.
pub proof fn lemma_no_roots_no_hit(discriminant: Scalar, near: Scalar, far: Scalar, interval: Range<Scalar>)
    requires
        discriminant.lt_spec(Scalar { bits: ZERO_BITS }),
    ensures
        chosen_root(discriminant, near, far, interval) is None,
{
}

/// Cutting the search short does not change which root is chosen: below a
/// bound inside the interval the choice is the one made for the whole
/// interval where that lies below the bound, and none where it does not.
pub proof fn lemma_choice_is_alike(
    discriminant: Scalar,
    near: Scalar,
    far: Scalar,
    interval: Range<Scalar>,
    end: Scalar,
)
    requires
        near.le_spec(far) || near.is_nan_spec() || far.is_nan_spec(),
        end.lt_spec(interval.end),
    ensures
        chosen_root(discriminant, near, far, narrowed(interval, end)) == match chosen_root(
            discriminant,
            near,
            far,
            interval,
        ) {
            Some(t) => if t.lt_spec(end) {
                Some(t)
            } else {
                None
            },
            None => None,
        },
{
}

} // verus!
