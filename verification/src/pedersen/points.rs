//! Points and scalars of the Jubjub curve.
use crate::field::repr::bytes_value;
use crate::pedersen::edwards::{ed_add, ed_neg, neutral, on_edwards, subgroup_order};
use vstd::prelude::*;

verus! {

/// Points of the Jubjub curve in extended coordinates.
#[verifier::external_type_specification]
#[verifier::external_body]
pub struct ExExtendedPoint(jubjub::ExtendedPoint);

/// Scalars of the Jubjub curve.
#[verifier::external_type_specification]
#[verifier::external_body]
pub struct ExFr(jubjub::Fr);

/// The affine coordinates of a point, as residues of the base field.
pub uninterp spec fn coordinates(point: jubjub::ExtendedPoint) -> (int, int);

/// The residue of a scalar.
pub uninterp spec fn scalar_value(scalar: jubjub::Fr) -> int;

/// The neutral element, by `jubjub::ExtendedPoint::identity`: the point with the affine
/// coordinates zero and one.
#[verifier::external_body]
pub(crate) fn point_identity() -> (r: jubjub::ExtendedPoint)
    ensures
        coordinates(r) == neutral(),
{
    jubjub::ExtendedPoint::identity()
}

/// The sum of two points, by `+` on `jubjub::ExtendedPoint`: on points of the curve it is the
/// complete addition of the twisted Edwards curve. Nothing is stated of points that are not on
/// the curve.
#[verifier::external_body]
pub(crate) fn point_sum(a: &jubjub::ExtendedPoint, b: &jubjub::ExtendedPoint) -> (r:
    jubjub::ExtendedPoint)
    ensures
        on_edwards(coordinates(*a)) && on_edwards(coordinates(*b)) ==> coordinates(r) == ed_add(
            coordinates(*a),
            coordinates(*b),
        ),
{
    a + b
}

/// The opposite of a point, by unary `-` on `jubjub::ExtendedPoint`: it negates the first affine
/// coordinate. Nothing is stated of points that are not on the curve.
#[verifier::external_body]
pub(crate) fn point_opposite(a: &jubjub::ExtendedPoint) -> (r: jubjub::ExtendedPoint)
    ensures
        on_edwards(coordinates(*a)) ==> coordinates(r) == ed_neg(coordinates(*a)),
{
    -*a
}

/// The scalar zero, by `jubjub::Fr::zero`.
#[verifier::external_body]
pub(crate) fn scalar_zero() -> (r: jubjub::Fr)
    ensures
        scalar_value(r) == 0,
{
    jubjub::Fr::zero()
}

/// The scalar one, by `jubjub::Fr::one`.
#[verifier::external_body]
pub(crate) fn scalar_one() -> (r: jubjub::Fr)
    ensures
        scalar_value(r) == 1,
{
    jubjub::Fr::one()
}

/// The sum of two scalars modulo the order of the subgroup, by `jubjub::Fr::add`.
#[verifier::external_body]
pub(crate) fn scalar_sum(a: &jubjub::Fr, b: &jubjub::Fr) -> (r: jubjub::Fr)
    ensures
        scalar_value(r) == (scalar_value(*a) + scalar_value(*b)) % subgroup_order(),
{
    a.add(b)
}

/// The double of a scalar modulo the order of the subgroup, by `jubjub::Fr::double`.
#[verifier::external_body]
pub(crate) fn scalar_double(a: &jubjub::Fr) -> (r: jubjub::Fr)
    ensures
        scalar_value(r) == (2 * scalar_value(*a)) % subgroup_order(),
{
    a.double()
}

/// The opposite of a scalar modulo the order of the subgroup, by `jubjub::Fr::neg`.
#[verifier::external_body]
pub(crate) fn scalar_opposite(a: &jubjub::Fr) -> (r: jubjub::Fr)
    ensures
        scalar_value(r) == (0 - scalar_value(*a)) % subgroup_order(),
{
    a.neg()
}

/// The canonical encoding of a scalar, by `jubjub::Fr::to_bytes`: the bytes of its residue, lowest
/// byte first.
#[verifier::external_body]
pub(crate) fn scalar_bytes(a: &jubjub::Fr) -> (r: [u8; 32])
    ensures
        bytes_value(r@) == scalar_value(*a),
{
    a.to_bytes()
}

} // verus!
