//! The closed set of surface materials: what each sends on of the light
//! that reaches it, and the bounds that guard the sampling of scatter
//! directions.
//!
//! The direction in which a surface scatters is worked out from random draws
//! by arithmetic that rounds, which is done elsewhere. Given that direction,
//! what becomes of the light is decided here.

use crate::hittable::HitRecord;
use crate::ray::Ray;
use crate::vector::{lemma_abs_folds, Scalar, Vector3, ONE_BITS, ZERO_BITS};
use vstd::prelude::*;

verus! {

/// The word of a hundred-millionth: a direction whose components are all
/// smaller in magnitude counts as zero.
pub const NEAR_ZERO_BITS: u64 = 0x3E45_798E_E230_8C3A;

/// The word of ten to the minus 160: a sample whose squared length is not
/// above it is too close to the centre to be normalised.
pub const BLACK_HOLE_BITS: u64 = 0x1EB6_7E9C_127B_6E74;

/// How a surface answers incoming light. Albedo is the share of light that a
/// surface sends on, per colour channel.
#[derive(Clone, Copy, Debug, PartialEq, Eq, Structural)]
pub enum Material {
    /// Diffuse reflectance; always scatters, attenuating by `albedo`.
    Lambertian { albedo: Vector3 },
    /// Mirror-like reflectance, blurred by `fuzz`.
    Metal { albedo: Vector3, fuzz: Scalar },
    /// Any clear material, bending light by `refractive_index`.
    Dielectric { refractive_index: Scalar },
}

/// The attenuation of a clear material: all light of every channel.
pub open spec fn clear() -> Vector3 {
    Vector3 { x: Scalar { bits: ONE_BITS }, y: Scalar { bits: ONE_BITS }, z: Scalar { bits: ONE_BITS } }
}

impl Material {
    /// The attenuation and the outgoing ray of light that meets a surface
    /// of this material at `hit`, or `None` where the light is absorbed.
    /// `candidate` is the direction worked out for the outgoing ray and
    /// `alignment` its dot product with the recorded normal.
    ///
    /// A diffuse surface always scatters, attenuating by its albedo, and
    /// falls back to the bare normal where the candidate is near zero. A
    /// metal scatters, attenuating by its albedo, only where the candidate
    /// leaves the surface; light that would travel into the object is
    /// absorbed. A clear material always scatters and absorbs nothing.
    pub open spec fn scatter_spec(self, hit: HitRecord, candidate: Vector3, alignment: Scalar) -> Option<
        (Vector3, Ray),
    > {
        match self {
            Material::Lambertian { albedo } => Some(
                (
                    albedo,
                    Ray {
                        origin: hit.point,
                        direction: if is_near_zero(candidate) {
                            hit.outward_normal
                        } else {
                            candidate
                        },
                    },
                ),
            ),
            Material::Metal { albedo, fuzz } => if (Scalar { bits: ZERO_BITS }).lt_spec(alignment) {
                Some((albedo, Ray { origin: hit.point, direction: candidate }))
            } else {
                None
            },
            Material::Dielectric { refractive_index } => Some(
                (clear(), Ray { origin: hit.point, direction: candidate }),
            ),
        }
    }

    /// What becomes of light that meets a surface of this material at
    /// `hit_record` and would leave it along `candidate`.
    pub fn scatter(&self, hit_record: &HitRecord, candidate: Vector3, alignment: Scalar) -> (scattered:
        Option<(Vector3, Ray)>)
        ensures
            scattered == self.scatter_spec(*hit_record, candidate, alignment),
            scattered matches Some((attenuation, ray)) ==> ray.origin == hit_record.point,
            scattered is None <==> *self is Metal && !(Scalar { bits: ZERO_BITS }).lt_spec(alignment),
    {
        match self {
            Material::Lambertian { albedo } => {
                let mut scatter_direction = candidate;
                // a direction close to zero would give infinities further on
                if near_zero(&scatter_direction) {
                    scatter_direction = hit_record.outward_normal;
                }
                Some((*albedo, Ray::new(hit_record.point, scatter_direction)))
            },
            Material::Metal { albedo, fuzz: _ } => {
                if Scalar::from_bits(ZERO_BITS).lt(alignment) {
                    return Some((*albedo, Ray::new(hit_record.point, candidate)));
                }
                None
            },
            Material::Dielectric { refractive_index: _ } => {
                let attenuation = Vector3::from_bits(ONE_BITS, ONE_BITS, ONE_BITS);
                Some((attenuation, Ray::new(hit_record.point, candidate)))
            },
        }
    }
}

/// Whether light that meets a clear surface is reflected rather than
/// refracted. `ratio_sine` is the refraction ratio times the sine of the
/// angle of incidence: above one there is no refracted ray at all.
/// Otherwise the light is reflected where `draw`, a uniform sample of the
/// unit interval, falls below the `reflectance` of the surface.
pub open spec fn is_reflected(ratio_sine: Scalar, reflectance: Scalar, draw: Scalar) -> bool {
    (Scalar { bits: ONE_BITS }).lt_spec(ratio_sine) || draw.lt_spec(reflectance)
}

/// Decides between reflection and refraction at a clear surface.
pub fn reflects(ratio_sine: Scalar, reflectance: Scalar, draw: Scalar) -> (reflected: bool)
    ensures
        reflected == is_reflected(ratio_sine, reflectance, draw),
{
    Scalar::from_bits(ONE_BITS).lt(ratio_sine) || draw.lt(reflectance)
}

/// Whether every component of `v` is below a hundred-millionth in magnitude.
pub open spec fn is_near_zero(v: Vector3) -> bool {
    let s = Scalar { bits: NEAR_ZERO_BITS };
    v.x.abs_spec().lt_spec(s) && v.y.abs_spec().lt_spec(s) && v.z.abs_spec().lt_spec(s)
}

/// Whether `v` is too close to zero to serve as a direction.
pub fn near_zero(v: &Vector3) -> (tiny: bool)
    ensures
        tiny == is_near_zero(*v),
{
    let s = Scalar::from_bits(NEAR_ZERO_BITS);
    v.x.abs().lt(s) && v.y.abs().lt(s) && v.z.abs().lt(s)
}

/// Whether a sample of the given squared length can be scaled onto the unit
/// sphere: it lies in the unit ball and outside the black hole at its centre.
pub open spec fn is_in_unit_ball(length_squared: Scalar) -> bool {
    (Scalar { bits: BLACK_HOLE_BITS }).lt_spec(length_squared) && length_squared.le_spec(
        Scalar { bits: ONE_BITS },
    )
}

/// Whether a sample of the given squared length is kept; one that is not is
/// drawn again.
pub fn in_unit_ball(length_squared: Scalar) -> (kept: bool)
    ensures
        kept == is_in_unit_ball(length_squared),
{
    Scalar::from_bits(BLACK_HOLE_BITS).lt(length_squared) && length_squared.le(
        Scalar::from_bits(ONE_BITS),
    )
}

/// A surface that reflects all light reflects every draw of the unit
/// interval, and one that reflects none refracts every draw, unless there
/// is no refracted ray.
pub proof fn lemma_reflectance_bounds_the_choice(ratio_sine: Scalar, reflectance: Scalar, draw: Scalar)
    requires
        (Scalar { bits: ZERO_BITS }).le_spec(draw),
        draw.lt_spec(Scalar { bits: ONE_BITS }),
    ensures
        (Scalar { bits: ONE_BITS }).le_spec(reflectance) ==> is_reflected(ratio_sine, reflectance, draw),
        reflectance.le_spec(Scalar { bits: ZERO_BITS }) && !(Scalar { bits: ONE_BITS }).lt_spec(
            ratio_sine,
        ) ==> !is_reflected(ratio_sine, reflectance, draw),
{
}

/// A vector with a component that is no number is not near zero, and a
/// squared length that is no number is never kept.
pub proof fn lemma_no_number_passes_no_guard(v: Vector3, length_squared: Scalar)
    ensures
        v.x.is_nan_spec() || v.y.is_nan_spec() || v.z.is_nan_spec() ==> !is_near_zero(v),
        length_squared.is_nan_spec() ==> !is_in_unit_ball(length_squared),
{
    lemma_abs_folds(v.x);
    lemma_abs_folds(v.y);
    lemma_abs_folds(v.z);
}

} // verus!
