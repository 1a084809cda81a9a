//! Camera configuration and the decisions of the light-transport integrator.
//!
//! What the camera decides lives here: the staged configuration, whose
//! unset fields fall back to fixed defaults; the number of pixel rows; the
//! choice between pinhole and lens; and the control of a light path, which
//! settles for each segment whether the bounce budget is spent, the ray left
//! the scene or a surface was struck. Deriving the viewport from a
//! configuration and weighing the light of a path are arithmetic that
//! rounds and belong to the caller.

use crate::hittable::{sweep, HitRecord, Hittable, HittableList};
use crate::ray::Ray;
use crate::vector::{
    lemma_rank_of_positive_word, lemma_whole_part_rounds_down, Scalar, Vector3, EXPONENT_BIAS,
    INFINITY_BITS, MAGNITUDE_MASK, MINUS_ONE_BITS, ONE_BITS, ZERO_BITS,
};
use std::ops::Range;
use vstd::prelude::*;

verus! {

/// Default image width in pixels.
pub const DEFAULT_IMAGE_WIDTH: u32 = 400;

/// Default number of samples drawn per pixel.
pub const DEFAULT_SAMPLES_PER_PIXEL: u32 = 100;

/// Default bounce budget of a light path.
pub const DEFAULT_MAX_DEPTH: u32 = 50;

/// The word of sixteen ninths, the default aspect ratio.
pub const DEFAULT_ASPECT_RATIO_BITS: u64 = 0x3FFC_71C7_1C71_C71C;

/// The word of ninety, the default vertical field of view in degrees.
pub const DEFAULT_VERTICAL_FOV_BITS: u64 = 0x4056_8000_0000_0000;

/// The word of one hundred, the default focus distance.
pub const DEFAULT_FOCUS_DIST_BITS: u64 = 0x4059_0000_0000_0000;

/// The word of one thousandth: the lower end of every scene search, which
/// keeps a scattered ray from hitting the surface it starts on.
pub const SHADOW_ACNE_BITS: u64 = 0x3F50_624D_D2F1_A9FC;

/// A camera configuration with every field decided.
#[derive(Clone, Copy, Debug, PartialEq, Eq, Structural)]
pub struct CameraConfig {
    pub aspect_ratio: Scalar,
    pub image_width: u32,
    pub samples_per_pixel: u32,
    pub max_depth: u32,
    pub vertical_fov: Scalar,
    pub look_from: Vector3,
    pub look_at: Vector3,
    pub v_up: Vector3,
    pub defocus_angle: Scalar,
    pub focus_dist: Scalar,
}

impl CameraConfig {
    /// Whether the camera has no lens: the defocus angle is zero or less,
    /// and every ray starts at the camera centre.
    pub open spec fn is_pinhole_spec(&self) -> bool {
        self.defocus_angle.le_spec(Scalar { bits: ZERO_BITS })
    }

    /// Whether every ray starts at the camera centre rather than on the
    /// defocus disk.
    #[verifier::when_used_as_spec(is_pinhole_spec)]
    pub fn is_pinhole(&self) -> (pinhole: bool)
        ensures
            pinhole == self.is_pinhole_spec(),
    {
        self.defocus_angle.le(Scalar::from_bits(ZERO_BITS))
    }
}

/// The configuration that a builder with nothing set resolves to: a 400
/// pixel wide 16:9 image, 100 samples per pixel, 50 bounces, a 90 degree
/// field of view, looking from the origin down the negative z axis with y
/// up, no defocus, focus distance 100.
pub open spec fn default_config() -> CameraConfig {
    CameraConfig {
        aspect_ratio: Scalar { bits: DEFAULT_ASPECT_RATIO_BITS },
        image_width: DEFAULT_IMAGE_WIDTH,
        samples_per_pixel: DEFAULT_SAMPLES_PER_PIXEL,
        max_depth: DEFAULT_MAX_DEPTH,
        vertical_fov: Scalar { bits: DEFAULT_VERTICAL_FOV_BITS },
        look_from: Vector3 {
            x: Scalar { bits: ZERO_BITS },
            y: Scalar { bits: ZERO_BITS },
            z: Scalar { bits: ZERO_BITS },
        },
        look_at: Vector3 {
            x: Scalar { bits: ZERO_BITS },
            y: Scalar { bits: ZERO_BITS },
            z: Scalar { bits: MINUS_ONE_BITS },
        },
        v_up: Vector3 {
            x: Scalar { bits: ZERO_BITS },
            y: Scalar { bits: ONE_BITS },
            z: Scalar { bits: ZERO_BITS },
        },
        defocus_angle: Scalar { bits: ZERO_BITS },
        focus_dist: Scalar { bits: DEFAULT_FOCUS_DIST_BITS },
    }
}

/// `value` where it is set, `fallback` where it is not.
pub open spec fn or_default<T>(value: Option<T>, fallback: T) -> T {
    match value {
        Some(v) => v,
        None => fallback,
    }
}

/// A staged camera configuration: every field may be set or left open.
#[derive(Clone, Copy, Debug, PartialEq, Eq, Structural)]
pub struct CameraBuilder {
    pub aspect_ratio: Option<Scalar>,
    pub image_width: Option<u32>,
    pub samples_per_pixel: Option<u32>,
    pub max_depth: Option<u32>,
    pub vertical_fov: Option<Scalar>,
    pub look_from: Option<Vector3>,
    pub look_at: Option<Vector3>,
    pub v_up: Option<Vector3>,
    pub defocus_angle: Option<Scalar>,
    pub focus_dist: Option<Scalar>,
}

impl CameraBuilder {
    /// The configuration this builder stands for: each field as set, or its
    /// default.
    pub open spec fn resolved(self) -> CameraConfig {
        let d = default_config();
        CameraConfig {
            aspect_ratio: or_default(self.aspect_ratio, d.aspect_ratio),
            image_width: or_default(self.image_width, d.image_width),
            samples_per_pixel: or_default(self.samples_per_pixel, d.samples_per_pixel),
            max_depth: or_default(self.max_depth, d.max_depth),
            vertical_fov: or_default(self.vertical_fov, d.vertical_fov),
            look_from: or_default(self.look_from, d.look_from),
            look_at: or_default(self.look_at, d.look_at),
            v_up: or_default(self.v_up, d.v_up),
            defocus_angle: or_default(self.defocus_angle, d.defocus_angle),
            focus_dist: or_default(self.focus_dist, d.focus_dist),
        }
    }

    /// A builder with no field set.
    pub fn new() -> (builder: Self)
        ensures
            builder == (CameraBuilder {
                aspect_ratio: None,
                image_width: None,
                samples_per_pixel: None,
                max_depth: None,
                vertical_fov: None,
                look_from: None,
                look_at: None,
                v_up: None,
                defocus_angle: None,
                focus_dist: None,
            }),
            builder.resolved() == default_config(),
            builder.resolved().is_pinhole_spec(),
    {
        proof {
            lemma_rank_of_positive_word(ZERO_BITS);
        }
        Self {
            aspect_ratio: None,
            image_width: None,
            samples_per_pixel: None,
            max_depth: None,
            vertical_fov: None,
            look_from: None,
            look_at: None,
            v_up: None,
            defocus_angle: None,
            focus_dist: None,
        }
    }

    /// Sets the ratio of image width to image height.
    pub fn aspect_ratio(self, aspect_ratio: Scalar) -> (builder: Self)
        ensures
            builder == (CameraBuilder { aspect_ratio: Some(aspect_ratio), ..self }),
    {
        CameraBuilder { aspect_ratio: Some(aspect_ratio), ..self }
    }

    /// Sets the image width in pixels.
    pub fn image_width(self, image_width: u32) -> (builder: Self)
        ensures
            builder == (CameraBuilder { image_width: Some(image_width), ..self }),
    {
        CameraBuilder { image_width: Some(image_width), ..self }
    }

    /// Sets the number of samples drawn per pixel.
    pub fn samples_per_pixel(self, samples_per_pixel: u32) -> (builder: Self)
        ensures
            builder == (CameraBuilder { samples_per_pixel: Some(samples_per_pixel), ..self }),
    {
        CameraBuilder { samples_per_pixel: Some(samples_per_pixel), ..self }
    }

    /// Sets the bounce budget of a light path.
    pub fn max_depth(self, max_depth: u32) -> (builder: Self)
        ensures
            builder == (CameraBuilder { max_depth: Some(max_depth), ..self }),
    {
        CameraBuilder { max_depth: Some(max_depth), ..self }
    }

    /// Sets the vertical field of view, in degrees.
    pub fn vertical_fov(self, vertical_fov: Scalar) -> (builder: Self)
        ensures
            builder == (CameraBuilder { vertical_fov: Some(vertical_fov), ..self }),
    {
        CameraBuilder { vertical_fov: Some(vertical_fov), ..self }
    }

    /// Sets the point the camera looks from.
    pub fn look_from(self, look_from: Vector3) -> (builder: Self)
        ensures
            builder == (CameraBuilder { look_from: Some(look_from), ..self }),
    {
        CameraBuilder { look_from: Some(look_from), ..self }
    }

    /// Sets the point the camera looks at.
    pub fn look_at(self, look_at: Vector3) -> (builder: Self)
        ensures
            builder == (CameraBuilder { look_at: Some(look_at), ..self }),
    {
        CameraBuilder { look_at: Some(look_at), ..self }
    }

    /// Sets the direction that is up for the camera.
    pub fn v_up(self, v_up: Vector3) -> (builder: Self)
        ensures
            builder == (CameraBuilder { v_up: Some(v_up), ..self }),
    {
        CameraBuilder { v_up: Some(v_up), ..self }
    }

    /// Sets the angle of the defocus cone, in degrees; zero or less is a pinhole.
    pub fn defocus_angle(self, defocus_angle: Scalar) -> (builder: Self)
        ensures
            builder == (CameraBuilder { defocus_angle: Some(defocus_angle), ..self }),
    {
        CameraBuilder { defocus_angle: Some(defocus_angle), ..self }
    }

    /// Sets the distance from the camera to the plane of perfect focus.
    pub fn focus_dist(self, focus_dist: Scalar) -> (builder: Self)
        ensures
            builder == (CameraBuilder { focus_dist: Some(focus_dist), ..self }),
    {
        CameraBuilder { focus_dist: Some(focus_dist), ..self }
    }

    /// Decides every field: what was set is kept, what was left open takes
    /// its default.
    pub fn build(self) -> (config: CameraConfig)
        ensures
            config == self.resolved(),
    {
        CameraConfig {
            aspect_ratio: match self.aspect_ratio {
                Some(v) => v,
                None => Scalar { bits: DEFAULT_ASPECT_RATIO_BITS },
            },
            image_width: match self.image_width {
                Some(v) => v,
                None => DEFAULT_IMAGE_WIDTH,
            },
            samples_per_pixel: match self.samples_per_pixel {
                Some(v) => v,
                None => DEFAULT_SAMPLES_PER_PIXEL,
            },
            max_depth: match self.max_depth {
                Some(v) => v,
                None => DEFAULT_MAX_DEPTH,
            },
            vertical_fov: match self.vertical_fov {
                Some(v) => v,
                None => Scalar { bits: DEFAULT_VERTICAL_FOV_BITS },
            },
            look_from: match self.look_from {
                Some(v) => v,
                None => Vector3::from_bits(ZERO_BITS, ZERO_BITS, ZERO_BITS),
            },
            look_at: match self.look_at {
                Some(v) => v,
                None => Vector3::from_bits(ZERO_BITS, ZERO_BITS, MINUS_ONE_BITS),
            },
            v_up: match self.v_up {
                Some(v) => v,
                None => Vector3::from_bits(ZERO_BITS, ONE_BITS, ZERO_BITS),
            },
            defocus_angle: match self.defocus_angle {
                Some(v) => v,
                None => Scalar { bits: ZERO_BITS },
            },
            focus_dist: match self.focus_dist {
                Some(v) => v,
                None => Scalar { bits: DEFAULT_FOCUS_DIST_BITS },
            },
        }
    }
}

/// The height of the image as a real, given the height that width and
/// aspect ratio ask for: at least one.
pub open spec fn floored_height(ideal: Scalar) -> Scalar {
    if ideal.lt_spec(Scalar { bits: ONE_BITS }) {
        Scalar { bits: ONE_BITS }
    } else {
        ideal
    }
}

/// The height of the image, as the real that the viewport is derived from
/// and as the count of pixel rows, which is its whole part. `ideal` is the
/// image width divided by the aspect ratio. An image has at least one row.
pub fn image_height(ideal: Scalar) -> (height: (Scalar, u32))
    ensures
        height.0 == floored_height(ideal),
        height.1 == height.0.whole_part(0xFFFF_FFFF),
        !ideal.is_nan_spec() ==> height.1 >= 1,
{
    let one = Scalar::from_bits(ONE_BITS);
    let floored = if ideal.lt(one) {
        one
    } else {
        ideal
    };
    proof {
        let b = floored.bits;
        lemma_rank_of_positive_word(ONE_BITS);
        if !ideal.is_nan_spec() {
            // a number that is at least one has the exponent of one or a larger one
            assert(floored.rank() >= one.rank());
            assert((b & MAGNITUDE_MASK) >> 52 >= 1023) by (bit_vector)
                requires
                    (b & MAGNITUDE_MASK) >= 0x3FF0_0000_0000_0000u64,
            ;
            if floored.exponent() < EXPONENT_BIAS + 32 {
                lemma_whole_part_rounds_down(floored);
            }
        }
    }
    (floored, floored.to_u32())
}

/// Whether a sample of the given squared length lies inside the unit disk.
pub open spec fn is_in_unit_disk(length_squared: Scalar) -> bool {
    length_squared.lt_spec(Scalar { bits: ONE_BITS })
}

/// Whether a sample for the defocus disk is kept; one that is not is drawn
/// again.
pub fn in_unit_disk(length_squared: Scalar) -> (kept: bool)
    ensures
        kept == is_in_unit_disk(length_squared),
{
    length_squared.lt(Scalar::from_bits(ONE_BITS))
}

/// What became of one segment of a light path.
#[derive(Clone, Copy, Debug, PartialEq, Eq, Structural)]
pub enum Segment {
    /// The bounce budget was spent before the scene was searched: the path
    /// carries no light.
    Exhausted,
    /// The ray hit nothing: the path ends in the background.
    Escaped,
    /// The ray struck a surface. Whatever the surface scatters is traced
    /// with a budget of `remaining` bounces.
    Struck { record: HitRecord, remaining: u32 },
}

/// The interval every scene search covers: from the shadow-acne bound to
/// infinity.
pub open spec fn search_interval() -> Range<Scalar> {
    Range { start: Scalar { bits: SHADOW_ACNE_BITS }, end: Scalar { bits: INFINITY_BITS } }
}

/// The segment that `ray` makes with `depth` bounces left in a scene of
/// `objects`.
pub open spec fn segment_of(ray: Ray, depth: u32, objects: Seq<Box<dyn Hittable>>) -> Segment {
    if depth == 0 {
        Segment::Exhausted
    } else {
        match sweep(objects, ray, search_interval()).1 {
            Some(record) => Segment::Struck { record, remaining: (depth - 1) as u32 },
            None => Segment::Escaped,
        }
    }
}

/// Follows `ray` for one segment with `depth` bounces left.
///
/// With no budget left the scene is not searched at all. Otherwise the
/// nearest hit beyond the shadow-acne bound decides: none means the ray
/// escaped, one means a surface was struck and one bounce was spent.
pub fn trace(ray: &Ray, depth: u32, world: &HittableList) -> (segment: Segment)
    ensures
        segment == segment_of(*ray, depth, world.objects@),
{
    if depth == 0 {
        return Segment::Exhausted;
    }
    let interval = Scalar { bits: SHADOW_ACNE_BITS }..Scalar { bits: INFINITY_BITS };
    match world.hit(ray, interval) {
        Some(record) => Segment::Struck { record, remaining: depth - 1 },
        None => Segment::Escaped,
    }
}

/// Whether `rays` can be the successive rays of one light path that starts
/// with `depth` bounces: every ray but the last struck a surface, and the
/// next one was traced with the budget that the strike left.
pub open spec fn follows_budget(rays: Seq<Ray>, depth: u32, objects: Seq<Box<dyn Hittable>>) -> bool
    decreases rays.len(),
{
    rays.len() <= 1 || match segment_of(rays[0], depth, objects) {
        Segment::Struck { record, remaining } => follows_budget(rays.skip(1), remaining, objects),
        _ => false,
    }
}

/// With no bounce budget a path carries no light, whatever the scene holds
/// and wherever the ray points.
pub proof fn lemma_no_budget_is_exhausted(ray: Ray, objects: Seq<Box<dyn Hittable>>)
    ensures
        segment_of(ray, 0, objects) == Segment::Exhausted,
{
}

/// In a scene without primitives every ray that has budget left escapes to
/// the background.
pub proof fn lemma_empty_scene_escapes(ray: Ray, depth: u32)
    requires
        depth > 0,
    ensures
        segment_of(ray, depth, Seq::<Box<dyn Hittable>>::empty()) == Segment::Escaped,
{
}

/// A segment strikes a surface only while budget is left, and a strike
/// spends exactly one bounce.
pub proof fn lemma_strike_spends_one_bounce(ray: Ray, depth: u32, objects: Seq<Box<dyn Hittable>>)
    ensures
        segment_of(ray, depth, objects) matches Segment::Struck { record, remaining } ==> depth > 0
            && remaining == depth - 1 && Some(record) == sweep(objects, ray, search_interval()).1,
{
}

/// A light path that starts with `depth` bounces strikes at most `depth`
/// surfaces: it is made of at most `depth + 1` rays.
pub proof fn lemma_path_is_bounded(rays: Seq<Ray>, depth: u32, objects: Seq<Box<dyn Hittable>>)
    requires
        follows_budget(rays, depth, objects),
    ensures
        rays.len() <= depth + 1,
    decreases rays.len(),
{
    if rays.len() > 1 {
        match segment_of(rays[0], depth, objects) {
            Segment::Struck { record, remaining } => {
                lemma_path_is_bounded(rays.skip(1), remaining, objects);
            },
            _ => {},
        }
    }
}

} // verus!
